//! Gain and quantisation of single samples, in exact integer arithmetic.
//!
//! A sample is a ratio `num / den` of full scale. Its output level is the
//! ratio times the gain, clamped to full scale, times 32767, rounded to the
//! nearest integer with ties away from zero. Floating-point samples are taken
//! as their IEEE-754 bit patterns, so that no rounding happens on the way.

use vstd::prelude::*;

verus! {

/// The largest output level; the smallest is its negative.
pub const FULL_SCALE: i16 = 32767;

/// `x` limited to the range from `lo` to `hi`.
pub open spec fn clamp_int(x: int, lo: int, hi: int) -> int {
    if x < lo {
        lo
    } else if x > hi {
        hi
    } else {
        x
    }
}

/// `num / den` rounded to the nearest integer, ties away from zero, for `den > 0`.
pub open spec fn round_ratio(num: int, den: int) -> int {
    if num >= 0 {
        (2 * num + den) / (2 * den)
    } else {
        -((2 * (-num) + den) / (2 * den))
    }
}

/// `num / den` rounded towards zero, for `den > 0`.
pub open spec fn trunc_ratio(num: int, den: int) -> int {
    if num >= 0 {
        num / den
    } else {
        -((-num) / den)
    }
}

/// The output level of the sample `num / den` at a volume in percent.
pub open spec fn level(num: int, den: int, volume: u8) -> int {
    clamp_int(round_ratio(num * volume * 32767, den * 100), -32767, 32767)
}

/// Two to the power `e`.
pub open spec fn two_to(e: nat) -> int
    decreases e,
{
    if e == 0 {
        1
    } else {
        2 * two_to((e - 1) as nat)
    }
}

/// Powers of two are positive and grow with the exponent.
pub proof fn lemma_two_to_grows(a: nat, b: nat)
    requires
        a <= b,
    ensures
        1 <= two_to(a) <= two_to(b),
    decreases b,
{
    if a < b {
        lemma_two_to_grows(a, (b - 1) as nat);
    } else if a > 0 {
        lemma_two_to_grows((a - 1) as nat, (a - 1) as nat);
    }
}

/// The value of `2^48`.
pub proof fn lemma_two_to_48()
    ensures
        two_to(48) == 0x1_0000_0000_0000,
{
    reveal_with_fuel(two_to, 49);
}

/// Two to the power `e`, for an exponent below 48.
pub(crate) fn power_of_two(e: u32) -> (p: u64)
    requires
        e <= 48,
    ensures
        p == two_to(e as nat),
        1 <= p <= 0x1_0000_0000_0000,
{
    let mut p: u64 = 1;
    let mut i: u32 = 0;
    proof {
        lemma_two_to_48();
    }
    while i < e
        invariant
            i <= e <= 48,
            p == two_to(i as nat),
            1 <= p <= two_to(48),
        decreases e - i,
    {
        proof {
            lemma_two_to_48();
            lemma_two_to_grows((i + 1) as nat, 48);
        }
        p = p * 2;
        i += 1;
    }
    proof {
        lemma_two_to_48();
    }
    p
}

/// Silence stays silence at every volume.
pub proof fn lemma_level_of_silence(den: int, volume: u8)
    requires
        den > 0,
    ensures
        level(0, den, volume) == 0,
{
    assert(0 * volume * 32767 == 0);
    let d = den * 100;
    assert((2 * 0 + d) / (2 * d) == 0) by (nonlinear_arith)
        requires
            d > 0,
    ;
}

/// A negated sample gets the negated level.
pub proof fn lemma_level_is_odd(num: int, den: int, volume: u8)
    requires
        den > 0,
    ensures
        level(-num, den, volume) == -level(num, den, volume),
{
    let x = num * volume * 32767;
    assert((-num) * volume * 32767 == -x) by (nonlinear_arith)
        requires
            x == num * volume * 32767,
    ;
    let d = den * 100;
    if x == 0 {
        assert((2 * 0 + d) / (2 * d) == 0) by (nonlinear_arith)
            requires
                d > 0,
        ;
    }
}

/// The level of a sample that is not negative, computed without overflow.
pub(crate) fn level_of_magnitude(num: u64, den: u64, volume: u8) -> (r: i16)
    requires
        den > 0,
        den <= 0x100_0000_0000_0000,
    ensures
        r == level(num as int, den as int, volume),
        0 <= r <= 32767,
{
    assert(0 <= num * volume <= 0xffff_ffff_ffff_ffff * 255) by (nonlinear_arith)
        requires
            0 <= num <= 0xffff_ffff_ffff_ffff,
            0 <= volume <= 255,
    ;
    let scaled: u128 = (num as u128) * (volume as u128) * 32767;
    let d: u128 = (den as u128) * 100;
    let q: u128 = (2 * scaled + d) / (2 * d);
    if q > 32767 {
        32767
    } else {
        q as i16
    }
}

/// The level of a sample given by sign and magnitude.
pub(crate) fn level_of(negative: bool, num: u64, den: u64, volume: u8) -> (r: i16)
    requires
        den > 0,
        den <= 0x100_0000_0000_0000,
    ensures
        r == level(
            if negative {
                -(num as int)
            } else {
                num as int
            },
            den as int,
            volume,
        ),
{
    let magnitude = level_of_magnitude(num, den, volume);
    if negative {
        proof {
            lemma_level_is_odd(num as int, den as int, volume);
        }
        -magnitude
    } else {
        magnitude
    }
}

/// Level of a signed 16-bit sample, taken as a fraction of 32768.
pub open spec fn level_int16(v: i16, volume: u8) -> int {
    level(v as int, 32768, volume)
}

/// Level of a signed 32-bit sample, taken as a fraction of its largest value.
pub open spec fn level_int32(v: i32, volume: u8) -> int {
    level(v as int, 0x7fff_ffff, volume)
}

/// Level of an unsigned 8-bit sample, centred at 128.
pub open spec fn level_uint8(v: u8, volume: u8) -> int {
    level(v - 128, 128, volume)
}

/// Level of a signed sample of `bits` bits, taken as a fraction of the
/// largest value of that width.
pub open spec fn level_wide(v: i32, bits: u16, volume: u8) -> int {
    level(v as int, two_to((bits - 1) as nat) - 1, volume)
}

/// Level of a 16-bit sample that is scaled as it stands: the
/// value times the gain, rounded towards zero, limited to 16 bits.
pub open spec fn level_scaled(v: i16, volume: u8) -> int {
    clamp_int(trunc_ratio(v * volume, 100), -32768, 32767)
}

/// Level of a WAV sample of `bits` bits, at most 16. A 16-bit sample is
/// scaled as it stands; a narrower one is taken as a fraction of `2^(bits-1)`,
/// the full scale of its width, so that it fills the 16-bit range.
pub open spec fn level_narrow(v: i16, bits: u16, volume: u8) -> int {
    if bits >= 16 {
        level_scaled(v, volume)
    } else {
        level(v as int, two_to((bits - 1) as nat), volume)
    }
}

/// The level of a signed 16-bit sample taken as a fraction of full scale.
pub fn quantize_int16(v: i16, volume: u8) -> (r: i16)
    ensures
        r == level_int16(v, volume),
{
    if v < 0 {
        level_of(true, (-(v as i32)) as u64, 32768, volume)
    } else {
        level_of(false, v as u64, 32768, volume)
    }
}

/// The level of a signed 32-bit sample taken as a fraction of full scale.
pub fn quantize_int32(v: i32, volume: u8) -> (r: i16)
    ensures
        r == level_int32(v, volume),
{
    if v < 0 {
        level_of(true, (-(v as i64)) as u64, 0x7fff_ffff, volume)
    } else {
        level_of(false, v as u64, 0x7fff_ffff, volume)
    }
}

/// The level of an unsigned 8-bit sample, centred at 128.
pub fn quantize_uint8(v: u8, volume: u8) -> (r: i16)
    ensures
        r == level_uint8(v, volume),
{
    if v < 128 {
        level_of(true, (128 - v) as u64, 128, volume)
    } else {
        level_of(false, (v - 128) as u64, 128, volume)
    }
}

/// The level of a sample of 17 to 32 bits.
pub(crate) fn quantize_wide(v: i32, bits: u16, volume: u8) -> (r: i16)
    requires
        17 <= bits <= 32,
    ensures
        r == level_wide(v, bits, volume),
{
    let full = power_of_two((bits - 1) as u32) - 1;
    proof {
        lemma_two_to_grows(16, (bits - 1) as nat);
        reveal_with_fuel(two_to, 17);
    }
    if v < 0 {
        level_of(true, (-(v as i64)) as u64, full, volume)
    } else {
        level_of(false, v as u64, full, volume)
    }
}

/// The level of a 16-bit sample that is scaled as it stands.
pub fn quantize_scaled(v: i16, volume: u8) -> (r: i16)
    ensures
        r == level_scaled(v, volume),
{
    let negative = v < 0;
    let magnitude: u32 = if negative {
        (-(v as i32)) as u32
    } else {
        v as u32
    };
    assert(magnitude * volume <= 32768 * 255) by (nonlinear_arith)
        requires
            0 <= magnitude <= 32768,
            0 <= volume <= 255,
    ;
    let product: u32 = magnitude * (volume as u32);
    let q: u32 = product / 100;
    assert(magnitude * volume == product);
    if negative {
        assert(v * volume == -(magnitude * volume)) by (nonlinear_arith)
            requires
                v == -magnitude,
        ;
        if q > 32768 {
            -32768
        } else {
            (-(q as i32)) as i16
        }
    } else {
        assert(v * volume == magnitude * volume) by (nonlinear_arith)
            requires
                v == magnitude,
        ;
        if q > 32767 {
            32767
        } else {
            q as i16
        }
    }
}

/// The level of a WAV sample of 1 to 16 bits.
pub(crate) fn quantize_narrow(v: i16, bits: u16, volume: u8) -> (r: i16)
    requires
        1 <= bits <= 16,
    ensures
        r == level_narrow(v, bits, volume),
{
    if bits == 16 {
        return quantize_scaled(v, volume);
    }
    let full = power_of_two((bits - 1) as u32);
    if v < 0 {
        level_of(true, (-(v as i32)) as u64, full, volume)
    } else {
        level_of(false, v as u64, full, volume)
    }
}

/// The sign bit of a 32-bit float is set.
pub open spec fn float_is_negative(bits: u32) -> bool {
    bits >= 0x8000_0000
}

/// The biased exponent of a 32-bit float.
pub open spec fn float_exponent(bits: u32) -> int {
    ((bits % 0x8000_0000) / 0x80_0000) as int
}

/// The fraction field of a 32-bit float.
pub open spec fn float_fraction(bits: u32) -> int {
    (bits % 0x80_0000) as int
}

/// The integer significand of a finite 32-bit float: the fraction, with the
/// implicit leading bit for a normal number.
pub open spec fn float_significand(bits: u32) -> int {
    if float_exponent(bits) == 0 {
        float_fraction(bits)
    } else {
        float_fraction(bits) + 0x80_0000
    }
}

/// The power of two that the significand of a finite 32-bit float is scaled by.
pub open spec fn float_power(bits: u32) -> int {
    if float_exponent(bits) == 0 {
        -149
    } else {
        float_exponent(bits) - 150
    }
}

/// `magnitude` with the sign of the float.
pub open spec fn with_sign(negative: bool, magnitude: int) -> int {
    if negative {
        -magnitude
    } else {
        magnitude
    }
}

/// Level of a 32-bit float sample given by its bit pattern. A finite value is
/// its significand times a power of two, taken exactly. An infinity is full
/// scale with its sign, unless the volume is zero; a NaN is silence.
pub open spec fn level_float32(bits: u32, volume: u8) -> int {
    let negative = float_is_negative(bits);
    if float_exponent(bits) == 255 {
        if float_fraction(bits) != 0 || volume == 0 {
            0
        } else {
            with_sign(negative, 32767)
        }
    } else if float_power(bits) >= 0 {
        level(
            with_sign(negative, float_significand(bits) * two_to(float_power(bits) as nat)),
            1,
            volume,
        )
    } else {
        level(
            with_sign(negative, float_significand(bits)),
            two_to((-float_power(bits)) as nat),
            volume,
        )
    }
}

/// A sample of at least 2^23 in magnitude is at full scale at any volume but zero.
proof fn lemma_level_of_large(negative: bool, significand: int, power: nat, volume: u8)
    requires
        significand >= 0x80_0000,
    ensures
        level(with_sign(negative, significand * two_to(power)), 1, volume) == (if volume == 0 {
            0
        } else {
            with_sign(negative, 32767)
        }),
{
    lemma_two_to_grows(0, power);
    let value = significand * two_to(power);
    assert(value >= 0x80_0000) by (nonlinear_arith)
        requires
            significand >= 0x80_0000,
            two_to(power) >= 1,
            value == significand * two_to(power),
    ;
    if volume == 0 {
        assert(value * volume * 32767 == 0) by (nonlinear_arith)
            requires
                volume == 0,
        ;
        lemma_level_of_silence(1, volume);
        assert(0 * volume * 32767 == 0);
        assert(level(value, 1, volume) == 0);
    } else {
        let x = value * volume * 32767;
        assert(x >= 0x80_0000 * 32767) by (nonlinear_arith)
            requires
                value >= 0x80_0000,
                volume >= 1,
                x == value * volume * 32767,
        ;
        assert(x >= 6553400);
        assert((2 * x + 100) / 200 >= 32767) by (nonlinear_arith)
            requires
                x >= 6553400,
        ;
        assert(round_ratio(x, 100) >= 32767);
        assert(level(value, 1, volume) == 32767);
    }
    if negative {
        lemma_level_is_odd(value, 1, volume);
    }
}

/// A sample below 2^-24 in magnitude is silence at any volume.
proof fn lemma_level_of_tiny(significand: int, shift: nat, volume: u8)
    requires
        0 <= significand < 0x100_0000,
        shift >= 48,
    ensures
        level(significand, two_to(shift), volume) == 0,
{
    lemma_two_to_grows(48, shift);
    lemma_two_to_48();
    let x = significand * volume * 32767;
    assert(0 <= x < 0x100_0000 * 255 * 32767) by (nonlinear_arith)
        requires
            0 <= significand < 0x100_0000,
            0 <= volume <= 255,
            x == significand * volume * 32767,
    ;
    let d = two_to(shift) * 100;
    assert((2 * x + d) / (2 * d) == 0) by (nonlinear_arith)
        requires
            0 <= x,
            2 * x < d,
    ;
}

/// The level of a 32-bit float sample given by its bit pattern.
pub fn quantize_float32(bits: u32, volume: u8) -> (r: i16)
    ensures
        r == level_float32(bits, volume),
{
    let negative = bits >= 0x8000_0000;
    let exponent: u32 = (bits % 0x8000_0000) / 0x80_0000;
    let fraction: u32 = bits % 0x80_0000;
    let full: i16 = if volume == 0 {
        0
    } else if negative {
        -32767
    } else {
        32767
    };
    if exponent == 255 {
        return if fraction != 0 {
            0
        } else {
            full
        };
    }
    let significand: u32 = if exponent == 0 {
        fraction
    } else {
        fraction + 0x80_0000
    };
    if exponent >= 150 {
        proof {
            lemma_level_of_large(negative, significand as int, (exponent - 150) as nat, volume);
        }
        return full;
    }
    let shift: u32 = if exponent == 0 {
        149
    } else {
        150 - exponent
    };
    if shift >= 48 {
        proof {
            lemma_two_to_grows(0, shift as nat);
            lemma_level_of_tiny(significand as int, shift as nat, volume);
            lemma_level_is_odd(significand as int, two_to(shift as nat), volume);
        }
        return 0;
    }
    level_of(negative, significand as u64, power_of_two(shift), volume)
}

/// Rounding moves a ratio by at most one half.
pub proof fn lemma_round_ratio_is_nearest(num: int, den: int)
    requires
        den > 0,
    ensures
        -den <= 2 * den * round_ratio(num, den) - 2 * num <= den,
{
    let magnitude = if num >= 0 {
        num
    } else {
        -num
    };
    let q = (2 * magnitude + den) / (2 * den);
    assert(2 * den * q <= 2 * magnitude + den < 2 * den * q + 2 * den) by (nonlinear_arith)
        requires
            den > 0,
            magnitude >= 0,
            q == (2 * magnitude + den) / (2 * den),
    ;
    if num < 0 {
        assert(2 * den * (-q) == -(2 * den * q)) by (nonlinear_arith);
    }
}

/// `l` is within half a step of the sample `num / den` on the 16-bit scale,
/// on which full scale is 32767.
pub open spec fn is_nearest_level(l: int, num: int, den: int) -> bool {
    -den <= 2 * den * l - 2 * num * 32767 <= den
}

/// At full volume, a sample within full scale comes out as the nearest
/// integer to the sample times 32767: the output is within half a step of
/// the input's exact value on the 16-bit scale.
pub proof fn lemma_level_is_nearest_at_full_volume(num: int, den: int)
    requires
        den > 0,
        -den <= num <= den,
    ensures
        is_nearest_level(level(num, den, 100), num, den),
        -32767 <= level(num, den, 100) <= 32767,
{
    let n = num * 100 * 32767;
    let d = den * 100;
    let q = round_ratio(n, d);
    lemma_round_ratio_is_nearest(n, d);
    assert(2 * d * q == 100 * (2 * den * q)) by (nonlinear_arith)
        requires
            d == den * 100,
    ;
    assert(2 * n == 100 * (2 * num * 32767)) by (nonlinear_arith)
        requires
            n == num * 100 * 32767,
    ;
    let e = 2 * den * q - 2 * num * 32767;
    assert(-d <= 100 * e <= d);
    assert(-den <= e <= den);
    assert(-32767 <= q <= 32767) by (nonlinear_arith)
        requires
            den > 0,
            -den <= num <= den,
            -den <= 2 * den * q - 2 * num * 32767 <= den,
    ;
}

/// At full volume every integer sample that does not exceed the full scale of
/// its format comes out within half a step of its exact value on the 16-bit
/// scale; 16-bit and unsigned 8-bit samples never exceed it.
pub proof fn lemma_formats_are_nearest_at_full_volume(
    narrow: i16,
    byte: u8,
    long: i32,
    wide: i32,
    bits: u16,
)
    requires
        long > i32::MIN,
        17 <= bits <= 32,
        -(two_to((bits - 1) as nat) - 1) <= wide <= two_to((bits - 1) as nat) - 1,
    ensures
        is_nearest_level(level_int16(narrow, 100), narrow as int, 32768),
        is_nearest_level(level_uint8(byte, 100), byte - 128, 128),
        is_nearest_level(level_int32(long, 100), long as int, 0x7fff_ffff),
        is_nearest_level(
            level_wide(wide, bits, 100),
            wide as int,
            two_to((bits - 1) as nat) - 1,
        ),
{
    lemma_level_is_nearest_at_full_volume(narrow as int, 32768);
    lemma_level_is_nearest_at_full_volume(byte - 128, 128);
    lemma_level_is_nearest_at_full_volume(long as int, 0x7fff_ffff);
    lemma_two_to_grows(1, (bits - 1) as nat);
    reveal_with_fuel(two_to, 2);
    lemma_level_is_nearest_at_full_volume(wide as int, two_to((bits - 1) as nat) - 1);
}

/// At full volume a sample of 17 to 32 bits that is not negative and does not
/// exceed the full scale of its width comes out within one step of its
/// 16-bit equivalent, the sample divided by `2^(bits-16)`; a negative sample
/// comes out as the negative of its mirror image.
pub proof fn lemma_wide_at_full_volume(v: i32, bits: u16)
    requires
        17 <= bits <= 32,
        0 <= v <= two_to((bits - 1) as nat) - 1,
    ensures
        -1 <= level_wide(v, bits, 100) - (v as int) / two_to((bits - 16) as nat) <= 1,
        v > i32::MIN ==> level_wide((-v) as i32, bits, 100) == -level_wide(v, bits, 100),
{
    let s = two_to((bits - 16) as nat);
    let d = two_to((bits - 1) as nat);
    let den = d - 1;
    lemma_two_to_adds(15, (bits - 16) as nat);
    lemma_two_to_grows(1, (bits - 16) as nat);
    reveal_with_fuel(two_to, 16);
    assert(two_to(15) == 32768 && two_to(1) == 2);
    assert(d == 32768 * s);
    let l = level(v as int, den, 100);
    lemma_level_is_nearest_at_full_volume(v as int, den);
    lemma_level_is_odd(v as int, den, 100);
    let w = v as int;
    let q = w / s;
    let r = w % s;
    assert(w == q * s + r && 0 <= r < s && 0 <= q) by (nonlinear_arith)
        requires
            q == w / s,
            r == w % s,
            s >= 2,
            w >= 0,
    ;
    assert(2 * den * l < 2 * den * (q + 2)) by (nonlinear_arith)
        requires
            2 * den * l - 2 * v * 32767 <= den,
            den == 32768 * s - 1,
            v == q * s + r,
            0 <= r < s,
            0 <= q,
            s >= 2,
    ;
    assert(2 * den * l > 2 * den * (q - 2)) by (nonlinear_arith)
        requires
            -den <= 2 * den * l - 2 * v * 32767,
            den == 32768 * s - 1,
            v == q * s + r,
            0 <= r < s,
            0 <= q,
            v <= den,
            s >= 2,
    ;
    assert(q - 2 < l < q + 2) by (nonlinear_arith)
        requires
            den > 0,
            2 * den * l < 2 * den * (q + 2),
            2 * den * l > 2 * den * (q - 2),
    ;
}

/// At full volume a finite float sample of magnitude at most one comes out
/// as the nearest integer to the sample times 32767.
pub proof fn lemma_float_at_full_volume(bits: u32)
    requires
        float_exponent(bits) != 255,
        float_power(bits) < 0,
        float_significand(bits) <= two_to((-float_power(bits)) as nat),
    ensures
        is_nearest_level(
            level_float32(bits, 100),
            with_sign(float_is_negative(bits), float_significand(bits)),
            two_to((-float_power(bits)) as nat),
        ),
{
    lemma_two_to_grows(0, (-float_power(bits)) as nat);
    lemma_level_is_nearest_at_full_volume(
        with_sign(float_is_negative(bits), float_significand(bits)),
        two_to((-float_power(bits)) as nat),
    );
}

/// Powers of two multiply as their exponents add.
pub proof fn lemma_two_to_adds(a: nat, b: nat)
    ensures
        two_to(a + b) == two_to(a) * two_to(b),
    decreases a,
{
    if a > 0 {
        lemma_two_to_adds((a - 1) as nat, b);
        let x = two_to((a - 1) as nat);
        let y = two_to(b);
        assert(two_to(a + b) == 2 * two_to((a - 1 + b) as nat));
        assert((2 * x) * y == 2 * (x * y)) by (nonlinear_arith);
    } else {
        assert(1 * two_to(b) == two_to(b));
    }
}

/// At full volume a WAV sample of at most 16 bits that lies within the range
/// of its width comes out within one step of its 16-bit equivalent, which is
/// the sample times `2^(16-bits)`; a 16-bit sample comes out as it went in.
pub proof fn lemma_narrow_at_full_volume(v: i16, bits: u16)
    requires
        1 <= bits <= 16,
        -two_to((bits - 1) as nat) <= v <= two_to((bits - 1) as nat),
    ensures
        -1 <= level_narrow(v, bits, 100) - v * two_to((16 - bits) as nat) <= 1,
        bits == 16 ==> level_narrow(v, bits, 100) == v,
{
    if bits == 16 {
        assert(two_to(0) == 1);
    } else {
        let d = two_to((bits - 1) as nat);
        let e = two_to((16 - bits) as nat);
        lemma_two_to_grows(0, (bits - 1) as nat);
        lemma_two_to_adds((bits - 1) as nat, (16 - bits) as nat);
        reveal_with_fuel(two_to, 16);
        assert(d * e == 32768);
        let l = level(v as int, d, 100);
        lemma_level_is_nearest_at_full_volume(v as int, d);
        let gap = l - v * e;
        assert(2 * d * gap == (2 * d * l - 2 * v * 32767) - 2 * v) by (nonlinear_arith)
            requires
                gap == l - v * e,
                d * e == 32768,
        ;
        assert(-1 <= gap <= 1) by (nonlinear_arith)
            requires
                d >= 1,
                -3 * d <= 2 * d * gap <= 3 * d,
        ;
    }
}

/// A 16-bit sample that is scaled as it stands is unchanged at full volume.
pub proof fn lemma_scaled_at_full_volume(v: i16)
    ensures
        level_scaled(v, 100) == v,
{
}

/// A 16-bit sample taken as a fraction of 32768 comes out within one step
/// of itself at full volume.
pub proof fn lemma_int16_at_full_volume(v: i16)
    ensures
        v - 1 <= level_int16(v, 100) <= v + 1,
{
    let x = v * 100 * 32767;
    assert(x == v * 3276700);
    if v >= 0 {
        let q = (2 * x + 3276800) / 6553600;
        assert(round_ratio(x, 3276800) == q);
        assert(v - 1 <= q <= v);
    } else {
        let q = (2 * (-x) + 3276800) / 6553600;
        assert(round_ratio(x, 3276800) == -q);
        assert(-v - 1 <= q <= -v);
    }
}

/// Silence in any of the sample formats is silence at every volume.
pub proof fn lemma_silence_stays_silent(volume: u8)
    ensures
        level_int16(0, volume) == 0,
        level_int32(0, volume) == 0,
        level_uint8(128, volume) == 0,
        level_scaled(0, volume) == 0,
        forall|bits: u16| 1 <= bits <= 16 ==> #[trigger] level_narrow(0, bits, volume) == 0,
        level_float32(0, volume) == 0,
        level_float32(0x8000_0000, volume) == 0,
        forall|bits: u16| 17 <= bits <= 32 ==> #[trigger] level_wide(0, bits, volume) == 0,
{
    lemma_level_of_silence(32768, volume);
    lemma_level_of_silence(0x7fff_ffff, volume);
    lemma_level_of_silence(128, volume);
    assert(0 * volume == 0);
    lemma_two_to_grows(0, 149);
    lemma_level_of_silence(two_to(149), volume);
    assert forall|bits: u16| 1 <= bits <= 16 implies #[trigger] level_narrow(0, bits, volume)
        == 0 by {
        if bits < 16 {
            lemma_two_to_grows(0, (bits - 1) as nat);
            lemma_level_of_silence(two_to((bits - 1) as nat), volume);
        }
    }
    assert forall|bits: u16| 17 <= bits <= 32 implies #[trigger] level_wide(0, bits, volume)
        == 0 by {
        lemma_two_to_grows(1, (bits - 1) as nat);
        reveal_with_fuel(two_to, 2);
        lemma_level_of_silence(two_to((bits - 1) as nat) - 1, volume);
    }
}

} // verus!
