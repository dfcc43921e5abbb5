//! The rate adjustment: a relabelling of the sample rate.
//!
//! Ten steps up double the rate, ten steps down halve it; one step is the
//! factor `2^(1/10)`. The result is limited to the range from 8000 to 192000,
//! also where no step is asked for. The samples stay as they are, so pitch
//! and tempo shift together; this is no time stretch.
//!
//! The factor is irrational, but whether `rate * 2^(steps/10)` lies below
//! `s + 1/2` is a question about integers: raise both sides to the tenth
//! power. The rounding is therefore exact, with no floating point involved.

use crate::level::{clamp_int, lemma_two_to_grows, power_of_two, two_to};
use crate::wide::{wide_double, wide_less, wide_mul};
use vstd::prelude::*;

verus! {

/// The lowest sample rate that a rate adjustment leaves.
pub const MIN_RATE: u32 = 8000;

/// The highest sample rate that a rate adjustment leaves.
pub const MAX_RATE: u32 = 192000;

/// `x` to the fifth power.
pub open spec fn fifth_power(x: int) -> int {
    x * x * x * x * x
}

/// `x` to the tenth power.
pub open spec fn tenth_power(x: int) -> int {
    fifth_power(x) * fifth_power(x)
}

/// `input_rate * 2^(steps/10) < s + 1/2`, told by the tenth powers of twice
/// either side.
pub open spec fn scaled_below(input_rate: int, steps: int, s: int) -> bool {
    if steps >= 0 {
        tenth_power(2 * input_rate) * two_to(steps as nat) < tenth_power(2 * s + 1)
    } else {
        tenth_power(2 * input_rate) < tenth_power(2 * s + 1) * two_to((-steps) as nat)
    }
}

/// `s` is `input_rate * 2^(steps/10)` rounded to the nearest integer, a tie
/// going up: the product lies below `s + 1/2` and not below `s - 1/2`.
pub open spec fn is_scaled_rate(input_rate: int, steps: int, s: int) -> bool {
    &&& s >= 0
    &&& scaled_below(input_rate, steps, s)
    &&& s > 0 ==> !scaled_below(input_rate, steps, s - 1)
}

/// `input_rate * 2^(steps/10)`, rounded to the nearest integer.
pub open spec fn scaled_rate(input_rate: int, steps: int) -> int {
    choose|s: int| is_scaled_rate(input_rate, steps, s)
}

/// The rate adjustment that is applied: the request limited to ten steps either way.
pub open spec fn clamp_steps(rate: i32) -> int {
    clamp_int(rate as int, -10, 10)
}

/// The sample rate that the output is labelled with: the input rate scaled
/// by `2^(steps/10)`, rounded, and limited to the range from 8000 to 192000.
/// This holds of every adjustment, none included.
pub open spec fn output_rate(input_rate: u32, rate: i32) -> int {
    clamp_int(
        scaled_rate(input_rate as int, clamp_steps(rate)),
        MIN_RATE as int,
        MAX_RATE as int,
    )
}

/// Fifth powers grow with their base.
pub proof fn lemma_fifth_power_grows(a: int, b: int)
    requires
        0 <= a <= b,
    ensures
        0 <= fifth_power(a) <= fifth_power(b),
        a < b ==> fifth_power(a) < fifth_power(b),
{
    let a2 = a * a;
    let b2 = b * b;
    assert(0 <= a2 <= b2 && (a < b ==> a2 < b2)) by (nonlinear_arith)
        requires
            0 <= a <= b,
            a2 == a * a,
            b2 == b * b,
    ;
    let a4 = a2 * a2;
    let b4 = b2 * b2;
    assert(0 <= a4 <= b4 && (a2 < b2 ==> a4 < b4)) by (nonlinear_arith)
        requires
            0 <= a2 <= b2,
            a4 == a2 * a2,
            b4 == b2 * b2,
    ;
    assert(0 <= a4 * a <= b4 * b && (a < b ==> a4 * a < b4 * b)) by (nonlinear_arith)
        requires
            0 <= a4 <= b4,
            0 <= a <= b,
            a < b ==> a4 < b4,
    ;
    assert(fifth_power(a) == a4 * a) by (nonlinear_arith)
        requires
            a4 == (a * a) * (a * a),
    ;
    assert(fifth_power(b) == b4 * b) by (nonlinear_arith)
        requires
            b4 == (b * b) * (b * b),
    ;
}

/// Tenth powers grow with their base.
pub proof fn lemma_tenth_power_grows(a: int, b: int)
    requires
        0 <= a <= b,
    ensures
        0 <= tenth_power(a) <= tenth_power(b),
        a < b ==> tenth_power(a) < tenth_power(b),
{
    lemma_fifth_power_grows(a, b);
    let x = fifth_power(a);
    let y = fifth_power(b);
    assert(0 <= x * x <= y * y && (x < y ==> x * x < y * y)) by (nonlinear_arith)
        requires
            0 <= x <= y,
    ;
}

/// What lies below `s + 1/2` lies below `t + 1/2` for every `t` from `s` on.
pub proof fn lemma_scaled_below_grows(input_rate: int, steps: int, s: int, t: int)
    requires
        0 <= s <= t,
        scaled_below(input_rate, steps, s),
    ensures
        scaled_below(input_rate, steps, t),
{
    lemma_tenth_power_grows(2 * s + 1, 2 * t + 1);
    if steps < 0 {
        lemma_two_to_grows(0, (-steps) as nat);
        let k = two_to((-steps) as nat);
        let p = tenth_power(2 * s + 1);
        let q = tenth_power(2 * t + 1);
        assert(p * k <= q * k) by (nonlinear_arith)
            requires
                p <= q,
                k >= 1,
        ;
    }
}

/// The product never reaches twice the rate and a half: at most ten steps
/// up at most double it.
pub proof fn lemma_scaled_below_twice(input_rate: int, steps: int)
    requires
        0 <= input_rate,
        -10 <= steps <= 10,
    ensures
        scaled_below(input_rate, steps, 2 * input_rate),
{
    let n = 2 * input_rate;
    lemma_tenth_power_grows(2 * n, 2 * n + 1);
    lemma_tenth_power_grows(0, n);
    if steps >= 0 {
        lemma_two_to_grows(steps as nat, 10);
        reveal_with_fuel(two_to, 11);
        let f = fifth_power(n);
        assert(fifth_power(2 * n) == 32 * f) by (nonlinear_arith)
            requires
                f == n * n * n * n * n,
                fifth_power(2 * n) == (2 * n) * (2 * n) * (2 * n) * (2 * n) * (2 * n),
        ;
        assert(tenth_power(2 * n) == 1024 * (f * f)) by (nonlinear_arith)
            requires
                tenth_power(2 * n) == (32 * f) * (32 * f),
        ;
        let k = two_to(steps as nat);
        assert((f * f) * k <= 1024 * (f * f)) by (nonlinear_arith)
            requires
                0 <= f * f,
                1 <= k <= 1024,
        ;
    } else {
        lemma_two_to_grows(0, (-steps) as nat);
        lemma_tenth_power_grows(n, 2 * n + 1);
        let k = two_to((-steps) as nat);
        let q = tenth_power(2 * n + 1);
        assert(q <= q * k) by (nonlinear_arith)
            requires
                0 <= q,
                k >= 1,
        ;
        lemma_tenth_power_grows(n, 2 * n);
    }
}

/// At or below a bound that the product lies below, some integer is the
/// rounded product.
proof fn lemma_rounding_exists_below(input_rate: int, steps: int, bound: int)
    requires
        0 <= bound,
        scaled_below(input_rate, steps, bound),
    ensures
        exists|s: int| 0 <= s <= bound && is_scaled_rate(input_rate, steps, s),
    decreases bound,
{
    if bound > 0 && scaled_below(input_rate, steps, bound - 1) {
        lemma_rounding_exists_below(input_rate, steps, bound - 1);
    } else {
        assert(is_scaled_rate(input_rate, steps, bound));
    }
}

/// Every rate has exactly one rounded product for every number of steps, and
/// `scaled_rate` is that one.
pub proof fn lemma_scaled_rate_is(input_rate: int, steps: int, s: int)
    requires
        0 <= input_rate,
        -10 <= steps <= 10,
    ensures
        is_scaled_rate(input_rate, steps, scaled_rate(input_rate, steps)),
        is_scaled_rate(input_rate, steps, s) ==> s == scaled_rate(input_rate, steps),
{
    lemma_scaled_below_twice(input_rate, steps);
    lemma_rounding_exists_below(input_rate, steps, 2 * input_rate);
    let r = scaled_rate(input_rate, steps);
    assert(is_scaled_rate(input_rate, steps, r));
    if is_scaled_rate(input_rate, steps, s) {
        if s < r {
            lemma_scaled_below_grows(input_rate, steps, s, r - 1);
        }
        if r < s {
            lemma_scaled_below_grows(input_rate, steps, r, s - 1);
        }
    }
}

/// Without any step the rate stays as it is.
pub proof fn lemma_no_steps_keep_the_rate(input_rate: int)
    requires
        0 <= input_rate,
    ensures
        scaled_rate(input_rate, 0) == input_rate,
{
    assert(two_to(0) == 1);
    lemma_tenth_power_grows(2 * input_rate, 2 * input_rate + 1);
    if input_rate > 0 {
        lemma_tenth_power_grows(2 * input_rate - 1, 2 * input_rate);
    }
    assert(is_scaled_rate(input_rate, 0, input_rate));
    lemma_scaled_rate_is(input_rate, 0, input_rate);
}

/// Limits a requested rate adjustment to the range from -10 to 10.
pub fn clamp_rate(rate: i32) -> (steps: i32)
    ensures
        steps == clamp_steps(rate),
{
    if rate < -10 {
        -10
    } else if rate > 10 {
        10
    } else {
        rate
    }
}

/// Squares of numbers that are not negative are ordered as the numbers are.
proof fn lemma_square_order(x: int, y: int)
    requires
        0 <= x,
        0 <= y,
    ensures
        x < y <==> x * x < y * y,
{
    if x < y {
        assert(x * x < y * y) by (nonlinear_arith)
            requires
                0 <= x < y,
        ;
    } else {
        assert(y * y <= x * x) by (nonlinear_arith)
            requires
                0 <= y <= x,
        ;
    }
}

/// An even power of two is a square; an odd one is twice a square.
proof fn lemma_two_to_halves(half: nat)
    ensures
        two_to(2 * half) == two_to(half) * two_to(half),
        two_to(2 * half + 1) == 2 * (two_to(half) * two_to(half)),
    decreases half,
{
    if half > 0 {
        lemma_two_to_halves((half - 1) as nat);
        let t = two_to((half - 1) as nat);
        assert(two_to(half) == 2 * t);
        assert(two_to(2 * half) == 2 * two_to((2 * half - 1) as nat));
        assert(two_to((2 * half - 1) as nat) == 2 * two_to((2 * half - 2) as nat));
        assert((2 * t) * (2 * t) == 4 * (t * t)) by (nonlinear_arith);
    }
}

/// The fifth power of a number below `2^20`.
fn fifth(x: u64) -> (r: u128)
    requires
        x < 0x10_0000,
    ensures
        r == fifth_power(x as int),
        r < 0x10_0000_0000_0000_0000_0000_0000,
{
    let x = x as u128;
    assert(x * x < 0x10_0000 * 0x10_0000) by (nonlinear_arith)
        requires
            x < 0x10_0000,
    ;
    let square = x * x;
    assert(square * square < 0x100_0000_0000 * 0x100_0000_0000) by (nonlinear_arith)
        requires
            square < 0x100_0000_0000,
    ;
    let fourth = square * square;
    assert(fourth * x < 0x1_0000_0000_0000_0000_0000 * 0x10_0000) by (nonlinear_arith)
        requires
            fourth < 0x1_0000_0000_0000_0000_0000,
            x < 0x10_0000,
    ;
    assert(fifth_power(x as int) == fourth * x) by (nonlinear_arith)
        requires
            fourth == (x * x) * (x * x),
    ;
    fourth * x
}

/// Whether `input_rate * 2^(steps/10)` lies below `s + 1/2`.
fn lies_below(input_rate: u32, steps: i32, s: u32) -> (r: bool)
    requires
        input_rate < 0x8_0000,
        -10 <= steps <= 10,
        s <= MAX_RATE,
    ensures
        r == scaled_below(input_rate as int, steps as int, s as int),
{
    let a = fifth(2 * (input_rate as u64));
    let b = fifth(2 * (s as u64) + 1);
    let magnitude: u32 = if steps >= 0 {
        steps as u32
    } else {
        (-steps) as u32
    };
    let half: u32 = magnitude / 2;
    let odd = magnitude % 2 == 1;
    let scale = power_of_two(half) as u128;
    proof {
        lemma_two_to_halves(half as nat);
        lemma_two_to_grows(half as nat, 5);
        reveal_with_fuel(two_to, 6);
        lemma_fifth_power_grows(2 * s + 1, 0x8_0000);
        assert(fifth_power(0x8_0000) == 0x8000_0000_0000_0000_0000_0000) by {
            assert(0x8_0000int * 0x8_0000int == 0x40_0000_0000int);
            assert(0x40_0000_0000int * 0x8_0000int == 0x200_0000_0000_0000int);
            assert(0x200_0000_0000_0000int * 0x8_0000int == 0x1000_0000_0000_0000_0000int);
            assert(0x1000_0000_0000_0000_0000int * 0x8_0000int
                == 0x8000_0000_0000_0000_0000_0000int);
        }
    }
    let ghost t = two_to(half as nat);
    let ghost big = tenth_power(2 * input_rate);
    let ghost small = tenth_power(2 * s + 1);
    if steps >= 0 {
        assert(a * scale < 0x10_0000_0000_0000_0000_0000_0000 * 32) by (nonlinear_arith)
            requires
                a < 0x10_0000_0000_0000_0000_0000_0000,
                scale <= 32,
        ;
        let x: u128 = a * scale;
        assert(x * x == (a * a) * (t * t)) by (nonlinear_arith)
            requires
                x == a * t,
        ;
        if odd {
            assert(big * two_to(steps as nat) == 2 * (x * x)) by (nonlinear_arith)
                requires
                    big == a * a,
                    two_to(steps as nat) == 2 * (t * t),
                    x * x == (a * a) * (t * t),
            ;
            let left = wide_mul(x, x);
            assert(x * x < 0x200_0000_0000_0000_0000_0000_0000
                * 0x200_0000_0000_0000_0000_0000_0000) by (nonlinear_arith)
                requires
                    x < 0x200_0000_0000_0000_0000_0000_0000,
            ;
            assert(0x200_0000_0000_0000_0000_0000_0000int * 0x200_0000_0000_0000_0000_0000_0000int
                == 0x4_0000_0000_0000_0000_0000_0000int
                * 0x1_0000_0000_0000_0000_0000_0000_0000int);
            assert(left.high < 0x4_0000_0000_0000_0000_0000_0000) by (nonlinear_arith)
                requires
                    left.high * 0x1_0000_0000_0000_0000_0000_0000_0000 + left.low
                        < 0x4_0000_0000_0000_0000_0000_0000 * 0x1_0000_0000_0000_0000_0000_0000_0000,
                    0 <= left.low,
                    0 <= left.high,
            ;
            wide_less(wide_double(left), wide_mul(b, b))
        } else {
            assert(big * two_to(steps as nat) == x * x) by (nonlinear_arith)
                requires
                    big == a * a,
                    two_to(steps as nat) == t * t,
                    x * x == (a * a) * (t * t),
            ;
            proof {
                lemma_square_order(x as int, b as int);
            }
            x < b
        }
    } else {
        assert(b * scale < 0x8000_0000_0000_0000_0000_0001 * 32) by (nonlinear_arith)
            requires
                b <= 0x8000_0000_0000_0000_0000_0000,
                scale <= 32,
        ;
        let y: u128 = b * scale;
        assert(y * y == (b * b) * (t * t)) by (nonlinear_arith)
            requires
                y == b * t,
        ;
        if odd {
            assert(small * two_to((-steps) as nat) == 2 * (y * y)) by (nonlinear_arith)
                requires
                    small == b * b,
                    two_to((-steps) as nat) == 2 * (t * t),
                    y * y == (b * b) * (t * t),
            ;
            let right = wide_mul(y, y);
            assert(y * y < 0x200_0000_0000_0000_0000_0000_0000
                * 0x200_0000_0000_0000_0000_0000_0000) by (nonlinear_arith)
                requires
                    y < 0x200_0000_0000_0000_0000_0000_0000,
            ;
            assert(0x200_0000_0000_0000_0000_0000_0000int * 0x200_0000_0000_0000_0000_0000_0000int
                == 0x4_0000_0000_0000_0000_0000_0000int
                * 0x1_0000_0000_0000_0000_0000_0000_0000int);
            assert(right.high < 0x4_0000_0000_0000_0000_0000_0000) by (nonlinear_arith)
                requires
                    right.high * 0x1_0000_0000_0000_0000_0000_0000_0000 + right.low
                        < 0x4_0000_0000_0000_0000_0000_0000 * 0x1_0000_0000_0000_0000_0000_0000_0000,
                    0 <= right.low,
                    0 <= right.high,
            ;
            wide_less(wide_mul(a, a), wide_double(right))
        } else {
            assert(small * two_to((-steps) as nat) == y * y) by (nonlinear_arith)
                requires
                    small == b * b,
                    two_to((-steps) as nat) == t * t,
                    y * y == (b * b) * (t * t),
            ;
            proof {
                lemma_square_order(a as int, y as int);
            }
            a < y
        }
    }
}

/// A rate of `2^19` or more stays above the highest output rate, however far
/// it is scaled down.
proof fn lemma_large_rate_exceeds(input_rate: int, steps: int)
    requires
        0x8_0000 <= input_rate,
        -10 <= steps <= 10,
    ensures
        !scaled_below(input_rate, steps, MAX_RATE - 1),
{
    lemma_tenth_power_grows(0x10_0000, 2 * input_rate);
    lemma_tenth_power_grows(2 * (MAX_RATE - 1) + 1, 0x8_0000);
    assert(fifth_power(0x8_0000) == 0x8000_0000_0000_0000_0000_0000) by {
        assert(0x8_0000int * 0x8_0000int == 0x40_0000_0000int);
        assert(0x40_0000_0000int * 0x8_0000int == 0x200_0000_0000_0000int);
        assert(0x200_0000_0000_0000int * 0x8_0000int == 0x1000_0000_0000_0000_0000int);
        assert(0x1000_0000_0000_0000_0000int * 0x8_0000int
            == 0x8000_0000_0000_0000_0000_0000int);
    }
    assert(fifth_power(0x10_0000) == 0x10_0000_0000_0000_0000_0000_0000) by {
        assert(0x10_0000int * 0x10_0000int == 0x100_0000_0000int);
        assert(0x100_0000_0000int * 0x10_0000int == 0x1000_0000_0000_0000int);
        assert(0x1000_0000_0000_0000int * 0x10_0000int == 0x1_0000_0000_0000_0000_0000int);
        assert(0x1_0000_0000_0000_0000_0000int * 0x10_0000int
            == 0x10_0000_0000_0000_0000_0000_0000int);
    }
    let low = fifth_power(0x8_0000);
    let high = fifth_power(0x10_0000);
    assert(high == 32 * low);
    assert(high * high == 1024 * (low * low)) by (nonlinear_arith)
        requires
            high == 32 * low,
    ;
    let small = tenth_power(2 * (MAX_RATE - 1) + 1);
    let big = tenth_power(2 * input_rate);
    if steps >= 0 {
        lemma_two_to_grows(0, steps as nat);
        let k = two_to(steps as nat);
        assert(big <= big * k) by (nonlinear_arith)
            requires
                0 <= big,
                k >= 1,
        ;
    } else {
        lemma_two_to_grows((-steps) as nat, 10);
        reveal_with_fuel(two_to, 11);
        let k = two_to((-steps) as nat);
        assert(small * k <= 1024 * (low * low)) by (nonlinear_arith)
            requires
                0 <= small <= low * low,
                1 <= k <= 1024,
        ;
    }
}

/// The sample rate of the output for a sample rate of the input and a
/// requested rate adjustment.
pub fn adjusted_sample_rate(input_rate: u32, rate: i32) -> (r: u32)
    ensures
        r == output_rate(input_rate, rate),
{
    let steps = clamp_rate(rate);
    if steps == 0 {
        proof {
            lemma_no_steps_keep_the_rate(input_rate as int);
        }
        return if input_rate < MIN_RATE {
            MIN_RATE
        } else if input_rate > MAX_RATE {
            MAX_RATE
        } else {
            input_rate
        };
    }
    let ghost exact = scaled_rate(input_rate as int, steps as int);
    proof {
        lemma_scaled_rate_is(input_rate as int, steps as int, 0);
    }
    if input_rate >= 0x8_0000 {
        proof {
            lemma_large_rate_exceeds(input_rate as int, steps as int);
            if exact < MAX_RATE {
                lemma_scaled_below_grows(input_rate as int, steps as int, exact, MAX_RATE - 1);
            }
        }
        return MAX_RATE;
    }
    if lies_below(input_rate, steps, MIN_RATE) {
        proof {
            if exact > MIN_RATE {
                lemma_scaled_below_grows(
                    input_rate as int,
                    steps as int,
                    MIN_RATE as int,
                    exact - 1,
                );
            }
        }
        return MIN_RATE;
    }
    if !lies_below(input_rate, steps, MAX_RATE - 1) {
        proof {
            if exact < MAX_RATE {
                lemma_scaled_below_grows(input_rate as int, steps as int, exact, MAX_RATE - 1);
            }
        }
        return MAX_RATE;
    }
    let mut low: u32 = MIN_RATE;
    let mut high: u32 = MAX_RATE - 1;
    while high - low > 1
        invariant
            input_rate < 0x8_0000,
            -10 <= steps <= 10,
            MIN_RATE <= low < high < MAX_RATE,
            !scaled_below(input_rate as int, steps as int, low as int),
            scaled_below(input_rate as int, steps as int, high as int),
        decreases high - low,
    {
        let middle = low + (high - low) / 2;
        if lies_below(input_rate, steps, middle) {
            high = middle;
        } else {
            low = middle;
        }
    }
    proof {
        assert(is_scaled_rate(input_rate as int, steps as int, high as int));
        lemma_scaled_rate_is(input_rate as int, steps as int, high as int);
    }
    high
}

/// The output rate always lies in the supported range, and an input rate
/// within that range comes out unchanged where no adjustment is asked for.
pub proof fn lemma_output_rate_range(input_rate: u32, rate: i32)
    ensures
        MIN_RATE <= output_rate(input_rate, rate) <= MAX_RATE,
        clamp_steps(rate) == 0 && MIN_RATE <= input_rate <= MAX_RATE ==> output_rate(
            input_rate,
            rate,
        ) == input_rate,
{
    lemma_no_steps_keep_the_rate(input_rate as int);
}

/// Doubling the base multiplies the tenth power by `2^10`.
proof fn lemma_tenth_power_doubles(x: int)
    ensures
        tenth_power(2 * x) == 1024 * tenth_power(x),
{
    let f = fifth_power(x);
    assert(fifth_power(2 * x) == 32 * f) by (nonlinear_arith)
        requires
            f == x * x * x * x * x,
            fifth_power(2 * x) == (2 * x) * (2 * x) * (2 * x) * (2 * x) * (2 * x),
    ;
    assert((32 * f) * (32 * f) == 1024 * (f * f)) by (nonlinear_arith);
}

/// Ten steps up double the rate, ten steps down halve it, a half going up.
pub proof fn lemma_ten_steps_are_an_octave(input_rate: u32)
    ensures
        scaled_rate(input_rate as int, 10) == 2 * input_rate,
        scaled_rate(input_rate as int, -10) == (input_rate + 1) / 2,
{
    let n = input_rate as int;
    reveal_with_fuel(two_to, 11);
    assert(two_to(10) == 1024);
    lemma_tenth_power_doubles(2 * n);
    lemma_tenth_power_grows(4 * n, 4 * n + 1);
    if n > 0 {
        lemma_tenth_power_grows(4 * n - 1, 4 * n);
    }
    assert(is_scaled_rate(n, 10, 2 * n));
    lemma_scaled_rate_is(n, 10, 2 * n);
    let h = (n + 1) / 2;
    lemma_tenth_power_doubles(2 * h + 1);
    lemma_tenth_power_grows(2 * n, 4 * h + 2);
    if h > 0 {
        lemma_tenth_power_doubles(2 * h - 1);
        lemma_tenth_power_grows(4 * h - 2, 2 * n);
    }
    assert(is_scaled_rate(n, -10, h));
    lemma_scaled_rate_is(n, -10, h);
}

} // verus!
