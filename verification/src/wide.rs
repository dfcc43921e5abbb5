//! Products that do not fit 128 bits, as two limbs.
//!
//! The rate adjustment compares tenth powers of sample rates, which take up
//! to 220 bits. A value is held as `high * 2^112 + low` with `low` below
//! `2^112`, so that no step of the arithmetic overflows a `u128`.

use vstd::prelude::*;

verus! {

/// `2^56`: half a limb.
pub const HALF: u128 = 0x100_0000_0000_0000;

/// `2^112`: one limb.
pub const LIMB: u128 = 0x1_0000_0000_0000_0000_0000_0000_0000;

/// Bound on the factors of a product: `2^110`.
pub const FACTOR_LIMIT: u128 = 0x4000_0000_0000_0000_0000_0000_0000;

/// A natural number below `2^240` in two limbs.
#[derive(Clone, Copy, Debug)]
pub struct Wide {
    pub high: u128,
    pub low: u128,
}

impl Wide {
    /// The number that the limbs stand for.
    pub open spec fn value(self) -> int {
        self.high * LIMB + self.low
    }

    /// The low limb is below `2^112` and the high limb leaves room for a doubling.
    pub open spec fn wf(self) -> bool {
        self.low < LIMB && self.high < LIMB
    }
}

/// The product of two factors below `2^110`.
pub fn wide_mul(a: u128, b: u128) -> (r: Wide)
    requires
        a < FACTOR_LIMIT,
        b < FACTOR_LIMIT,
    ensures
        r.wf(),
        r.value() == a * b,
{
    let a1 = a / HALF;
    let a0 = a % HALF;
    let b1 = b / HALF;
    let b0 = b % HALF;
    assert(a1 < 0x40_0000_0000_0000 && b1 < 0x40_0000_0000_0000);
    assert(a1 * b1 < 0x40_0000_0000_0000 * 0x40_0000_0000_0000) by (nonlinear_arith)
        requires
            a1 < 0x40_0000_0000_0000,
            b1 < 0x40_0000_0000_0000,
    ;
    assert(a1 * b0 < 0x40_0000_0000_0000 * 0x100_0000_0000_0000) by (nonlinear_arith)
        requires
            a1 < 0x40_0000_0000_0000,
            b0 < 0x100_0000_0000_0000,
    ;
    assert(a0 * b1 < 0x100_0000_0000_0000 * 0x40_0000_0000_0000) by (nonlinear_arith)
        requires
            b1 < 0x40_0000_0000_0000,
            a0 < 0x100_0000_0000_0000,
    ;
    assert(a0 * b0 < 0x100_0000_0000_0000 * 0x100_0000_0000_0000) by (nonlinear_arith)
        requires
            a0 < 0x100_0000_0000_0000,
            b0 < 0x100_0000_0000_0000,
    ;
    let top: u128 = a1 * b1;
    let cross: u128 = a1 * b0 + a0 * b1;
    let bottom: u128 = a0 * b0;
    let c1 = cross / HALF;
    let c0 = cross % HALF;
    let sum: u128 = c0 * HALF + bottom;
    let carry = sum / LIMB;
    let low = sum % LIMB;
    let high: u128 = top + c1 + carry;
    proof {
        let r = HALF as int;
        assert(LIMB == r * r);
        assert(a == a1 * r + a0 && b == b1 * r + b0);
        assert(a * b == (a1 * b1) * (r * r) + (a1 * b0 + a0 * b1) * r + a0 * b0)
            by (nonlinear_arith)
            requires
                a == a1 * r + a0,
                b == b1 * r + b0,
        ;
        assert(cross * r == c1 * (r * r) + c0 * r) by (nonlinear_arith)
            requires
                cross == c1 * r + c0,
        ;
        assert((top + c1 + carry) * (r * r) == top * (r * r) + c1 * (r * r) + carry * (r * r))
            by (nonlinear_arith);
        assert(sum == carry * (r * r) + low);
    }
    Wide { high, low }
}

/// Twice a value.
pub fn wide_double(w: Wide) -> (r: Wide)
    requires
        w.wf(),
        w.high < LIMB / 2,
    ensures
        r.wf(),
        r.value() == 2 * w.value(),
{
    let twice: u128 = 2 * w.low;
    let r = Wide { high: 2 * w.high + twice / LIMB, low: twice % LIMB };
    assert(r.value() == 2 * w.value()) by (nonlinear_arith)
        requires
            r.high == 2 * w.high + twice / LIMB,
            r.low == twice % LIMB,
            twice == 2 * w.low,
            twice == (twice / LIMB) * LIMB + twice % LIMB,
            r.value() == r.high * LIMB + r.low,
            w.value() == w.high * LIMB + w.low,
    ;
    r
}

/// Whether one value is less than another.
pub fn wide_less(a: Wide, b: Wide) -> (r: bool)
    requires
        a.wf(),
        b.wf(),
    ensures
        r == (a.value() < b.value()),
{
    proof {
        if a.high < b.high {
            assert(a.high * LIMB + LIMB <= b.high * LIMB) by (nonlinear_arith)
                requires
                    a.high + 1 <= b.high,
            ;
        }
        if b.high < a.high {
            assert(b.high * LIMB + LIMB <= a.high * LIMB) by (nonlinear_arith)
                requires
                    b.high + 1 <= a.high,
            ;
        }
    }
    a.high < b.high || (a.high == b.high && a.low < b.low)
}

} // verus!
