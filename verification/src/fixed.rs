//! Fixed-point scalar arithmetic.
//!
//! Every coordinate, length and fraction in this crate is an `Fx`: a signed
//! count of millionths of a unit. All operations saturate at the `i64` range,
//! and their contracts give the exact resulting count, so callers can reason
//! about results down to the last millionth.

use vstd::prelude::*;

verus! {

/// Number of raw steps in one unit: `Fx { raw: FX_ONE }` is the value `1.0`.
pub const FX_ONE: i64 = 1_000_000;

/// Clamps an unbounded integer into the `i64` range.
pub open spec fn sat64(x: int) -> int {
    if x > i64::MAX {
        i64::MAX as int
    } else if x < i64::MIN {
        i64::MIN as int
    } else {
        x
    }
}

/// The larger of two unbounded integers.
pub open spec fn imax(a: int, b: int) -> int {
    if a >= b {
        a
    } else {
        b
    }
}

/// The smaller of two unbounded integers.
pub open spec fn imin(a: int, b: int) -> int {
    if a <= b {
        a
    } else {
        b
    }
}

/// An unbounded integer clamped into `[lo, hi]`.
pub open spec fn iclamp(x: int, lo: int, hi: int) -> int {
    imax(lo, imin(x, hi))
}

/// Absolute value of an unbounded integer.
pub open spec fn iabs(x: int) -> int {
    if x >= 0 {
        x
    } else {
        -x
    }
}

/// Division rounding toward zero, the rounding used by every `Fx` operation.
pub open spec fn tdiv(a: int, b: int) -> int
    recommends
        b != 0,
{
    if (a >= 0) == (b >= 0) {
        iabs(a) / iabs(b)
    } else {
        -(iabs(a) / iabs(b))
    }
}

/// Raw count after a saturating fixed-point multiplication.
pub open spec fn fx_mul_raw(a: int, b: int) -> int {
    sat64(tdiv(a * b, FX_ONE as int))
}

/// Raw count after a saturating fixed-point division.
pub open spec fn fx_div_raw(a: int, b: int) -> int
    recommends
        b != 0,
{
    sat64(tdiv(a * (FX_ONE as int), b))
}

/// A fixed-point number: `raw` counts millionths of a unit.
#[derive(Clone, Copy, PartialEq, Eq, Structural, Debug)]
pub struct Fx {
    pub raw: i64,
}

/// Bounds of a product of two `i64`-sized factors: it always fits in `i128`.
proof fn lemma_i64_prod_fits(a: int, b: int)
    requires
        i64::MIN <= a <= i64::MAX,
        i64::MIN <= b <= i64::MAX,
    ensures
        -0x40000000000000000000000000000000 <= a * b <= 0x40000000000000000000000000000000,
{
    assert(-0x40000000000000000000000000000000 <= a * b
        <= 0x40000000000000000000000000000000) by (nonlinear_arith)
        requires
            -0x8000000000000000 <= a <= 0x7fffffffffffffff,
            -0x8000000000000000 <= b <= 0x7fffffffffffffff,
    ;
}

/// Saturates an `i128` intermediate into `i64`.
pub(crate) fn sat_i128(x: i128) -> (r: i64)
    ensures
        r as int == sat64(x as int),
{
    if x > i64::MAX as i128 {
        i64::MAX
    } else if x < i64::MIN as i128 {
        i64::MIN
    } else {
        x as i64
    }
}

/// Division of `i128` values rounding toward zero.
pub(crate) fn tdiv_i128(a: i128, b: i128) -> (r: i128)
    requires
        b != 0,
        a > i128::MIN,
        b > i128::MIN,
    ensures
        r as int == tdiv(a as int, b as int),
{
    let an: u128 = if a >= 0 {
        a as u128
    } else {
        (-a) as u128
    };
    let bn: u128 = if b >= 0 {
        b as u128
    } else {
        (-b) as u128
    };
    let q: u128 = an / bn;
    assert(q <= an) by {
        vstd::arithmetic::div_mod::lemma_div_nonincreasing(an as int, bn as int);
    }
    if (a >= 0) == (b >= 0) {
        q as i128
    } else {
        -(q as i128)
    }
}

impl Fx {
    /// The raw count as a mathematical integer.
    pub open spec fn v(self) -> int {
        self.raw as int
    }

    /// The zero value.
    pub fn zero() -> (r: Fx)
        ensures
            r.raw == 0,
    {
        Fx { raw: 0 }
    }

    /// One unit.
    pub fn one() -> (r: Fx)
        ensures
            r.raw == FX_ONE,
    {
        Fx { raw: FX_ONE }
    }

    /// The value `i`, saturated.
    pub fn from_int(i: i64) -> (r: Fx)
        ensures
            r.raw as int == sat64(i * (FX_ONE as int)),
    {
        proof {
            lemma_i64_prod_fits(i as int, FX_ONE as int);
        }
        Fx { raw: sat_i128(i as i128 * FX_ONE as i128) }
    }

    /// The value counting `raw` millionths of a unit.
    pub fn from_units(raw: i64) -> (r: Fx)
        ensures
            r.raw == raw,
    {
        Fx { raw }
    }

    /// Saturating addition.
    pub fn add(self, o: Fx) -> (r: Fx)
        ensures
            r.raw as int == sat64(self.raw + o.raw),
    {
        Fx { raw: sat_i128(self.raw as i128 + o.raw as i128) }
    }

    /// Saturating subtraction.
    pub fn sub(self, o: Fx) -> (r: Fx)
        ensures
            r.raw as int == sat64(self.raw - o.raw),
    {
        Fx { raw: sat_i128(self.raw as i128 - o.raw as i128) }
    }

    /// Saturating negation.
    pub fn neg(self) -> (r: Fx)
        ensures
            r.raw as int == sat64(-self.raw),
    {
        Fx { raw: sat_i128(-(self.raw as i128)) }
    }

    /// Saturating fixed-point multiplication, rounding toward zero.
    pub fn mul(self, o: Fx) -> (r: Fx)
        ensures
            r.raw as int == fx_mul_raw(self.raw as int, o.raw as int),
    {
        proof {
            lemma_i64_prod_fits(self.raw as int, o.raw as int);
        }
        let p: i128 = self.raw as i128 * o.raw as i128;
        Fx { raw: sat_i128(tdiv_i128(p, FX_ONE as i128)) }
    }

    /// Saturating fixed-point division, rounding toward zero.
    pub fn div(self, o: Fx) -> (r: Fx)
        requires
            o.raw != 0,
        ensures
            r.raw as int == fx_div_raw(self.raw as int, o.raw as int),
    {
        proof {
            lemma_i64_prod_fits(self.raw as int, FX_ONE as int);
        }
        let p: i128 = self.raw as i128 * FX_ONE as i128;
        Fx { raw: sat_i128(tdiv_i128(p, o.raw as i128)) }
    }

    /// Divides the value by a plain integer, rounding toward zero.
    pub fn div_int(self, d: i64) -> (r: Fx)
        requires
            d != 0,
        ensures
            r.raw as int == sat64(tdiv(self.raw as int, d as int)),
    {
        let q = tdiv_i128(self.raw as i128, d as i128);
        Fx { raw: sat_i128(q) }
    }

    /// Half the value, rounding toward zero.
    pub fn half(self) -> (r: Fx)
        ensures
            r.raw as int == tdiv(self.raw as int, 2),
    {
        let r = self.div_int(2);
        proof {
            vstd::arithmetic::div_mod::lemma_div_nonincreasing(iabs(self.raw as int), 2);
        }
        r
    }

    /// Saturating multiplication by a plain integer.
    pub fn mul_int(self, m: i64) -> (r: Fx)
        ensures
            r.raw as int == sat64(self.raw * m),
    {
        proof {
            lemma_i64_prod_fits(self.raw as int, m as int);
        }
        Fx { raw: sat_i128(self.raw as i128 * m as i128) }
    }

    /// The smaller of two values.
    pub fn min(self, o: Fx) -> (r: Fx)
        ensures
            r.raw == if self.raw <= o.raw {
                self.raw
            } else {
                o.raw
            },
    {
        if self.raw <= o.raw {
            self
        } else {
            o
        }
    }

    /// The larger of two values.
    pub fn max(self, o: Fx) -> (r: Fx)
        ensures
            r.raw == if self.raw >= o.raw {
                self.raw
            } else {
                o.raw
            },
    {
        if self.raw >= o.raw {
            self
        } else {
            o
        }
    }

    /// Saturating absolute value.
    pub fn abs(self) -> (r: Fx)
        ensures
            r.raw as int == sat64(iabs(self.raw as int)),
    {
        if self.raw >= 0 {
            self
        } else {
            self.neg()
        }
    }

    /// Clamps the value into `[lo, hi]`.
    pub fn clamp(self, lo: Fx, hi: Fx) -> (r: Fx)
        requires
            lo.raw <= hi.raw,
        ensures
            r.raw == if self.raw < lo.raw {
                lo.raw
            } else if self.raw > hi.raw {
                hi.raw
            } else {
                self.raw
            },
    {
        if self.raw < lo.raw {
            lo
        } else if self.raw > hi.raw {
            hi
        } else {
            self
        }
    }

    /// `self <= o`.
    pub fn le(self, o: Fx) -> (r: bool)
        ensures
            r == (self.raw <= o.raw),
    {
        self.raw <= o.raw
    }

    /// `self < o`.
    pub fn lt(self, o: Fx) -> (r: bool)
        ensures
            r == (self.raw < o.raw),
    {
        self.raw < o.raw
    }

    /// `self >= o`.
    pub fn ge(self, o: Fx) -> (r: bool)
        ensures
            r == (self.raw >= o.raw),
    {
        self.raw >= o.raw
    }

    /// `self > o`.
    pub fn gt(self, o: Fx) -> (r: bool)
        ensures
            r == (self.raw > o.raw),
    {
        self.raw > o.raw
    }
}

} // verus!
