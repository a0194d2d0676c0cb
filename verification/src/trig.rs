//! Sine and cosine over fixed-point degrees.
//!
//! Angles are `Fx` values counting degrees, measured clockwise. Sine and
//! cosine are computed by a rational approximation that is exact at every
//! multiple of ninety degrees and never leaves `[-1, 1]`, and that satisfies
//! `sin(a + 180) == -sin(a)` and `cos(a + 180) == -cos(a)` exactly — the
//! identities the gradient geometry relies on.

use vstd::prelude::*;
use crate::fixed::Fx;

verus! {

/// Raw count of a whole turn: 360 degrees.
pub const DEG_FULL: i64 = 360_000_000;

/// Raw count of half a turn: 180 degrees.
pub const DEG_HALF: i64 = 180_000_000;

/// Raw count of a quarter turn: 90 degrees.
pub const DEG_QUARTER: i64 = 90_000_000;

/// The rational sine approximation on `[0, 180]` degrees, in raw counts:
/// `4 x (180 - x) / (40500 - x (180 - x))` with `x` in degrees. It is zero
/// exactly at 0 and 180 degrees and one whole unit exactly at 90 degrees.
pub open spec fn half_wave_raw(x: int) -> int {
    let t = x * (180_000_000 - x);
    (4 * t * 1_000_000) / (40_500_000_000_000_000 - t)
}

/// Raw sine of an angle given in raw degrees.
pub open spec fn sin_raw(a: int) -> int {
    let n = a % (DEG_FULL as int);
    if n <= DEG_HALF {
        half_wave_raw(n)
    } else {
        -half_wave_raw(n - DEG_HALF)
    }
}

/// Raw cosine of an angle given in raw degrees: the sine a quarter turn on.
pub open spec fn cos_raw(a: int) -> int {
    sin_raw((a % (DEG_FULL as int)) + DEG_QUARTER)
}

/// Reduces raw degrees into `[0, 360)`.
pub(crate) fn norm360(raw: i64) -> (n: i64)
    ensures
        n as int == (raw as int) % (DEG_FULL as int),
        0 <= n < DEG_FULL,
{
    let v: i128 = raw as i128;
    if v >= 0 {
        let m: u128 = (v as u128) % (DEG_FULL as u128);
        proof {
            vstd::arithmetic::div_mod::lemma_mod_division_less_than_divisor(
                v as int,
                DEG_FULL as int,
            );
        }
        m as i64
    } else {
        let m: u128 = ((-v) as u128) % (DEG_FULL as u128);
        proof {
            vstd::arithmetic::div_mod::lemma_mod_division_less_than_divisor(
                (-v) as int,
                DEG_FULL as int,
            );
            let q = (-v) as int / (DEG_FULL as int);
            vstd::arithmetic::div_mod::lemma_fundamental_div_mod((-v) as int, DEG_FULL as int);
            if m == 0 {
                assert(v as int == (-q) * (DEG_FULL as int) + 0) by (nonlinear_arith)
                    requires
                        (-v) as int == q * (DEG_FULL as int) + m as int,
                        m == 0,
                ;
                vstd::arithmetic::div_mod::lemma_fundamental_div_mod_converse_mod(
                    v as int,
                    DEG_FULL as int,
                    -q,
                    0,
                );
            } else {
                assert(v as int == (-q - 1) * (DEG_FULL as int) + (DEG_FULL as int - m as int))
                    by (nonlinear_arith)
                    requires
                        (-v) as int == q * (DEG_FULL as int) + m as int,
                ;
                vstd::arithmetic::div_mod::lemma_fundamental_div_mod_converse_mod(
                    v as int,
                    DEG_FULL as int,
                    -q - 1,
                    DEG_FULL as int - m as int,
                );
            }
        }
        if m == 0 {
            0
        } else {
            DEG_FULL - m as i64
        }
    }
}

/// The half-wave value never leaves `[0, 1]` on its domain.
pub proof fn lemma_half_wave_range(x: int)
    requires
        0 <= x <= DEG_HALF,
    ensures
        0 <= half_wave_raw(x) <= 1_000_000,
{
    let t = x * (180_000_000 - x);
    assert(t == 8_100_000_000_000_000 - (x - 90_000_000) * (x - 90_000_000)
        && (x - 90_000_000) * (x - 90_000_000) >= 0 && t >= 0) by (nonlinear_arith)
        requires
            0 <= x <= 180_000_000,
            t == x * (180_000_000 - x),
    ;
    assert(0 <= t <= 8_100_000_000_000_000);
    let num = 4 * t * 1_000_000;
    let den = 40_500_000_000_000_000 - t;
    assert(num >= 0);
    assert(den > 0);
    vstd::arithmetic::div_mod::lemma_div_pos_is_pos(num, den);
    assert(num <= den * 1_000_000) by (nonlinear_arith)
        requires
            0 <= t <= 8_100_000_000_000_000,
            num == 4 * t * 1_000_000,
            den == 40_500_000_000_000_000 - t,
    ;
    vstd::arithmetic::div_mod::lemma_multiply_divide_le(num, den, 1_000_000);
}

/// Sine stays within one unit of either sign.
pub proof fn lemma_sin_raw_range(a: int)
    ensures
        -1_000_000 <= sin_raw(a) <= 1_000_000,
{
    vstd::arithmetic::div_mod::lemma_mod_division_less_than_divisor(a, DEG_FULL as int);
    let n = a % (DEG_FULL as int);
    if n <= DEG_HALF {
        lemma_half_wave_range(n);
    } else {
        lemma_half_wave_range(n - DEG_HALF);
    }
}

/// Cosine stays within one unit of either sign.
pub proof fn lemma_cos_raw_range(a: int)
    ensures
        -1_000_000 <= cos_raw(a) <= 1_000_000,
{
    lemma_sin_raw_range((a % (DEG_FULL as int)) + DEG_QUARTER);
}

/// The half-wave value vanishes at both ends of its domain.
proof fn lemma_half_wave_ends()
    ensures
        half_wave_raw(0) == 0,
        half_wave_raw(DEG_HALF as int) == 0,
{
    assert(0 * (180_000_000 - 0) == 0);
    assert(180_000_000 * (180_000_000 - 180_000_000) == 0);
    vstd::arithmetic::div_mod::lemma_basic_div(0, 40_500_000_000_000_000);
}

/// Half a turn negates the sine, exactly.
pub proof fn lemma_sin_raw_antiperiod(a: int)
    ensures
        sin_raw(a + DEG_HALF) == -sin_raw(a),
{
    let d = DEG_FULL as int;
    vstd::arithmetic::div_mod::lemma_mod_division_less_than_divisor(a, d);
    let n = a % d;
    let n2 = (a + DEG_HALF) % d;
    vstd::arithmetic::div_mod::lemma_fundamental_div_mod(a, d);
    let q = a / d;
    lemma_half_wave_ends();
    if n < DEG_HALF {
        assert(a + DEG_HALF == q * d + (n + DEG_HALF));
        vstd::arithmetic::div_mod::lemma_fundamental_div_mod_converse_mod(
            a + DEG_HALF,
            d,
            q,
            n + DEG_HALF,
        );
        assert(n2 == n + DEG_HALF);
        if n == 0 {
            assert(sin_raw(a + DEG_HALF) == half_wave_raw(DEG_HALF as int));
            assert(sin_raw(a) == half_wave_raw(0));
        } else {
            assert(sin_raw(a + DEG_HALF) == -half_wave_raw(n2 - DEG_HALF));
            assert(sin_raw(a) == half_wave_raw(n));
        }
    } else {
        assert(a + DEG_HALF == (q + 1) * d + (n - DEG_HALF)) by (nonlinear_arith)
            requires
                a == q * d + n,
                d == 360_000_000,
        ;
        vstd::arithmetic::div_mod::lemma_fundamental_div_mod_converse_mod(
            a + DEG_HALF,
            d,
            q + 1,
            n - DEG_HALF,
        );
        assert(n2 == n - DEG_HALF);
        if n == DEG_HALF {
            assert(sin_raw(a + DEG_HALF) == half_wave_raw(0));
            assert(sin_raw(a) == half_wave_raw(DEG_HALF as int));
        } else {
            assert(sin_raw(a + DEG_HALF) == half_wave_raw(n2));
            assert(sin_raw(a) == -half_wave_raw(n - DEG_HALF));
        }
    }
}

/// Away from the ends of its domain the half-wave value is strictly
/// positive: the numerator of the approximation reaches its denominator.
proof fn lemma_half_wave_positive(y: int)
    requires
        57 <= y <= 179_999_943,
    ensures
        half_wave_raw(y) >= 1,
{
    let t = y * (180_000_000 - y);
    assert(t - 10259996751 == (y - 57) * (179_999_943 - y)) by (nonlinear_arith)
        requires
            t == y * (180_000_000 - y),
    ;
    assert((y - 57) * (179_999_943 - y) >= 0) by (nonlinear_arith)
        requires
            57 <= y <= 179_999_943,
    ;
    assert(t >= 10259996751);
    assert(t == 8_100_000_000_000_000 - (y - 90_000_000) * (y - 90_000_000)
        && (y - 90_000_000) * (y - 90_000_000) >= 0) by (nonlinear_arith)
        requires
            t == y * (180_000_000 - y),
    ;
    let num = 4 * t * 1_000_000;
    let den = 40_500_000_000_000_000 - t;
    assert(num == t * 4_000_000) by (nonlinear_arith)
        requires
            num == 4 * t * 1_000_000,
    ;
    assert(t * 4_000_000 >= 10259996751 * 4_000_000) by (nonlinear_arith)
        requires
            t >= 10259996751,
    ;
    assert(num >= den);
    assert(den > 0);
    vstd::arithmetic::div_mod::lemma_div_is_ordered(den, num, den);
    vstd::arithmetic::div_mod::lemma_div_by_self(den);
}

/// A half-wave value of zero only happens within a sliver of the ends of the
/// domain.
proof fn lemma_half_wave_zero_window(y: int)
    requires
        0 <= y <= DEG_HALF,
        half_wave_raw(y) == 0,
    ensures
        y <= 56 || y >= 179_999_944,
{
    if 57 <= y <= 179_999_943 {
        lemma_half_wave_positive(y);
    }
}

/// The sine and cosine of one angle are never both zero: their zero windows
/// sit a quarter turn apart.
pub proof fn lemma_sin_cos_not_both_zero(x: int)
    ensures
        !(sin_raw(x) == 0 && cos_raw(x) == 0),
{
    let d = DEG_FULL as int;
    vstd::arithmetic::div_mod::lemma_mod_division_less_than_divisor(x, d);
    let m = x % d;
    if sin_raw(x) == 0 && cos_raw(x) == 0 {
        // Where the sine vanishes.
        if m <= DEG_HALF {
            lemma_half_wave_zero_window(m);
        } else {
            lemma_half_wave_zero_window(m - DEG_HALF);
        }
        assert(m <= 56 || (179_999_944 <= m <= 180_000_056) || m >= 359_999_944);
        // The cosine argument, reduced.
        let shifted = m + DEG_QUARTER;
        vstd::arithmetic::div_mod::lemma_fundamental_div_mod(x, d);
        let m2 = shifted % d;
        vstd::arithmetic::div_mod::lemma_mod_division_less_than_divisor(shifted, d);
        if shifted < d {
            vstd::arithmetic::div_mod::lemma_fundamental_div_mod_converse_mod(
                shifted,
                d,
                0,
                shifted,
            );
            assert(m2 == shifted);
        } else {
            vstd::arithmetic::div_mod::lemma_fundamental_div_mod_converse_mod(
                shifted,
                d,
                1,
                shifted - d,
            );
            assert(m2 == shifted - d);
        }
        assert((89_999_944 <= m2 <= 90_000_056) || (269_999_944 <= m2 <= 270_000_056));
        assert(cos_raw(x) == sin_raw(shifted));
        if m2 <= DEG_HALF {
            assert(sin_raw(shifted) == half_wave_raw(m2));
            lemma_half_wave_positive(m2);
        } else {
            assert(sin_raw(shifted) == -half_wave_raw(m2 - DEG_HALF));
            lemma_half_wave_positive(m2 - DEG_HALF);
        }
    }
}

/// Half a turn negates the cosine, exactly.
pub proof fn lemma_cos_raw_antiperiod(a: int)
    ensures
        cos_raw(a + DEG_HALF) == -cos_raw(a),
{
    let d = DEG_FULL as int;
    let n = a % d;
    let n2 = (a + DEG_HALF) % d;
    vstd::arithmetic::div_mod::lemma_mod_division_less_than_divisor(a, d);
    vstd::arithmetic::div_mod::lemma_mod_division_less_than_divisor(a + DEG_HALF, d);
    vstd::arithmetic::div_mod::lemma_fundamental_div_mod(a, d);
    let q = a / d;
    if n < DEG_HALF {
        vstd::arithmetic::div_mod::lemma_fundamental_div_mod_converse_mod(
            a + DEG_HALF,
            d,
            q,
            n + DEG_HALF,
        );
        assert(n2 == n + DEG_HALF);
        lemma_sin_raw_antiperiod(n + DEG_QUARTER);
        assert(sin_raw(n2 + DEG_QUARTER) == -sin_raw(n + DEG_QUARTER));
    } else {
        assert(a + DEG_HALF == (q + 1) * d + (n - DEG_HALF)) by (nonlinear_arith)
            requires
                a == q * d + n,
                d == 360_000_000,
        ;
        vstd::arithmetic::div_mod::lemma_fundamental_div_mod_converse_mod(
            a + DEG_HALF,
            d,
            q + 1,
            n - DEG_HALF,
        );
        assert(n2 == n - DEG_HALF);
        lemma_sin_raw_antiperiod(n2 + DEG_QUARTER);
        assert(sin_raw(n + DEG_QUARTER) == -sin_raw(n2 + DEG_QUARTER));
    }
}

/// The half-wave approximation on `[0, 180]` raw degrees.
fn half_wave(x: i64) -> (r: i64)
    requires
        0 <= x <= DEG_HALF,
    ensures
        r as int == half_wave_raw(x as int),
        0 <= r <= 1_000_000,
{
    proof {
        lemma_half_wave_range(x as int);
    }
    let xi: u128 = x as u128;
    let rest: u128 = (DEG_HALF - x) as u128;
    proof {
        assert(xi * rest <= 8_100_000_000_000_000) by (nonlinear_arith)
            requires
                0 <= xi <= 180_000_000,
                0 <= rest <= 180_000_000,
                xi + rest == 180_000_000,
        ;
    }
    let t: u128 = xi * rest;
    let num: u128 = 4 * t * 1_000_000;
    let den: u128 = 40_500_000_000_000_000 - t;
    let q: u128 = num / den;
    proof {
        assert(num as int == 4 * (t as int) * 1_000_000);
        assert(q as int == half_wave_raw(x as int));
    }
    q as i64
}

/// Sine of an angle in fixed-point degrees.
pub fn sin_deg(a: Fx) -> (r: Fx)
    ensures
        r.raw as int == sin_raw(a.raw as int),
        -1_000_000 <= r.raw <= 1_000_000,
{
    proof {
        lemma_sin_raw_range(a.raw as int);
    }
    let n = norm360(a.raw);
    if n <= DEG_HALF {
        Fx { raw: half_wave(n) }
    } else {
        Fx { raw: -half_wave(n - DEG_HALF) }
    }
}

/// Cosine of an angle in fixed-point degrees.
pub fn cos_deg(a: Fx) -> (r: Fx)
    ensures
        r.raw as int == cos_raw(a.raw as int),
        -1_000_000 <= r.raw <= 1_000_000,
{
    proof {
        lemma_cos_raw_range(a.raw as int);
    }
    let n = norm360(a.raw);
    let shifted = n + DEG_QUARTER;
    let m = norm360(shifted);
    proof {
        let d = DEG_FULL as int;
        vstd::arithmetic::div_mod::lemma_mod_division_less_than_divisor(shifted as int, d);
        assert(sin_raw(shifted as int) == if (shifted as int) % d <= DEG_HALF {
            half_wave_raw((shifted as int) % d)
        } else {
            -half_wave_raw((shifted as int) % d - DEG_HALF)
        });
        assert(m as int == (shifted as int) % d);
    }
    if m <= DEG_HALF {
        Fx { raw: half_wave(m) }
    } else {
        Fx { raw: -half_wave(m - DEG_HALF) }
    }
}

} // verus!
