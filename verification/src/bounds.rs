//! Streaming path bounds.
//!
//! As path commands are recorded one at a time, a tracker maintains the
//! running minimum and maximum coordinate on each axis. Straight segments
//! contribute their endpoints; quadratic and cubic curves contribute the
//! curve points at the parameters where the derivative vanishes, found in
//! closed form, so the box is tight around the curve and not merely around
//! its control points; arcs contribute their endpoints and every cardinal
//! compass point the sweep covers.

use vstd::prelude::*;
use crate::fixed::{iabs, iclamp, imax, imin, sat64, sat_i128, tdiv, tdiv_i128, Fx};
use crate::geometry::{sqrt_floor, Point, Rectangle};
use crate::trig::{cos_raw, sin_raw, DEG_FULL, DEG_HALF, DEG_QUARTER};

verus! {

/// One whole unit of curve parameter, in raw counts.
pub const PARAM_ONE: i64 = 1_000_000;

/// Smallest x coordinate among a non-empty run of points.
pub open spec fn points_min_x(ps: Seq<Point>) -> int
    decreases ps.len(),
{
    if ps.len() <= 1 {
        ps[0].x.raw as int
    } else {
        imin(points_min_x(ps.drop_last()), ps.last().x.raw as int)
    }
}

/// Largest x coordinate among a non-empty run of points.
pub open spec fn points_max_x(ps: Seq<Point>) -> int
    decreases ps.len(),
{
    if ps.len() <= 1 {
        ps[0].x.raw as int
    } else {
        imax(points_max_x(ps.drop_last()), ps.last().x.raw as int)
    }
}

/// Smallest y coordinate among a non-empty run of points.
pub open spec fn points_min_y(ps: Seq<Point>) -> int
    decreases ps.len(),
{
    if ps.len() <= 1 {
        ps[0].y.raw as int
    } else {
        imin(points_min_y(ps.drop_last()), ps.last().y.raw as int)
    }
}

/// Largest y coordinate among a non-empty run of points.
pub open spec fn points_max_y(ps: Seq<Point>) -> int
    decreases ps.len(),
{
    if ps.len() <= 1 {
        ps[0].y.raw as int
    } else {
        imax(points_max_y(ps.drop_last()), ps.last().y.raw as int)
    }
}

/// The folded point bounds are exact: every point lies within them, and each
/// of the four edges is attained by some point of the run.
pub proof fn lemma_point_bounds_exact(ps: Seq<Point>)
    requires
        ps.len() > 0,
    ensures
        forall|i: int|
            0 <= i < ps.len() ==> points_min_x(ps) <= #[trigger] ps[i].x.raw <= points_max_x(ps),
        forall|i: int|
            0 <= i < ps.len() ==> points_min_y(ps) <= #[trigger] ps[i].y.raw <= points_max_y(ps),
        exists|i: int| 0 <= i < ps.len() && #[trigger] ps[i].x.raw == points_min_x(ps),
        exists|i: int| 0 <= i < ps.len() && #[trigger] ps[i].x.raw == points_max_x(ps),
        exists|i: int| 0 <= i < ps.len() && #[trigger] ps[i].y.raw == points_min_y(ps),
        exists|i: int| 0 <= i < ps.len() && #[trigger] ps[i].y.raw == points_max_y(ps),
    decreases ps.len(),
{
    if ps.len() > 1 {
        lemma_point_bounds_exact(ps.drop_last());
        assert forall|i: int|
            0 <= i < ps.len() implies points_min_x(ps) <= #[trigger] ps[i].x.raw <= points_max_x(
            ps,
        ) by {
            if i < ps.len() - 1 {
                assert(ps.drop_last()[i] == ps[i]);
            }
        }
        assert forall|i: int|
            0 <= i < ps.len() implies points_min_y(ps) <= #[trigger] ps[i].y.raw <= points_max_y(
            ps,
        ) by {
            if i < ps.len() - 1 {
                assert(ps.drop_last()[i] == ps[i]);
            }
        }
        assert(exists|i: int| 0 <= i < ps.len() && #[trigger] ps[i].x.raw == points_min_x(ps)) by {
            if points_min_x(ps) == ps.last().x.raw {
                assert(ps[ps.len() - 1].x.raw == points_min_x(ps));
            } else {
                let j = choose|j: int|
                    0 <= j < ps.len() - 1 && #[trigger] ps.drop_last()[j].x.raw == points_min_x(
                        ps.drop_last(),
                    );
                assert(ps[j].x.raw == points_min_x(ps));
            }
        }
        assert(exists|i: int| 0 <= i < ps.len() && #[trigger] ps[i].x.raw == points_max_x(ps)) by {
            if points_max_x(ps) == ps.last().x.raw {
                assert(ps[ps.len() - 1].x.raw == points_max_x(ps));
            } else {
                let j = choose|j: int|
                    0 <= j < ps.len() - 1 && #[trigger] ps.drop_last()[j].x.raw == points_max_x(
                        ps.drop_last(),
                    );
                assert(ps[j].x.raw == points_max_x(ps));
            }
        }
        assert(exists|i: int| 0 <= i < ps.len() && #[trigger] ps[i].y.raw == points_min_y(ps)) by {
            if points_min_y(ps) == ps.last().y.raw {
                assert(ps[ps.len() - 1].y.raw == points_min_y(ps));
            } else {
                let j = choose|j: int|
                    0 <= j < ps.len() - 1 && #[trigger] ps.drop_last()[j].y.raw == points_min_y(
                        ps.drop_last(),
                    );
                assert(ps[j].y.raw == points_min_y(ps));
            }
        }
        assert(exists|i: int| 0 <= i < ps.len() && #[trigger] ps[i].y.raw == points_max_y(ps)) by {
            if points_max_y(ps) == ps.last().y.raw {
                assert(ps[ps.len() - 1].y.raw == points_max_y(ps));
            } else {
                let j = choose|j: int|
                    0 <= j < ps.len() - 1 && #[trigger] ps.drop_last()[j].y.raw == points_max_y(
                        ps.drop_last(),
                    );
                assert(ps[j].y.raw == points_max_y(ps));
            }
        }
    } else {
        assert(ps[0].x.raw == points_min_x(ps));
        assert(ps[0].y.raw == points_min_y(ps));
    }
}

/// Value of a quadratic curve axis at parameter `t` (raw fraction of one):
/// the Bernstein form `s²·p0 + 2st·p1 + t²·p2` with `s = 1 - t`, evaluated
/// exactly and truncated once.
pub open spec fn quad_eval_raw(p0: int, p1: int, p2: int, t: int) -> int {
    let s = (PARAM_ONE as int) - t;
    tdiv(s * s * p0 + 2 * s * t * p1 + t * t * p2, 1_000_000_000_000)
}

/// Lower and upper bound of one axis of a quadratic curve. When the control
/// point lies between the endpoints the endpoints bound the curve; otherwise
/// the curve point at the parameter where the derivative vanishes,
/// `t = (p0 - p1) / (p0 - 2 p1 + p2)`, is folded in as well.
pub open spec fn quad_axis_raw(p0: int, p1: int, p2: int) -> (int, int) {
    let mi = imin(p0, p2);
    let ma = imax(p0, p2);
    if p1 < mi || p1 > ma {
        let denom = p0 - 2 * p1 + p2;
        let t = iclamp(tdiv((p0 - p1) * (PARAM_ONE as int), denom), 0, PARAM_ONE as int);
        let q = quad_eval_raw(p0, p1, p2, t);
        (imin(mi, q), imax(ma, q))
    } else {
        (mi, ma)
    }
}

/// Value of a cubic curve axis at parameter `t` (raw fraction of one): the
/// Bernstein form `s³·p0 + 3s²t·p1 + 3st²·p2 + t³·p3` with `s = 1 - t`,
/// evaluated exactly and truncated once.
pub open spec fn cubic_eval_raw(p0: int, p1: int, p2: int, p3: int, t: int) -> int {
    let s = (PARAM_ONE as int) - t;
    tdiv(
        s * s * s * p0 + 3 * s * s * t * p1 + 3 * s * t * t * p2 + t * t * t * p3,
        1_000_000_000_000_000_000,
    )
}

/// Lower and upper bound of one axis of a cubic curve: the endpoints,
/// extended by the curve points at the clamped roots of the derivative.
/// With `c = p1 - p0`, `b = p0 - 2 p1 + p2` and `a = -p0 + 3 p1 - 3 p2 + p3`
/// the derivative is proportional to `c + 2 b t + a t²`; a degenerate
/// leading coefficient leaves a single root `-c / (2 b)`, otherwise the two
/// roots `(-b ∓ √(b² - a c)) / a` exist where the discriminant is positive.
pub open spec fn cubic_axis_raw(p0: int, p1: int, p2: int, p3: int) -> (int, int) {
    let mi = imin(p0, p3);
    let ma = imax(p0, p3);
    let c = sat64(p1 - p0);
    let b = sat64(p0 - 2 * p1 + p2);
    let a = sat64(-p0 + 3 * p1 - 3 * p2 + p3);
    if a == 0 {
        if b == 0 {
            (mi, ma)
        } else {
            let t = iclamp(tdiv(-c * (PARAM_ONE as int), 2 * b), 0, PARAM_ONE as int);
            let q = cubic_eval_raw(p0, p1, p2, p3, t);
            (imin(mi, q), imax(ma, q))
        }
    } else {
        let h = b * b - a * c;
        if h > 0 {
            let g = sqrt_floor(h);
            let t1 = iclamp(tdiv((-b - g) * (PARAM_ONE as int), a), 0, PARAM_ONE as int);
            let t2 = iclamp(tdiv((-b + g) * (PARAM_ONE as int), a), 0, PARAM_ONE as int);
            let q1 = cubic_eval_raw(p0, p1, p2, p3, t1);
            let q2 = cubic_eval_raw(p0, p1, p2, p3, t2);
            (imin(mi, imin(q1, q2)), imax(ma, imax(q1, q2)))
        } else {
            (mi, ma)
        }
    }
}

/// Evaluates one axis of a quadratic curve at a clamped parameter.
fn quad_eval(p0: i64, p1: i64, p2: i64, t: i64) -> (q: i64)
    requires
        0 <= t <= PARAM_ONE,
    ensures
        q as int == quad_eval_raw(p0 as int, p1 as int, p2 as int, t as int),
{
    let s: i128 = (PARAM_ONE - t) as i128;
    let ti: i128 = t as i128;
    proof {
        let u0 = (s as int) * (s as int);
        let u1 = (s as int) * (ti as int);
        let u2 = (ti as int) * (ti as int);
        assert(0 <= u0 && 0 <= u1 && 0 <= u2) by (nonlinear_arith)
            requires
                0 <= s,
                0 <= ti,
                u0 == (s as int) * (s as int),
                u1 == (s as int) * (ti as int),
                u2 == (ti as int) * (ti as int),
        ;
        assert(u0 + 2 * u1 + u2 == 1_000_000_000_000) by (nonlinear_arith)
            requires
                s + ti == 1_000_000,
                u0 == (s as int) * (s as int),
                u1 == (s as int) * (ti as int),
                u2 == (ti as int) * (ti as int),
        ;
        assert(u0 * (-9223372036854775808) <= u0 * (p0 as int) <= u0 * 9223372036854775807
            && u1 * (-9223372036854775808) <= u1 * (p1 as int) <= u1 * 9223372036854775807
            && u2 * (-9223372036854775808) <= u2 * (p2 as int) <= u2 * 9223372036854775807)
            by (nonlinear_arith)
            requires
                0 <= u0,
                0 <= u1,
                0 <= u2,
                -9223372036854775808 <= p0 <= 9223372036854775807,
                -9223372036854775808 <= p1 <= 9223372036854775807,
                -9223372036854775808 <= p2 <= 9223372036854775807,
        ;
        assert(u0 * 9223372036854775807 + 2 * (u1 * 9223372036854775807) + u2
            * 9223372036854775807 == (u0 + 2 * u1 + u2) * 9223372036854775807
            && u0 * (-9223372036854775808) + 2 * (u1 * (-9223372036854775808)) + u2 * (
        -9223372036854775808) == (u0 + 2 * u1 + u2) * (-9223372036854775808)) by (nonlinear_arith);
        assert(u0 <= 1_000_000_000_000 && u1 <= 1_000_000_000_000 && u2 <= 1_000_000_000_000)
            by (nonlinear_arith)
            requires
                0 <= s <= 1_000_000,
                0 <= ti <= 1_000_000,
                u0 == (s as int) * (s as int),
                u1 == (s as int) * (ti as int),
                u2 == (ti as int) * (ti as int),
        ;
    }
    let ss: i128 = s * s;
    let st: i128 = s * ti;
    let tt: i128 = ti * ti;
    let term0: i128 = ss * p0 as i128;
    let term1: i128 = 2 * (st * p1 as i128);
    let term2: i128 = tt * p2 as i128;
    let sum: i128 = term0 + term1 + term2;
    proof {
        assert(sum as int == (s as int) * (s as int) * (p0 as int) + 2 * (s as int) * (ti as int)
            * (p1 as int) + (ti as int) * (ti as int) * (p2 as int)) by (nonlinear_arith)
            requires
                ss as int == (s as int) * (s as int),
                st as int == (s as int) * (ti as int),
                tt as int == (ti as int) * (ti as int),
                sum as int == ss as int * (p0 as int) + 2 * (st as int * (p1 as int)) + tt as int
                    * (p2 as int),
        ;
    }
    let q = tdiv_i128(sum, 1_000_000_000_000);
    proof {
        vstd::arithmetic::div_mod::lemma_multiply_divide_le(
            iabs(sum as int),
            1_000_000_000_000,
            9223372036854775808,
        );
        if sum >= 0 {
            vstd::arithmetic::div_mod::lemma_multiply_divide_le(
                sum as int,
                1_000_000_000_000,
                9223372036854775807,
            );
        }
    }
    q as i64
}

/// Evaluates one axis of a cubic curve at a clamped parameter.
fn cubic_eval(p0: i64, p1: i64, p2: i64, p3: i64, t: i64) -> (q: i64)
    requires
        0 <= t <= PARAM_ONE,
    ensures
        q as int == cubic_eval_raw(p0 as int, p1 as int, p2 as int, p3 as int, t as int),
{
    let s: i128 = (PARAM_ONE - t) as i128;
    let ti: i128 = t as i128;
    proof {
        let u0 = (s as int) * (s as int) * (s as int);
        let u1 = (s as int) * (s as int) * (ti as int);
        let u2 = (s as int) * (ti as int) * (ti as int);
        let u3 = (ti as int) * (ti as int) * (ti as int);
        assert(0 <= u0 && 0 <= u1 && 0 <= u2 && 0 <= u3) by (nonlinear_arith)
            requires
                0 <= s,
                0 <= ti,
                u0 == (s as int) * (s as int) * (s as int),
                u1 == (s as int) * (s as int) * (ti as int),
                u2 == (s as int) * (ti as int) * (ti as int),
                u3 == (ti as int) * (ti as int) * (ti as int),
        ;
        assert(u0 + 3 * u1 + 3 * u2 + u3 == 1_000_000_000_000_000_000) by (nonlinear_arith)
            requires
                s + ti == 1_000_000,
                u0 == (s as int) * (s as int) * (s as int),
                u1 == (s as int) * (s as int) * (ti as int),
                u2 == (s as int) * (ti as int) * (ti as int),
                u3 == (ti as int) * (ti as int) * (ti as int),
        ;
        assert(u0 * (-9223372036854775808) <= u0 * (p0 as int) <= u0 * 9223372036854775807
            && u1 * (-9223372036854775808) <= u1 * (p1 as int) <= u1 * 9223372036854775807
            && u2 * (-9223372036854775808) <= u2 * (p2 as int) <= u2 * 9223372036854775807
            && u3 * (-9223372036854775808) <= u3 * (p3 as int) <= u3 * 9223372036854775807)
            by (nonlinear_arith)
            requires
                0 <= u0,
                0 <= u1,
                0 <= u2,
                0 <= u3,
                -9223372036854775808 <= p0 <= 9223372036854775807,
                -9223372036854775808 <= p1 <= 9223372036854775807,
                -9223372036854775808 <= p2 <= 9223372036854775807,
                -9223372036854775808 <= p3 <= 9223372036854775807,
        ;
        assert(u0 * 9223372036854775807 + 3 * (u1 * 9223372036854775807) + 3 * (u2
            * 9223372036854775807) + u3 * 9223372036854775807 == (u0 + 3 * u1 + 3 * u2 + u3)
            * 9223372036854775807 && u0 * (-9223372036854775808) + 3 * (u1 * (
        -9223372036854775808)) + 3 * (u2 * (-9223372036854775808)) + u3 * (-9223372036854775808)
            == (u0 + 3 * u1 + 3 * u2 + u3) * (-9223372036854775808)) by (nonlinear_arith);
        assert(u0 <= 1_000_000_000_000_000_000 && u1 <= 1_000_000_000_000_000_000 && u2
            <= 1_000_000_000_000_000_000 && u3 <= 1_000_000_000_000_000_000) by (nonlinear_arith)
            requires
                0 <= s <= 1_000_000,
                0 <= ti <= 1_000_000,
                u0 == (s as int) * (s as int) * (s as int),
                u1 == (s as int) * (s as int) * (ti as int),
                u2 == (s as int) * (ti as int) * (ti as int),
                u3 == (ti as int) * (ti as int) * (ti as int),
        ;
        assert((s as int) * (s as int) <= 1_000_000_000_000 && (s as int) * (ti as int)
            <= 1_000_000_000_000 && (ti as int) * (ti as int) <= 1_000_000_000_000 && 0 <= (
        s as int) * (s as int) && 0 <= (s as int) * (ti as int) && 0 <= (ti as int) * (ti as int))
            by (nonlinear_arith)
            requires
                0 <= s <= 1_000_000,
                0 <= ti <= 1_000_000,
        ;
    }
    let ss: i128 = s * s;
    let st: i128 = s * ti;
    let tt: i128 = ti * ti;
    let sss: i128 = ss * s;
    let sst: i128 = ss * ti;
    let stt: i128 = st * ti;
    let ttt: i128 = tt * ti;
    proof {
        assert(sss == (s as int) * (s as int) * (s as int) && sst == (s as int) * (s as int) * (
        ti as int) && stt == (s as int) * (ti as int) * (ti as int) && ttt == (ti as int) * (
        ti as int) * (ti as int)) by (nonlinear_arith)
            requires
                ss == (s as int) * (s as int),
                st == (s as int) * (ti as int),
                tt == (ti as int) * (ti as int),
                sss == ss as int * s as int,
                sst == ss as int * ti as int,
                stt == st as int * ti as int,
                ttt == tt as int * ti as int,
        ;
    }
    let term0: i128 = sss * p0 as i128;
    let term1: i128 = 3 * (sst * p1 as i128);
    let term2: i128 = 3 * (stt * p2 as i128);
    let term3: i128 = ttt * p3 as i128;
    let sum: i128 = term0 + term1 + term2 + term3;
    proof {
        assert(sum as int == (s as int) * (s as int) * (s as int) * (p0 as int) + 3 * (s as int)
            * (s as int) * (ti as int) * (p1 as int) + 3 * (s as int) * (ti as int) * (ti as int)
            * (p2 as int) + (ti as int) * (ti as int) * (ti as int) * (p3 as int))
            by (nonlinear_arith)
            requires
                sss as int == (s as int) * (s as int) * (s as int),
                sst as int == (s as int) * (s as int) * (ti as int),
                stt as int == (s as int) * (ti as int) * (ti as int),
                ttt as int == (ti as int) * (ti as int) * (ti as int),
                sum as int == sss as int * (p0 as int) + 3 * (sst as int * (p1 as int)) + 3 * (
                stt as int * (p2 as int)) + ttt as int * (p3 as int),
        ;
    }
    let q = tdiv_i128(sum, 1_000_000_000_000_000_000);
    proof {
        vstd::arithmetic::div_mod::lemma_multiply_divide_le(
            iabs(sum as int),
            1_000_000_000_000_000_000,
            9223372036854775808,
        );
        if sum >= 0 {
            vstd::arithmetic::div_mod::lemma_multiply_divide_le(
                sum as int,
                1_000_000_000_000_000_000,
                9223372036854775807,
            );
        }
    }
    q as i64
}

/// Lower and upper bound of one axis of a quadratic curve.
fn quad_axis(p0: i64, p1: i64, p2: i64) -> (r: (i64, i64))
    ensures
        r.0 as int == quad_axis_raw(p0 as int, p1 as int, p2 as int).0,
        r.1 as int == quad_axis_raw(p0 as int, p1 as int, p2 as int).1,
        r.0 <= r.1,
{
    let mi = if p0 <= p2 {
        p0
    } else {
        p2
    };
    let ma = if p0 >= p2 {
        p0
    } else {
        p2
    };
    if p1 < mi || p1 > ma {
        let denom: i128 = p0 as i128 - 2 * p1 as i128 + p2 as i128;
        assert(denom != 0);
        let num: i128 = (p0 as i128 - p1 as i128) * 1_000_000i128;
        let traw = tdiv_i128(num, denom);
        let t: i64 = if traw < 0 {
            0
        } else if traw > PARAM_ONE as i128 {
            PARAM_ONE
        } else {
            traw as i64
        };
        let q = quad_eval(p0, p1, p2, t);
        let lo = if mi <= q {
            mi
        } else {
            q
        };
        let hi = if ma >= q {
            ma
        } else {
            q
        };
        (lo, hi)
    } else {
        (mi, ma)
    }
}

/// Lower and upper bound of one axis of a cubic curve.
#[verifier::rlimit(100)]
fn cubic_axis(p0: i64, p1: i64, p2: i64, p3: i64) -> (r: (i64, i64))
    ensures
        r.0 as int == cubic_axis_raw(p0 as int, p1 as int, p2 as int, p3 as int).0,
        r.1 as int == cubic_axis_raw(p0 as int, p1 as int, p2 as int, p3 as int).1,
        r.0 <= r.1,
{
    let mi = if p0 <= p3 {
        p0
    } else {
        p3
    };
    let ma = if p0 >= p3 {
        p0
    } else {
        p3
    };
    let c: i64 = sat_i128(p1 as i128 - p0 as i128);
    let b: i64 = sat_i128(p0 as i128 - 2 * p1 as i128 + p2 as i128);
    let a: i64 = sat_i128(-(p0 as i128) + 3 * p1 as i128 - 3 * p2 as i128 + p3 as i128);
    if a == 0 {
        if b == 0 {
            (mi, ma)
        } else {
            let num: i128 = -(c as i128) * 1_000_000i128;
            let traw = tdiv_i128(num, 2 * b as i128);
            let t: i64 = if traw < 0 {
                0
            } else if traw > PARAM_ONE as i128 {
                PARAM_ONE
            } else {
                traw as i64
            };
            let q = cubic_eval(p0, p1, p2, p3, t);
            let lo = if mi <= q {
                mi
            } else {
                q
            };
            let hi = if ma >= q {
                ma
            } else {
                q
            };
            (lo, hi)
        }
    } else {
        proof {
            assert(0 <= b as int * b as int <= 85070591730234615865843651857942052864)
                by (nonlinear_arith)
                requires
                    -9223372036854775808 <= b <= 9223372036854775808,
            ;
            assert(-85070591730234615856620279821087277056 <= a as int * c as int
                <= 85070591730234615865843651857942052864) by (nonlinear_arith)
                requires
                    -9223372036854775808 <= a <= 9223372036854775807,
                    -9223372036854775808 <= c <= 9223372036854775807,
            ;
        }
        let h: i128 = b as i128 * b as i128 - a as i128 * c as i128;
        if h > 0 {
            let g: i128 = isqrt_i128(h);
            let num1: i128 = (-(b as i128) - g) * 1_000_000i128;
            let num2: i128 = (-(b as i128) + g) * 1_000_000i128;
            let traw1 = tdiv_i128(num1, a as i128);
            let traw2 = tdiv_i128(num2, a as i128);
            let t1: i64 = if traw1 < 0 {
                0
            } else if traw1 > PARAM_ONE as i128 {
                PARAM_ONE
            } else {
                traw1 as i64
            };
            let t2: i64 = if traw2 < 0 {
                0
            } else if traw2 > PARAM_ONE as i128 {
                PARAM_ONE
            } else {
                traw2 as i64
            };
            let q1 = cubic_eval(p0, p1, p2, p3, t1);
            let q2 = cubic_eval(p0, p1, p2, p3, t2);
            let qlo = if q1 <= q2 {
                q1
            } else {
                q2
            };
            let qhi = if q1 >= q2 {
                q1
            } else {
                q2
            };
            let lo = if mi <= qlo {
                mi
            } else {
                qlo
            };
            let hi = if ma >= qhi {
                ma
            } else {
                qhi
            };
            (lo, hi)
        } else {
            (mi, ma)
        }
    }
}

/// Floor square root of a positive `i128`, pinned to `sqrt_floor`.
fn isqrt_i128(n: i128) -> (g: i128)
    requires
        n > 0,
    ensures
        g as int == sqrt_floor(n as int),
        0 <= g <= 0xffffffffffffffff,
        g * g <= n,
{
    let r = crate::geometry::isqrt_u128(n as u128);
    proof {
        crate::geometry::lemma_sqrt_floor_unique(n as int, r as int);
    }
    r as i128
}

/// The tight bounding rectangle of a quadratic curve, as one value.
pub open spec fn quad_rect_spec(p0: Point, p1: Point, p2: Point) -> Rectangle {
    let rx = quad_axis_raw(p0.x.raw as int, p1.x.raw as int, p2.x.raw as int);
    let ry = quad_axis_raw(p0.y.raw as int, p1.y.raw as int, p2.y.raw as int);
    Rectangle {
        x: Fx { raw: rx.0 as i64 },
        y: Fx { raw: ry.0 as i64 },
        width: Fx { raw: sat64(rx.1 - rx.0) as i64 },
        height: Fx { raw: sat64(ry.1 - ry.0) as i64 },
    }
}

/// The tight bounding rectangle of a cubic curve, as one value.
pub open spec fn cubic_rect_spec(p0: Point, p1: Point, p2: Point, p3: Point) -> Rectangle {
    let rx = cubic_axis_raw(p0.x.raw as int, p1.x.raw as int, p2.x.raw as int, p3.x.raw as int);
    let ry = cubic_axis_raw(p0.y.raw as int, p1.y.raw as int, p2.y.raw as int, p3.y.raw as int);
    Rectangle {
        x: Fx { raw: rx.0 as i64 },
        y: Fx { raw: ry.0 as i64 },
        width: Fx { raw: sat64(rx.1 - rx.0) as i64 },
        height: Fx { raw: sat64(ry.1 - ry.0) as i64 },
    }
}

/// Tight bounding rectangle of a quadratic curve from `p0` to `p2` with
/// control point `p1`, axis by axis.
pub fn quad_rect(p0: Point, p1: Point, p2: Point) -> (r: Rectangle)
    ensures
        r == quad_rect_spec(p0, p1, p2),
        r.x.raw as int == quad_axis_raw(p0.x.raw as int, p1.x.raw as int, p2.x.raw as int).0,
        r.y.raw as int == quad_axis_raw(p0.y.raw as int, p1.y.raw as int, p2.y.raw as int).0,
        r.width.raw as int == sat64(
            quad_axis_raw(p0.x.raw as int, p1.x.raw as int, p2.x.raw as int).1 - quad_axis_raw(
                p0.x.raw as int,
                p1.x.raw as int,
                p2.x.raw as int,
            ).0,
        ),
        r.height.raw as int == sat64(
            quad_axis_raw(p0.y.raw as int, p1.y.raw as int, p2.y.raw as int).1 - quad_axis_raw(
                p0.y.raw as int,
                p1.y.raw as int,
                p2.y.raw as int,
            ).0,
        ),
        r.wf(),
{
    let (lox, hix) = quad_axis(p0.x.raw, p1.x.raw, p2.x.raw);
    let (loy, hiy) = quad_axis(p0.y.raw, p1.y.raw, p2.y.raw);
    Rectangle {
        x: Fx { raw: lox },
        y: Fx { raw: loy },
        width: Fx { raw: sat_i128(hix as i128 - lox as i128) },
        height: Fx { raw: sat_i128(hiy as i128 - loy as i128) },
    }
}

/// Tight bounding rectangle of a cubic curve from `p0` to `p3` with control
/// points `p1` and `p2`, axis by axis.
pub fn cubic_rect(p0: Point, p1: Point, p2: Point, p3: Point) -> (r: Rectangle)
    ensures
        r == cubic_rect_spec(p0, p1, p2, p3),
        r.x.raw as int == cubic_axis_raw(
            p0.x.raw as int,
            p1.x.raw as int,
            p2.x.raw as int,
            p3.x.raw as int,
        ).0,
        r.y.raw as int == cubic_axis_raw(
            p0.y.raw as int,
            p1.y.raw as int,
            p2.y.raw as int,
            p3.y.raw as int,
        ).0,
        r.width.raw as int == sat64(
            cubic_axis_raw(p0.x.raw as int, p1.x.raw as int, p2.x.raw as int, p3.x.raw as int).1
                - cubic_axis_raw(
                p0.x.raw as int,
                p1.x.raw as int,
                p2.x.raw as int,
                p3.x.raw as int,
            ).0,
        ),
        r.height.raw as int == sat64(
            cubic_axis_raw(p0.y.raw as int, p1.y.raw as int, p2.y.raw as int, p3.y.raw as int).1
                - cubic_axis_raw(
                p0.y.raw as int,
                p1.y.raw as int,
                p2.y.raw as int,
                p3.y.raw as int,
            ).0,
        ),
        r.wf(),
{
    let (lox, hix) = cubic_axis(p0.x.raw, p1.x.raw, p2.x.raw, p3.x.raw);
    let (loy, hiy) = cubic_axis(p0.y.raw, p1.y.raw, p2.y.raw, p3.y.raw);
    Rectangle {
        x: Fx { raw: lox },
        y: Fx { raw: loy },
        width: Fx { raw: sat_i128(hix as i128 - lox as i128) },
        height: Fx { raw: sat_i128(hiy as i128 - loy as i128) },
    }
}

/// Unit x of the arc sweep's lower bound, folded with every cardinal point
/// the sweep `[lo, hi]` (both normalized into one turn) covers. The four
/// cardinal compass points are tested in the fixed order 0, 90, 180 and 270
/// degrees.
pub open spec fn arc_unit_min_x(lo: int, hi: int, us: int, ue: int) -> int {
    let m0 = imin(us, ue);
    let m1 = if lo <= 0 <= hi { imin(m0, 1_000_000) } else { m0 };
    let m2 = if lo <= DEG_QUARTER <= hi { imin(m1, 0) } else { m1 };
    let m3 = if lo <= DEG_HALF <= hi { imin(m2, -1_000_000) } else { m2 };
    if lo <= DEG_HALF + DEG_QUARTER <= hi { imin(m3, 0) } else { m3 }
}

/// Unit maximum on the x axis; see `arc_unit_min_x`.
pub open spec fn arc_unit_max_x(lo: int, hi: int, us: int, ue: int) -> int {
    let m0 = imax(us, ue);
    let m1 = if lo <= 0 <= hi { imax(m0, 1_000_000) } else { m0 };
    let m2 = if lo <= DEG_QUARTER <= hi { imax(m1, 0) } else { m1 };
    let m3 = if lo <= DEG_HALF <= hi { imax(m2, -1_000_000) } else { m2 };
    if lo <= DEG_HALF + DEG_QUARTER <= hi { imax(m3, 0) } else { m3 }
}

/// Unit minimum on the y axis; see `arc_unit_min_x`.
pub open spec fn arc_unit_min_y(lo: int, hi: int, us: int, ue: int) -> int {
    let m0 = imin(us, ue);
    let m1 = if lo <= 0 <= hi { imin(m0, 0) } else { m0 };
    let m2 = if lo <= DEG_QUARTER <= hi { imin(m1, 1_000_000) } else { m1 };
    let m3 = if lo <= DEG_HALF <= hi { imin(m2, 0) } else { m2 };
    if lo <= DEG_HALF + DEG_QUARTER <= hi { imin(m3, -1_000_000) } else { m3 }
}

/// Unit maximum on the y axis; see `arc_unit_min_x`.
pub open spec fn arc_unit_max_y(lo: int, hi: int, us: int, ue: int) -> int {
    let m0 = imax(us, ue);
    let m1 = if lo <= 0 <= hi { imax(m0, 0) } else { m0 };
    let m2 = if lo <= DEG_QUARTER <= hi { imax(m1, 1_000_000) } else { m1 };
    let m3 = if lo <= DEG_HALF <= hi { imax(m2, 0) } else { m2 };
    if lo <= DEG_HALF + DEG_QUARTER <= hi { imax(m3, -1_000_000) } else { m3 }
}

/// A device coordinate of the arc box: the center plus a unit extreme scaled
/// by the radius, saturated once.
pub open spec fn arc_coord_raw(center: int, unit: int, radius: int) -> int {
    sat64(center + tdiv(unit * radius, 1_000_000))
}

/// Normalized sweep bounds of an arc: both angles reduced into one turn,
/// then ordered.
pub open spec fn arc_lo_raw(start: int, end: int) -> int {
    imin(start % (DEG_FULL as int), end % (DEG_FULL as int))
}

/// See `arc_lo_raw`.
pub open spec fn arc_hi_raw(start: int, end: int) -> int {
    imax(start % (DEG_FULL as int), end % (DEG_FULL as int))
}

/// Folds the endpoint units on the x axis with the covered cardinals.
fn arc_unit_bounds_x(lo: i64, hi: i64, us: i64, ue: i64) -> (r: (i64, i64))
    requires
        -1_000_000 <= us <= 1_000_000,
        -1_000_000 <= ue <= 1_000_000,
    ensures
        r.0 as int == arc_unit_min_x(lo as int, hi as int, us as int, ue as int),
        r.1 as int == arc_unit_max_x(lo as int, hi as int, us as int, ue as int),
        -1_000_000 <= r.0 <= 1_000_000,
        -1_000_000 <= r.1 <= 1_000_000,
{
    let mut mn: i64 = if us <= ue {
        us
    } else {
        ue
    };
    let mut mx: i64 = if us >= ue {
        us
    } else {
        ue
    };
    if lo <= 0 && 0 <= hi {
        if mn > 1_000_000 {
            mn = 1_000_000;
        }
        if mx < 1_000_000 {
            mx = 1_000_000;
        }
    }
    if lo <= DEG_QUARTER && DEG_QUARTER <= hi {
        if mn > 0 {
            mn = 0;
        }
        if mx < 0 {
            mx = 0;
        }
    }
    if lo <= DEG_HALF && DEG_HALF <= hi {
        if mn > -1_000_000 {
            mn = -1_000_000;
        }
        if mx < -1_000_000 {
            mx = -1_000_000;
        }
    }
    if lo <= DEG_HALF + DEG_QUARTER && DEG_HALF + DEG_QUARTER <= hi {
        if mn > 0 {
            mn = 0;
        }
        if mx < 0 {
            mx = 0;
        }
    }
    (mn, mx)
}

/// Folds the endpoint units on the y axis with the covered cardinals.
fn arc_unit_bounds_y(lo: i64, hi: i64, us: i64, ue: i64) -> (r: (i64, i64))
    requires
        -1_000_000 <= us <= 1_000_000,
        -1_000_000 <= ue <= 1_000_000,
    ensures
        r.0 as int == arc_unit_min_y(lo as int, hi as int, us as int, ue as int),
        r.1 as int == arc_unit_max_y(lo as int, hi as int, us as int, ue as int),
        -1_000_000 <= r.0 <= 1_000_000,
        -1_000_000 <= r.1 <= 1_000_000,
{
    let mut mn: i64 = if us <= ue {
        us
    } else {
        ue
    };
    let mut mx: i64 = if us >= ue {
        us
    } else {
        ue
    };
    if lo <= 0 && 0 <= hi {
        if mn > 0 {
            mn = 0;
        }
        if mx < 0 {
            mx = 0;
        }
    }
    if lo <= DEG_QUARTER && DEG_QUARTER <= hi {
        if mn > 1_000_000 {
            mn = 1_000_000;
        }
        if mx < 1_000_000 {
            mx = 1_000_000;
        }
    }
    if lo <= DEG_HALF && DEG_HALF <= hi {
        if mn > 0 {
            mn = 0;
        }
        if mx < 0 {
            mx = 0;
        }
    }
    if lo <= DEG_HALF + DEG_QUARTER && DEG_HALF + DEG_QUARTER <= hi {
        if mn > -1_000_000 {
            mn = -1_000_000;
        }
        if mx < -1_000_000 {
            mx = -1_000_000;
        }
    }
    (mn, mx)
}

/// Scales a unit coordinate by the radius and offsets it from the center.
fn arc_coord(center: Fx, unit: i64, radius: Fx) -> (r: i64)
    requires
        -1_000_000 <= unit <= 1_000_000,
    ensures
        r as int == arc_coord_raw(center.raw as int, unit as int, radius.raw as int),
{
    proof {
        assert(-9223372036854775808000000 <= unit as int * radius.raw as int
            <= 9223372036854775808000000) by (nonlinear_arith)
            requires
                -1_000_000 <= unit <= 1_000_000,
                -9223372036854775808 <= radius.raw <= 9223372036854775807,
        ;
    }
    let scaled: i128 = tdiv_i128(unit as i128 * radius.raw as i128, 1_000_000);
    sat_i128(center.raw as i128 + scaled)
}

/// The bounding rectangle of a circular arc, as one value.
pub open spec fn arc_rect_spec(x: Fx, y: Fx, radius: Fx, start_deg: Fx, end_deg: Fx) -> Rectangle {
    let lo = arc_lo_raw(start_deg.raw as int, end_deg.raw as int);
    let hi = arc_hi_raw(start_deg.raw as int, end_deg.raw as int);
    let us_x = cos_raw(start_deg.raw as int);
    let ue_x = cos_raw(end_deg.raw as int);
    let us_y = sin_raw(start_deg.raw as int);
    let ue_y = sin_raw(end_deg.raw as int);
    let x0 = arc_coord_raw(x.raw as int, arc_unit_min_x(lo, hi, us_x, ue_x), radius.raw as int);
    let x1 = arc_coord_raw(x.raw as int, arc_unit_max_x(lo, hi, us_x, ue_x), radius.raw as int);
    let y0 = arc_coord_raw(y.raw as int, arc_unit_min_y(lo, hi, us_y, ue_y), radius.raw as int);
    let y1 = arc_coord_raw(y.raw as int, arc_unit_max_y(lo, hi, us_y, ue_y), radius.raw as int);
    Rectangle {
        x: Fx { raw: x0 as i64 },
        y: Fx { raw: y0 as i64 },
        width: Fx { raw: imax(0, sat64(x1 - x0)) as i64 },
        height: Fx { raw: imax(0, sat64(y1 - y0)) as i64 },
    }
}

/// The point where an arc's sweep ends, on the circle.
pub open spec fn arc_end_point(x: Fx, y: Fx, radius: Fx, end_deg: Fx) -> Point {
    Point {
        x: Fx { raw: arc_coord_raw(x.raw as int, cos_raw(end_deg.raw as int), radius.raw as int) as i64 },
        y: Fx { raw: arc_coord_raw(y.raw as int, sin_raw(end_deg.raw as int), radius.raw as int) as i64 },
    }
}

/// Bounding rectangle of a circular arc around `(x, y)`: the endpoints of
/// the sweep, extended by every cardinal compass point of the circle the
/// sweep covers.
///
/// Both sweep bounds are first reduced into one turn, per the tie-break the
/// tracker follows; a full-turn arc (an end a whole turn past its start)
/// therefore collapses to a degenerate sweep, not the whole circle's box.
pub fn arc_rect(x: Fx, y: Fx, radius: Fx, start_deg: Fx, end_deg: Fx) -> (r: Rectangle)
    ensures
        r == arc_rect_spec(x, y, radius, start_deg, end_deg),
        ({
            let lo = arc_lo_raw(start_deg.raw as int, end_deg.raw as int);
            let hi = arc_hi_raw(start_deg.raw as int, end_deg.raw as int);
            let us_x = cos_raw(start_deg.raw as int);
            let ue_x = cos_raw(end_deg.raw as int);
            let us_y = sin_raw(start_deg.raw as int);
            let ue_y = sin_raw(end_deg.raw as int);
            let x0 = arc_coord_raw(x.raw as int, arc_unit_min_x(lo, hi, us_x, ue_x), radius.raw as int);
            let x1 = arc_coord_raw(x.raw as int, arc_unit_max_x(lo, hi, us_x, ue_x), radius.raw as int);
            let y0 = arc_coord_raw(y.raw as int, arc_unit_min_y(lo, hi, us_y, ue_y), radius.raw as int);
            let y1 = arc_coord_raw(y.raw as int, arc_unit_max_y(lo, hi, us_y, ue_y), radius.raw as int);
            &&& r.x.raw as int == x0
            &&& r.y.raw as int == y0
            &&& r.width.raw as int == imax(0, sat64(x1 - x0))
            &&& r.height.raw as int == imax(0, sat64(y1 - y0))
            &&& r.wf()
        }),
{
    let ns = crate::trig::norm360(start_deg.raw);
    let ne = crate::trig::norm360(end_deg.raw);
    let lo = if ns <= ne {
        ns
    } else {
        ne
    };
    let hi = if ns >= ne {
        ns
    } else {
        ne
    };
    let us_x = crate::trig::cos_deg(start_deg);
    let ue_x = crate::trig::cos_deg(end_deg);
    let us_y = crate::trig::sin_deg(start_deg);
    let ue_y = crate::trig::sin_deg(end_deg);
    let (min_x, max_x) = arc_unit_bounds_x(lo, hi, us_x.raw, ue_x.raw);
    let (min_y, max_y) = arc_unit_bounds_y(lo, hi, us_y.raw, ue_y.raw);
    let x0 = arc_coord(x, min_x, radius);
    let x1 = arc_coord(x, max_x, radius);
    let y0 = arc_coord(y, min_y, radius);
    let y1 = arc_coord(y, max_y, radius);
    let w = sat_i128(x1 as i128 - x0 as i128);
    let h = sat_i128(y1 as i128 - y0 as i128);
    Rectangle {
        x: Fx { raw: x0 },
        y: Fx { raw: y0 },
        width: Fx {
            raw: if w >= 0 {
                w
            } else {
                0
            },
        },
        height: Fx {
            raw: if h >= 0 {
                h
            } else {
                0
            },
        },
    }
}

/// A tracker's bounds extended to include one point; the current point and
/// the clip flag stay as they are.
pub open spec fn point_folded(t: PathRectTrack, p: Point) -> PathRectTrack {
    PathRectTrack {
        has_bounds: true,
        min_x: Fx {
            raw: (if t.has_bounds {
                imin(t.min_x.raw as int, p.x.raw as int)
            } else {
                p.x.raw as int
            }) as i64,
        },
        min_y: Fx {
            raw: (if t.has_bounds {
                imin(t.min_y.raw as int, p.y.raw as int)
            } else {
                p.y.raw as int
            }) as i64,
        },
        max_x: Fx {
            raw: (if t.has_bounds {
                imax(t.max_x.raw as int, p.x.raw as int)
            } else {
                p.x.raw as int
            }) as i64,
        },
        max_y: Fx {
            raw: (if t.has_bounds {
                imax(t.max_y.raw as int, p.y.raw as int)
            } else {
                p.y.raw as int
            }) as i64,
        },
        last: t.last,
        clip: t.clip,
    }
}

/// A tracker's bounds extended to include a rectangle: its top-left corner
/// and its bottom-right corner, the latter with saturated sums.
pub open spec fn rect_folded(t: PathRectTrack, rect: Rectangle) -> PathRectTrack {
    point_folded(
        point_folded(t, Point { x: rect.x, y: rect.y }),
        Point {
            x: Fx { raw: sat64(rect.x.raw + rect.width.raw) as i64 },
            y: Fx { raw: sat64(rect.y.raw + rect.height.raw) as i64 },
        },
    )
}

/// Folding one more point moves the tracked bounds from the exact extremes
/// of a run of points to the exact extremes of the extended run — the step
/// that carries the exact-bounds property through a chain of point records.
pub proof fn lemma_point_folded_extends(t: PathRectTrack, ps: Seq<Point>, p: Point)
    requires
        ps.len() > 0,
        t.has_bounds,
        t.min_x.raw as int == points_min_x(ps),
        t.min_y.raw as int == points_min_y(ps),
        t.max_x.raw as int == points_max_x(ps),
        t.max_y.raw as int == points_max_y(ps),
    ensures
        point_folded(t, p).has_bounds,
        point_folded(t, p).min_x.raw as int == points_min_x(ps.push(p)),
        point_folded(t, p).min_y.raw as int == points_min_y(ps.push(p)),
        point_folded(t, p).max_x.raw as int == points_max_x(ps.push(p)),
        point_folded(t, p).max_y.raw as int == points_max_y(ps.push(p)),
{
    assert(ps.push(p).drop_last() =~= ps);
    assert(ps.push(p).last() == p);
}

/// A streaming tracker of the bounding rectangle of the path recorded so
/// far, together with the current point and the clip flag the render context
/// snapshots alongside it.
#[derive(Clone, Copy, PartialEq, Debug)]
pub struct PathRectTrack {
    /// Whether any command has been recorded yet.
    pub has_bounds: bool,
    pub min_x: Fx,
    pub min_y: Fx,
    pub max_x: Fx,
    pub max_y: Fx,
    /// The end point of the last recorded command.
    pub last: Option<Point>,
    /// Whether the path is used as a clip region.
    pub clip: bool,
}

impl PathRectTrack {
    /// The tracked extremes are ordered once anything was recorded.
    pub open spec fn wf(self) -> bool {
        self.has_bounds ==> (self.min_x.raw <= self.max_x.raw && self.min_y.raw <= self.max_y.raw)
    }

    /// A fresh tracker with no bounds.
    pub fn new(clip: bool) -> (r: PathRectTrack)
        ensures
            !r.has_bounds,
            r.last == Option::<Point>::None,
            r.clip == clip,
            r.wf(),
    {
        PathRectTrack {
            has_bounds: false,
            min_x: Fx::zero(),
            min_y: Fx::zero(),
            max_x: Fx::zero(),
            max_y: Fx::zero(),
            last: None,
            clip,
        }
    }

    /// Whether the tracked path clips.
    pub fn get_clip(&self) -> (r: bool)
        ensures
            r == self.clip,
    {
        self.clip
    }

    /// Marks or unmarks the tracked path as clipping.
    pub fn set_clip(&mut self, clip: bool)
        ensures
            *final(self) == (PathRectTrack { clip, ..*old(self) }),
    {
        self.clip = clip;
    }

    /// Extends the bounds to include one point, without touching the current
    /// point or the clip flag.
    fn fold_point(&mut self, p: Point)
        ensures
            *final(self) == point_folded(*old(self), p),
            old(self).wf() ==> final(self).wf(),
    {
        if self.has_bounds {
            self.min_x = self.min_x.min(p.x);
            self.min_y = self.min_y.min(p.y);
            self.max_x = self.max_x.max(p.x);
            self.max_y = self.max_y.max(p.y);
        } else {
            self.has_bounds = true;
            self.min_x = p.x;
            self.min_y = p.y;
            self.max_x = p.x;
            self.max_y = p.y;
        }
    }

    /// Extends the bounds to include the corners of a rectangle.
    fn fold_rect(&mut self, rect: Rectangle)
        requires
            rect.wf(),
        ensures
            *final(self) == rect_folded(*old(self), rect),
            old(self).wf() ==> final(self).wf(),
    {
        let corner = Point { x: rect.x, y: rect.y }.add(Point { x: rect.width, y: rect.height });
        self.fold_point(Point { x: rect.x, y: rect.y });
        self.fold_point(corner);
        proof {
            assert(sat64(rect.x.raw + rect.width.raw) >= rect.x.raw);
            assert(sat64(rect.y.raw + rect.height.raw) >= rect.y.raw);
        }
    }

    /// Records a point: a move or a straight segment endpoint.
    pub fn record_point_at(&mut self, x: Fx, y: Fx)
        requires
            old(self).wf(),
        ensures
            final(self).wf(),
            *final(self) == (PathRectTrack {
                last: Some(Point { x, y }),
                ..point_folded(*old(self), Point { x, y })
            }),
    {
        self.fold_point(Point { x, y });
        self.last = Some(Point { x, y });
    }

    /// Records an axis-aligned rectangle added to the path.
    pub fn record_rect(&mut self, x: Fx, y: Fx, width: Fx, height: Fx)
        requires
            old(self).wf(),
        ensures
            final(self).wf(),
            *final(self) == (PathRectTrack {
                last: Some(Point { x, y }),
                ..rect_folded(
                    *old(self),
                    Rectangle {
                        x,
                        y,
                        width: Fx { raw: if width.raw >= 0 { width.raw } else { 0 } },
                        height: Fx { raw: if height.raw >= 0 { height.raw } else { 0 } },
                    },
                )
            }),
    {
        let rect = Rectangle::new(x, y, width, height);
        self.fold_rect(rect);
        self.last = Some(Point { x, y });
    }

    /// Records a quadratic curve from the current point (or the control
    /// point, when the path has no current point yet): the curve's tight
    /// bounding rectangle is folded into the tracked bounds.
    pub fn record_quadratic_curve_to(&mut self, control: Point, end: Point)
        requires
            old(self).wf(),
        ensures
            final(self).wf(),
            ({
                let p0 = match old(self).last {
                    Some(p) => p,
                    None => control,
                };
                *final(self) == (PathRectTrack {
                    last: Some(end),
                    ..rect_folded(*old(self), quad_rect_spec(p0, control, end))
                })
            }),
    {
        let p0 = match self.last {
            Some(p) => p,
            None => control,
        };
        let rect = quad_rect(p0, control, end);
        self.fold_rect(rect);
        self.last = Some(end);
    }

    /// Records a cubic curve from the current point (or the first control
    /// point, when the path has no current point yet): the curve's tight
    /// bounding rectangle is folded into the tracked bounds.
    pub fn record_bezier_curve_to(&mut self, control1: Point, control2: Point, end: Point)
        requires
            old(self).wf(),
        ensures
            final(self).wf(),
            ({
                let p0 = match old(self).last {
                    Some(p) => p,
                    None => control1,
                };
                *final(self) == (PathRectTrack {
                    last: Some(end),
                    ..rect_folded(*old(self), cubic_rect_spec(p0, control1, control2, end))
                })
            }),
    {
        let p0 = match self.last {
            Some(p) => p,
            None => control1,
        };
        let rect = cubic_rect(p0, control1, control2, end);
        self.fold_rect(rect);
        self.last = Some(end);
    }

    /// Records a circular arc; the current point moves to the end of the
    /// sweep.
    pub fn record_arc(&mut self, x: Fx, y: Fx, radius: Fx, start_deg: Fx, end_deg: Fx)
        requires
            old(self).wf(),
        ensures
            final(self).wf(),
            *final(self) == (PathRectTrack {
                last: Some(arc_end_point(x, y, radius, end_deg)),
                ..rect_folded(*old(self), arc_rect_spec(x, y, radius, start_deg, end_deg))
            }),
    {
        let rect = arc_rect(x, y, radius, start_deg, end_deg);
        self.fold_rect(rect);
        proof {
            crate::trig::lemma_sin_raw_range(end_deg.raw as int);
            crate::trig::lemma_cos_raw_range(end_deg.raw as int);
        }
        let ex = arc_coord(x, crate::trig::cos_deg(end_deg).raw, radius);
        let ey = arc_coord(y, crate::trig::sin_deg(end_deg).raw, radius);
        self.last = Some(Point { x: Fx { raw: ex }, y: Fx { raw: ey } });
    }

    /// Closing the path adds no bounds: the start point is already included.
    pub fn close_path(&mut self)
        ensures
            *final(self) == *old(self),
    {
    }

    /// The tracked rectangle, or nothing before the first command.
    pub fn get_rect(&self) -> (r: Option<Rectangle>)
        requires
            self.wf(),
        ensures
            !self.has_bounds ==> r == Option::<Rectangle>::None,
            self.has_bounds ==> r == Some(
                Rectangle {
                    x: self.min_x,
                    y: self.min_y,
                    width: Fx { raw: sat64(self.max_x.raw - self.min_x.raw) as i64 },
                    height: Fx { raw: sat64(self.max_y.raw - self.min_y.raw) as i64 },
                },
            ),
    {
        if !self.has_bounds {
            return None;
        }
        Some(
            Rectangle {
                x: self.min_x,
                y: self.min_y,
                width: self.max_x.sub(self.min_x),
                height: self.max_y.sub(self.min_y),
            },
        )
    }
}

} // verus!
