//! Resolution of gradient color stops to absolute fractional positions.
//!
//! Every stop of a gradient is resolved to a position in `[0, 1]` along the
//! gradient axis. Explicit positions are clamped to at most one whole unit
//! and floored at the previously resolved position, so resolved positions
//! never decrease. Runs of `Auto` stops are distributed at equal increments
//! between the surrounding explicit positions; a run that reaches the end of
//! the list lands its last stop exactly at one.

use vstd::prelude::*;
use crate::color::Color;
use crate::fixed::{fx_div_raw, imax, imin, tdiv, Fx, FX_ONE};
use crate::gradient::{GradientStop, StopPosition};

verus! {

/// A color stop whose position along the gradient axis is settled.
#[derive(Clone, Copy, PartialEq, Eq, Structural, Debug)]
pub struct ResolvedStop {
    /// Fraction of the gradient axis, between zero and one unit.
    pub position: Fx,
    pub color: Color,
}

/// Whether the stop carries a position of its own.
pub open spec fn is_explicit(s: GradientStop) -> bool {
    !(s.pos is Auto)
}

/// The raw unit fraction an explicit position computes to, before clamping:
/// fractions stand as they are, absolute lengths are divided by the gradient
/// length (zero when the axis has no length).
pub open spec fn computed_raw(p: StopPosition, length: int) -> int {
    match p {
        StopPosition::Auto => 0,
        StopPosition::Fraction(f) => f.raw as int,
        StopPosition::Absolute(a) => if length == 0 {
            0
        } else {
            fx_div_raw(a.raw as int, length)
        },
    }
}

/// Index of the first explicit stop at or after `i`, or the length.
pub open spec fn next_explicit(stops: Seq<GradientStop>, i: int) -> int
    decreases stops.len() - i,
    when 0 <= i <= stops.len()
{
    if i >= stops.len() {
        stops.len() as int
    } else if is_explicit(stops[i]) {
        i
    } else {
        next_explicit(stops, i + 1)
    }
}

/// `next_explicit` lands between `i` and the length, on an explicit stop or
/// at the end, and everything before it is `Auto`.
pub proof fn lemma_next_explicit(stops: Seq<GradientStop>, i: int)
    requires
        0 <= i <= stops.len(),
    ensures
        i <= next_explicit(stops, i) <= stops.len(),
        next_explicit(stops, i) < stops.len() ==> is_explicit(stops[next_explicit(stops, i)]),
        forall|m: int| i <= m < next_explicit(stops, i) ==> !is_explicit(stops[m]),
    decreases stops.len() - i,
{
    if i < stops.len() && !is_explicit(stops[i]) {
        lemma_next_explicit(stops, i + 1);
    }
}

/// Interpolated raw position of the stop at absolute index `idx` in a run of
/// `Auto` stops running from `from` toward `to` in `count` increments, before
/// flooring. A run with no increments left lands at one whole unit.
pub open spec fn run_pos_raw(from: int, to: int, count: int, idx: int) -> int {
    if count == 0 {
        FX_ONE as int
    } else {
        imin(from + tdiv((to - from) * idx, count), FX_ONE as int)
    }
}

/// Emitted raw positions of the run indexes `[k, endk)`, each floored at the
/// one emitted before it.
pub open spec fn run_seq(from: int, to: int, count: int, k: int, endk: int, last: int) -> Seq<int>
    decreases endk - k,
    when k <= endk
{
    if k >= endk {
        Seq::empty()
    } else {
        let e = imax(last, run_pos_raw(from, to, count, k));
        seq![e] + run_seq(from, to, count, k + 1, endk, e)
    }
}

/// The resolved raw positions of `stops[i..]`, `last` being the position
/// resolved just before `i` (zero at the start of the list).
pub open spec fn resolved_from(stops: Seq<GradientStop>, length: int, i: int, last: int) -> Seq<
    int,
>
    decreases stops.len() - i,
    when 0 <= i <= stops.len()
    via resolved_from_decreases
{
    if i >= stops.len() {
        Seq::empty()
    } else if is_explicit(stops[i]) {
        let e = imax(last, imin(computed_raw(stops[i].pos, length), FX_ONE as int));
        seq![e] + resolved_from(stops, length, i + 1, e)
    } else {
        let j = next_explicit(stops, i);
        let to = if j < stops.len() {
            imin(computed_raw(stops[j].pos, length), FX_ONE as int)
        } else {
            FX_ONE as int
        };
        let count = if j < stops.len() {
            j - i
        } else {
            j - i - 1
        };
        let run = run_seq(last, to, count, i, j, last);
        let rl = if run.len() > 0 {
            run[run.len() - 1]
        } else {
            last
        };
        run + resolved_from(stops, length, j, rl)
    }
}

#[via_fn]
proof fn resolved_from_decreases(stops: Seq<GradientStop>, length: int, i: int, last: int) {
    if 0 <= i < stops.len() && !is_explicit(stops[i]) {
        lemma_next_explicit(stops, i);
    }
}

/// A resolved run stays within `[last, 1]` and never decreases.
proof fn lemma_run_seq_bounds(from: int, to: int, count: int, k: int, endk: int, last: int)
    requires
        k <= endk,
        0 <= last <= FX_ONE,
    ensures
        run_seq(from, to, count, k, endk, last).len() == endk - k,
        forall|m: int|
            0 <= m < endk - k ==> last <= #[trigger] run_seq(from, to, count, k, endk, last)[m]
                <= FX_ONE,
        forall|m1: int, m2: int|
            0 <= m1 <= m2 < endk - k ==> run_seq(from, to, count, k, endk, last)[m1] <= run_seq(
                from,
                to,
                count,
                k,
                endk,
                last,
            )[m2],
    decreases endk - k,
{
    if k < endk {
        let e = imax(last, run_pos_raw(from, to, count, k));
        lemma_run_seq_bounds(from, to, count, k + 1, endk, e);
    }
}

/// Resolved positions stay within `[last, 1]` and never decrease, and there
/// is one per remaining stop.
pub proof fn lemma_resolved_bounds(stops: Seq<GradientStop>, length: int, i: int, last: int)
    requires
        0 <= i <= stops.len(),
        0 <= last <= FX_ONE,
    ensures
        resolved_from(stops, length, i, last).len() == stops.len() - i,
        forall|m: int|
            0 <= m < stops.len() - i ==> last <= #[trigger] resolved_from(stops, length, i, last)[m]
                <= FX_ONE,
        forall|m1: int, m2: int|
            0 <= m1 <= m2 < stops.len() - i ==> resolved_from(stops, length, i, last)[m1]
                <= resolved_from(stops, length, i, last)[m2],
    decreases stops.len() - i,
{
    if i < stops.len() {
        if is_explicit(stops[i]) {
            let e = imax(last, imin(computed_raw(stops[i].pos, length), FX_ONE as int));
            lemma_resolved_bounds(stops, length, i + 1, e);
        } else {
            lemma_next_explicit(stops, i);
            let j = next_explicit(stops, i);
            let to = if j < stops.len() {
                imin(computed_raw(stops[j].pos, length), FX_ONE as int)
            } else {
                FX_ONE as int
            };
            let count = if j < stops.len() {
                j - i
            } else {
                j - i - 1
            };
            let run = run_seq(last, to, count, i, j, last);
            lemma_run_seq_bounds(last, to, count, i, j, last);
            let rl = if run.len() > 0 {
                run[run.len() - 1]
            } else {
                last
            };
            lemma_resolved_bounds(stops, length, j, rl);
        }
    }
}

/// One emitted position of a run of `Auto` stops:
/// `max(last, run_pos_raw(from, to, count, idx))`.
fn run_emit(from: i64, to: i64, count: usize, idx: usize, last: i64) -> (e: i64)
    requires
        0 <= from <= FX_ONE,
        0 <= last <= FX_ONE,
        to <= FX_ONE,
    ensures
        e as int == imax(
            last as int,
            run_pos_raw(from as int, to as int, count as int, idx as int),
        ),
{
    if count == 0 {
        if last >= FX_ONE {
            return last;
        } else {
            return FX_ONE;
        }
    }
    let d: i128 = to as i128 - from as i128;
    let dm: u128 = if d >= 0 {
        d as u128
    } else {
        (-d) as u128
    };
    proof {
        assert(dm <= 9223372036855775808u128);
        assert(dm * (idx as u128) < 0xffffffffffffffffffffffffffffffff) by (nonlinear_arith)
            requires
                dm <= 9223372036855775808u128,
                idx <= 0xffffffffffffffffu128,
        ;
    }
    let m: u128 = dm * (idx as u128);
    let ghost a = (to as int - from as int) * (idx as int);
    proof {
        assert(m as int == crate::fixed::iabs(a) && (d >= 0 ==> a >= 0) && (d < 0 ==> a <= 0))
            by (nonlinear_arith)
            requires
                dm as int == crate::fixed::iabs(d as int),
                d as int == to as int - from as int,
                m as int == dm as int * idx as int,
                a == (to as int - from as int) * (idx as int),
                idx >= 0,
        ;
    }
    if d >= 0 {
        proof {
            if a >= 0 {
                assert(tdiv(a, count as int) == m as int / count as int);
            }
        }
        proof {
            assert((FX_ONE as u128) * (count as u128) <= 0xf42400000000000000000u128)
                by (nonlinear_arith)
                requires
                    count <= 0xffffffffffffffffu128,
            ;
        }
        let threshold: u128 = (FX_ONE as u128) * (count as u128);
        if m >= threshold {
            proof {
                vstd::arithmetic::mul::lemma_mul_is_commutative(FX_ONE as int, count as int);
                vstd::arithmetic::div_mod::lemma_div_is_ordered(
                    (FX_ONE as int) * (count as int),
                    m as int,
                    count as int,
                );
                vstd::arithmetic::div_mod::lemma_div_by_multiple(FX_ONE as int, count as int);
            }
            if last >= FX_ONE {
                last
            } else {
                FX_ONE
            }
        } else {
            proof {
                vstd::arithmetic::mul::lemma_mul_is_commutative(FX_ONE as int, count as int);
                vstd::arithmetic::div_mod::lemma_multiply_divide_lt(
                    m as int,
                    count as int,
                    FX_ONE as int,
                );
            }
            let q: u128 = m / (count as u128);
            let cand: i64 = from + q as i64;
            let p: i64 = if cand <= FX_ONE {
                cand
            } else {
                FX_ONE
            };
            if last >= p {
                last
            } else {
                p
            }
        }
    } else {
        proof {
            assert(a <= 0);
            if a < 0 {
                assert(tdiv(a, count as int) == -(m as int / count as int));
            }
        }
        let fu: u128 = from as u128;
        let cu: u128 = count as u128;
        proof {
            assert(fu * cu <= 0xf42400000000000000000u128) by (nonlinear_arith)
                requires
                    fu <= 0xf4240u128,
                    cu <= 0xffffffffffffffffu128,
            ;
        }
        let threshold: u128 = fu * cu;
        if m >= threshold {
            proof {
                vstd::arithmetic::mul::lemma_mul_is_commutative(from as int, count as int);
                vstd::arithmetic::div_mod::lemma_div_is_ordered(
                    (from as int) * (count as int),
                    m as int,
                    count as int,
                );
                vstd::arithmetic::div_mod::lemma_div_by_multiple(from as int, count as int);
            }
            last
        } else {
            proof {
                vstd::arithmetic::mul::lemma_mul_is_commutative(from as int, count as int);
                vstd::arithmetic::div_mod::lemma_multiply_divide_lt(
                    m as int,
                    count as int,
                    from as int,
                );
            }
            let q: u128 = m / (count as u128);
            let cand: i64 = from - q as i64;
            if last >= cand {
                last
            } else {
                cand
            }
        }
    }
}

/// The resolved stops of a gradient as one value: the input colors paired
/// with the resolved positions.
pub open spec fn resolved_stops_spec(stops: Seq<GradientStop>, length: int) -> Seq<ResolvedStop> {
    Seq::new(
        stops.len(),
        |k: int|
            ResolvedStop {
                position: Fx { raw: resolved_from(stops, length, 0, 0)[k] as i64 },
                color: stops[k].color,
            },
    )
}

/// Resolves every stop of a gradient to an absolute fraction of the axis.
///
/// The result has one stop per input stop, with the input's color; positions
/// are the resolved positions, which always lie in `[0, 1]` and never
/// decrease from one stop to the next.
pub fn resolve_stops(stops: &Vec<GradientStop>, length: Fx) -> (r: Vec<ResolvedStop>)
    ensures
        r@.len() == stops@.len(),
        forall|k: int| 0 <= k < stops@.len() ==> #[trigger] r@[k].color == stops@[k].color,
        forall|k: int|
            0 <= k < stops@.len() ==> #[trigger] r@[k].position.raw as int == resolved_from(
                stops@,
                length.raw as int,
                0,
                0,
            )[k],
        forall|k: int| 0 <= k < stops@.len() ==> 0 <= #[trigger] r@[k].position.raw <= FX_ONE,
        forall|k1: int, k2: int|
            0 <= k1 <= k2 < stops@.len() ==> r@[k1].position.raw <= r@[k2].position.raw,
        r@ == resolved_stops_spec(stops@, length.raw as int),
{
    let ghost full = resolved_from(stops@, length.raw as int, 0, 0);
    proof {
        lemma_resolved_bounds(stops@, length.raw as int, 0, 0);
    }
    let mut out: Vec<ResolvedStop> = Vec::new();
    let mut cursor: usize = 0;
    let mut last: i64 = 0;
    while cursor < stops.len()
        invariant
            cursor <= stops@.len(),
            out@.len() == cursor,
            0 <= last <= FX_ONE,
            full == resolved_from(stops@, length.raw as int, 0, 0),
            forall|k: int| 0 <= k < cursor ==> #[trigger] out@[k].color == stops@[k].color,
            forall|k: int|
                0 <= k < cursor ==> #[trigger] out@[k].position.raw as int == full[k],
            Seq::new(out@.len(), |k: int| out@[k].position.raw as int) + resolved_from(
                stops@,
                length.raw as int,
                cursor as int,
                last as int,
            ) =~= full,
        decreases stops@.len() - cursor,
    {
        let ghost positions = Seq::new(out@.len(), |k: int| out@[k].position.raw as int);
        let stop = stops[cursor];
        match stop.pos {
            StopPosition::Auto => {
                // Find the next explicit stop: the anchor of this run.
                let mut j: usize = cursor;
                loop
                    invariant
                        cursor <= j <= stops@.len(),
                        forall|m: int| cursor <= m < j ==> !is_explicit(stops@[m]),
                    ensures
                        cursor <= j <= stops@.len(),
                        forall|m: int| cursor <= m < j ==> !is_explicit(stops@[m]),
                        j == stops@.len() || is_explicit(stops@[j as int]),
                    decreases stops@.len() - j,
                {
                    if j >= stops.len() {
                        break ;
                    }
                    let explicit = match stops[j].pos {
                        StopPosition::Auto => false,
                        StopPosition::Fraction(_) => true,
                        StopPosition::Absolute(_) => true,
                    };
                    if explicit {
                        break ;
                    }
                    j = j + 1;
                }
                proof {
                    lemma_next_explicit(stops@, cursor as int);
                    assert(next_explicit(stops@, cursor as int) == j as int) by {
                        let n = next_explicit(stops@, cursor as int);
                        if n < j {
                            assert(!is_explicit(stops@[n]));
                        }
                        if j < n {
                            assert(!is_explicit(stops@[j as int]));
                        }
                    }
                }
                let anchored = j < stops.len();
                let to: i64 = if anchored {
                    let c = match stops[j].pos {
                        StopPosition::Auto => 0,
                        StopPosition::Fraction(f) => f.raw,
                        StopPosition::Absolute(a) => {
                            if length.raw == 0 {
                                0
                            } else {
                                a.div(length).raw
                            }
                        },
                    };
                    if c <= FX_ONE {
                        c
                    } else {
                        FX_ONE
                    }
                } else {
                    FX_ONE
                };
                let count: usize = if anchored {
                    j - cursor
                } else {
                    j - cursor - 1
                };
                let from: i64 = last;
                assert(to <= FX_ONE);
                assert(0 <= from <= FX_ONE);
                let ghost to_s = if (j as int) < stops@.len() {
                    imin(computed_raw(stops@[j as int].pos, length.raw as int), FX_ONE as int)
                } else {
                    FX_ONE as int
                };
                assert(to as int == to_s);
                let ghost run = run_seq(
                    from as int,
                    to_s,
                    count as int,
                    cursor as int,
                    j as int,
                    last as int,
                );
                proof {
                    lemma_run_seq_bounds(
                        from as int,
                        to_s,
                        count as int,
                        cursor as int,
                        j as int,
                        last as int,
                    );
                }
                let mut k: usize = cursor;
                while k < j
                    invariant
                        cursor <= k <= j <= stops@.len(),
                        to <= FX_ONE,
                        to as int == to_s,
                        count as int == if (j as int) < stops@.len() {
                            j - cursor
                        } else {
                            j - cursor - 1
                        },
                        out@.len() == k,
                        0 <= last <= FX_ONE,
                        run == run_seq(
                            from as int,
                            to_s,
                            count as int,
                            cursor as int,
                            j as int,
                            from as int,
                        ),
                        run.len() == j - cursor,
                        0 <= from <= FX_ONE,
                        forall|m: int| 0 <= m < k ==> #[trigger] out@[m].color == stops@[m].color,
                        forall|m: int|
                            cursor <= m < k ==> #[trigger] out@[m].position.raw as int == run[
                                m - cursor
                            ],
                        forall|m: int|
                            0 <= m < cursor ==> #[trigger] out@[m].position.raw as int
                                == positions[m],
                        run_seq(from as int, to_s, count as int, k as int, j as int, last as int)
                            =~= run.skip(k - cursor),
                        k > cursor ==> last as int == run[k - cursor - 1],
                        k == cursor ==> last == from,
                    decreases j - k,
                {
                    let e: i64 = run_emit(from, to, count, k, last);
                    assert(e as int == imax(
                        last as int,
                        run_pos_raw(from as int, to_s, count as int, k as int),
                    ));
                    let kept = stops[k];
                    out.push(ResolvedStop { position: Fx { raw: e }, color: kept.color });
                    proof {
                        assert(run_seq(
                            from as int,
                            to_s,
                            count as int,
                            k as int,
                            j as int,
                            last as int,
                        ) == seq![e as int] + run_seq(
                            from as int,
                            to_s,
                            count as int,
                            k + 1,
                            j as int,
                            e as int,
                        ));
                        lemma_run_seq_bounds(
                            from as int,
                            to_s,
                            count as int,
                            k + 1,
                            j as int,
                            e as int,
                        );
                        assert(run.skip(k - cursor)[0] == e as int);
                        assert(run[k - cursor] == e as int);
                        run.lemma_seq_skip_skip(k - cursor);
                        assert((seq![e as int] + run_seq(
                            from as int,
                            to_s,
                            count as int,
                            k + 1,
                            j as int,
                            e as int,
                        )).skip(1) =~= run_seq(
                            from as int,
                            to_s,
                            count as int,
                            k + 1,
                            j as int,
                            e as int,
                        ));
                        assert(run_seq(from as int, to_s, count as int, k + 1, j as int, e as int)
                            =~= run.skip(k + 1 - cursor));
                    }
                    last = e;
                    k = k + 1;
                }
                proof {
                    assert(j > cursor) by {
                        assert(!is_explicit(stops@[cursor as int]));
                    }
                    let rl = if run.len() > 0 {
                        run[run.len() - 1]
                    } else {
                        from as int
                    };
                    assert(last as int == rl);
                    assert(resolved_from(stops@, length.raw as int, cursor as int, from as int)
                        == run + resolved_from(stops@, length.raw as int, j as int, rl));
                    assert(Seq::new(out@.len(), |m: int| out@[m].position.raw as int)
                        =~= positions + run);
                    assert(positions + (run + resolved_from(stops@, length.raw as int, j as int, rl))
                        =~= (positions + run) + resolved_from(stops@, length.raw as int, j as int, rl));
                }
                cursor = j;
            },
            StopPosition::Fraction(f) => {
                let c: i64 = f.raw;
                let clamped: i64 = if c <= FX_ONE {
                    c
                } else {
                    FX_ONE
                };
                let e: i64 = if last >= clamped {
                    last
                } else {
                    clamped
                };
                assert(e as int == imax(
                    last as int,
                    imin(computed_raw(stop.pos, length.raw as int), FX_ONE as int),
                ));
                out.push(ResolvedStop { position: Fx { raw: e }, color: stop.color });
                proof {
                    assert(Seq::new(out@.len(), |m: int| out@[m].position.raw as int)
                        =~= positions + seq![e as int]);
                    assert(positions + (seq![e as int] + resolved_from(
                        stops@,
                        length.raw as int,
                        cursor + 1,
                        e as int,
                    )) =~= (positions + seq![e as int]) + resolved_from(
                        stops@,
                        length.raw as int,
                        cursor + 1,
                        e as int,
                    ));
                }
                last = e;
                cursor = cursor + 1;
            },
            StopPosition::Absolute(a) => {
                let c: i64 = if length.raw == 0 {
                    0
                } else {
                    a.div(length).raw
                };
                let clamped: i64 = if c <= FX_ONE {
                    c
                } else {
                    FX_ONE
                };
                let e: i64 = if last >= clamped {
                    last
                } else {
                    clamped
                };
                assert(e as int == imax(
                    last as int,
                    imin(computed_raw(stop.pos, length.raw as int), FX_ONE as int),
                ));
                out.push(ResolvedStop { position: Fx { raw: e }, color: stop.color });
                proof {
                    assert(Seq::new(out@.len(), |m: int| out@[m].position.raw as int)
                        =~= positions + seq![e as int]);
                    assert(positions + (seq![e as int] + resolved_from(
                        stops@,
                        length.raw as int,
                        cursor + 1,
                        e as int,
                    )) =~= (positions + seq![e as int]) + resolved_from(
                        stops@,
                        length.raw as int,
                        cursor + 1,
                        e as int,
                    ));
                }
                last = e;
                cursor = cursor + 1;
            },
        }
    }
    proof {
        assert(Seq::new(out@.len(), |k: int| out@[k].position.raw as int) =~= full);
        let rss = resolved_stops_spec(stops@, length.raw as int);
        assert forall|k: int| 0 <= k < out@.len() implies out@[k] == rss[k] by {
            assert(out@[k].position.raw as int == full[k]);
            assert(out@[k].color == stops@[k].color);
            assert(0 <= full[k] <= FX_ONE);
            assert(rss[k] == ResolvedStop {
                position: Fx { raw: resolved_from(stops@, length.raw as int, 0, 0)[k] as i64 },
                color: stops@[k].color,
            });
            assert(out@[k].position == rss[k].position);
        }
        assert(out@ =~= rss);
    }
    out
}

} // verus!
