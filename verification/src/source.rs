//! Conversion of a brush into a device-ready paint source.
//!
//! Gradients are defined relative to the frame of the shape being painted:
//! this module turns a gradient description and a frame rectangle into
//! concrete device coordinates — start and end points for a linear gradient,
//! center, radius and axis scales for a radial one — and resolves the color
//! stops along the axis length.

use vstd::prelude::*;
use crate::color::Color;
use crate::fixed::{fx_div_raw, iabs, sat64, sat_i128, tdiv, tdiv_i128, Fx, FX_ONE};
use crate::geometry::{distance_raw, Point, Rectangle};
use crate::gradient::{
    pixels_raw, Brush, Direction, Gradient, GradientKind, LinearGradientCoords, OnPlanePos,
    RadialGradient, RadialGradientSize,
};
use crate::stops::{resolve_stops, resolved_stops_spec, ResolvedStop};
use crate::trig::{cos_raw, sin_raw, DEG_FULL, DEG_QUARTER};

verus! {

/// How a gradient continues past its last stop.
#[derive(Clone, Copy, PartialEq, Eq, Structural, Debug)]
pub enum Spread {
    /// The edge colors extend forever.
    Pad,
    /// The stop pattern repeats.
    Repeat,
}

/// A paint source in device coordinates, ready for a raster backend.
#[derive(Clone, PartialEq, Debug)]
pub enum DeviceSource {
    /// A single color.
    Solid(Color),
    /// A linear color ramp between two device points.
    LinearGradient { start: Point, end: Point, stops: Vec<ResolvedStop>, spread: Spread },
    /// A radial color ramp around a device center; the scales squash the
    /// circle into an ellipse.
    RadialGradient {
        center: Point,
        radius: Fx,
        scale_x: Fx,
        scale_y: Fx,
        stops: Vec<ResolvedStop>,
        spread: Spread,
    },
}

/// Why a brush could not be resolved.
#[derive(Clone, Copy, PartialEq, Eq, Structural, Debug)]
pub enum ResolveError {
    /// The radial sizing policy is not implemented; resolution must fail
    /// loudly rather than approximate it.
    UnsupportedGradientSizing,
}

/// The angle of a linear gradient, rotated a quarter turn so that zero
/// degrees points at the top of the frame, reduced into one turn.
pub open spec fn shifted_deg(deg: int) -> int {
    (deg % (DEG_FULL as int)) + (DEG_QUARTER as int)
}

/// Whether the gradient axis lies in the sector where it crosses the frame's
/// left and right edges: the width times |sin| does not exceed the height
/// times |cos|.
pub open spec fn sector_wide(a: int, b: int, s: int, c: int) -> bool {
    a * iabs(s) <= b * iabs(c)
}

/// Magnitude of the x component of the half-vector from the frame center to
/// the gradient end.
pub open spec fn angle_zx_mag(a: int, b: int, s: int, c: int) -> int {
    if sector_wide(a, b, s, c) {
        tdiv(a, 2)
    } else if s == 0 {
        0
    } else {
        tdiv(b * c, 2 * s)
    }
}

/// Magnitude of the y component of the half-vector.
pub open spec fn angle_zy_mag(a: int, b: int, s: int, c: int) -> int {
    if sector_wide(a, b, s, c) {
        if c == 0 {
            0
        } else {
            tdiv(a * s, 2 * c)
        }
    } else {
        tdiv(b, 2)
    }
}

/// Whether the half-vector points backwards: in the wide sector the cosine
/// decides, in the tall sector the sine.
pub open spec fn angle_z_negated(a: int, b: int, s: int, c: int) -> bool {
    if sector_wide(a, b, s, c) {
        c > 0
    } else {
        s > 0
    }
}

/// Signed x component of the half-vector.
pub open spec fn angle_zx(a: int, b: int, s: int, c: int) -> int {
    if angle_z_negated(a, b, s, c) {
        -angle_zx_mag(a, b, s, c)
    } else {
        angle_zx_mag(a, b, s, c)
    }
}

/// Signed y component of the half-vector.
pub open spec fn angle_zy(a: int, b: int, s: int, c: int) -> int {
    if angle_z_negated(a, b, s, c) {
        -angle_zy_mag(a, b, s, c)
    } else {
        angle_zy_mag(a, b, s, c)
    }
}

/// The frame's center coordinates before saturation.
pub open spec fn center_x_unsat(frame: Rectangle) -> int {
    frame.x.raw + tdiv(frame.width.raw as int, 2)
}

/// The frame's center coordinates before saturation.
pub open spec fn center_y_unsat(frame: Rectangle) -> int {
    frame.y.raw + tdiv(frame.height.raw as int, 2)
}

/// Gradient start point for an angle gradient: the center, displaced, minus
/// the half-vector, saturated once.
pub open spec fn angle_start_x(frame: Rectangle, dx: int, deg: int) -> int {
    let s = sin_raw(shifted_deg(deg));
    let c = cos_raw(shifted_deg(deg));
    sat64(center_x_unsat(frame) + dx - angle_zx(frame.width.raw as int, frame.height.raw as int, s, c))
}

/// See `angle_start_x`.
pub open spec fn angle_start_y(frame: Rectangle, dy: int, deg: int) -> int {
    let s = sin_raw(shifted_deg(deg));
    let c = cos_raw(shifted_deg(deg));
    sat64(center_y_unsat(frame) + dy - angle_zy(frame.width.raw as int, frame.height.raw as int, s, c))
}

/// Gradient end point for an angle gradient: the center, displaced, plus the
/// half-vector, saturated once.
pub open spec fn angle_end_x(frame: Rectangle, dx: int, deg: int) -> int {
    let s = sin_raw(shifted_deg(deg));
    let c = cos_raw(shifted_deg(deg));
    sat64(center_x_unsat(frame) + dx + angle_zx(frame.width.raw as int, frame.height.raw as int, s, c))
}

/// See `angle_end_x`.
pub open spec fn angle_end_y(frame: Rectangle, dy: int, deg: int) -> int {
    let s = sin_raw(shifted_deg(deg));
    let c = cos_raw(shifted_deg(deg));
    sat64(center_y_unsat(frame) + dy + angle_zy(frame.width.raw as int, frame.height.raw as int, s, c))
}

/// Frame-relative start and end of a linear gradient crossing a frame of the
/// given extent in a compass direction, as raw coordinate pairs
/// `((start_x, start_y), (end_x, end_y))`.
pub open spec fn direction_points_raw(d: Direction, w: int, h: int) -> ((int, int), (int, int)) {
    let mw = tdiv(w, 2);
    let mh = tdiv(h, 2);
    match d {
        Direction::ToTop => ((mw, h), (mw, 0)),
        Direction::ToTopRight => ((0, h), (w, 0)),
        Direction::ToRight => ((0, mh), (w, mh)),
        Direction::ToBottomRight => ((0, 0), (w, h)),
        Direction::ToBottom => ((mw, 0), (mw, h)),
        Direction::ToBottomLeft => ((w, 0), (0, h)),
        Direction::ToLeft => ((w, mh), (0, mh)),
        Direction::ToTopLeft => ((w, h), (0, 0)),
    }
}

/// Frame-relative start and end points of a linear gradient crossing a frame
/// of the given extent in the given compass direction.
pub fn start_and_end_from_direction(direction: Direction, width: Fx, height: Fx) -> (r: (
    Point,
    Point,
))
    ensures
        r.0.x.raw as int == direction_points_raw(direction, width.raw as int, height.raw as int).0.0,
        r.0.y.raw as int == direction_points_raw(direction, width.raw as int, height.raw as int).0.1,
        r.1.x.raw as int == direction_points_raw(direction, width.raw as int, height.raw as int).1.0,
        r.1.y.raw as int == direction_points_raw(direction, width.raw as int, height.raw as int).1.1,
{
    let mid_width = width.half();
    let mid_height = height.half();
    let zero = Fx::zero();
    match direction {
        Direction::ToTop => (Point::new(mid_width, height), Point::new(mid_width, zero)),
        Direction::ToTopRight => (Point::new(zero, height), Point::new(width, zero)),
        Direction::ToRight => (Point::new(zero, mid_height), Point::new(width, mid_height)),
        Direction::ToBottomRight => (Point::new(zero, zero), Point::new(width, height)),
        Direction::ToBottom => (Point::new(mid_width, zero), Point::new(mid_width, height)),
        Direction::ToBottomLeft => (Point::new(width, zero), Point::new(zero, height)),
        Direction::ToLeft => (Point::new(width, mid_height), Point::new(zero, mid_height)),
        Direction::ToTopLeft => (Point::new(width, height), Point::new(zero, zero)),
    }
}

/// Computes the device start and end points of an angle-defined linear
/// gradient across a frame: the half-vector from the frame center is laid
/// along the angle, and the center is shifted by the pixel displacement.
pub fn linear_angle_geometry(degrees: Fx, displacement: OnPlanePos, frame: Rectangle) -> (r: (
    Point,
    Point,
))
    requires
        frame.width.raw > 0,
        frame.height.raw > 0,
    ensures
        ({
            let dx = pixels_raw(
                displacement.x.pos.raw as int,
                displacement.x.kind,
                frame.width.raw as int,
            );
            let dy = pixels_raw(
                displacement.y.pos.raw as int,
                displacement.y.kind,
                frame.height.raw as int,
            );
            r.0.x.raw as int == angle_start_x(frame, dx, degrees.raw as int) && r.0.y.raw as int
                == angle_start_y(frame, dy, degrees.raw as int) && r.1.x.raw as int == angle_end_x(
                frame,
                dx,
                degrees.raw as int,
            ) && r.1.y.raw as int == angle_end_y(frame, dy, degrees.raw as int)
        }),
{
    let shifted: i64 = crate::trig::norm360(degrees.raw) + DEG_QUARTER;
    let s = crate::trig::sin_deg(Fx { raw: shifted });
    let c = crate::trig::cos_deg(Fx { raw: shifted });
    proof {
        assert(sin_raw(shifted as int) == sin_raw(shifted_deg(degrees.raw as int)));
        assert(cos_raw(shifted as int) == cos_raw(shifted_deg(degrees.raw as int)));
    }
    let a: i64 = frame.width.raw;
    let b: i64 = frame.height.raw;
    let sm: i128 = if s.raw >= 0 {
        s.raw as i128
    } else {
        -(s.raw as i128)
    };
    let cm: i128 = if c.raw >= 0 {
        c.raw as i128
    } else {
        -(c.raw as i128)
    };
    proof {
        assert(0 <= a as int * sm as int <= 10_000_000_000_000_000_000_000_000
            && 0 <= b as int * cm as int <= 10_000_000_000_000_000_000_000_000
            && -10_000_000_000_000_000_000_000_000 <= a as int * s.raw as int
                <= 10_000_000_000_000_000_000_000_000
            && -10_000_000_000_000_000_000_000_000 <= b as int * c.raw as int
                <= 10_000_000_000_000_000_000_000_000) by (nonlinear_arith)
            requires
                0 <= a <= 0x7fffffffffffffff,
                0 <= b <= 0x7fffffffffffffff,
                -1_000_000 <= s.raw <= 1_000_000,
                -1_000_000 <= c.raw <= 1_000_000,
                0 <= sm <= 1_000_000,
                0 <= cm <= 1_000_000,
        ;
    }
    let wide: bool = a as i128 * sm <= b as i128 * cm;
    proof {
        assert(a as i128 * sm == a as int * iabs(s.raw as int) && b as i128 * cm == b as int * iabs(
            c.raw as int,
        )) by (nonlinear_arith)
            requires
                sm as int == iabs(s.raw as int),
                cm as int == iabs(c.raw as int),
        ;
    }
    let zxm: i128;
    let zym: i128;
    let negate: bool;
    if wide {
        proof {
            if c.raw == 0 {
                assert(b as int * iabs(c.raw as int) == 0) by (nonlinear_arith)
                    requires
                        iabs(c.raw as int) == 0,
                ;
                assert(a as int * iabs(s.raw as int) <= 0);
                assert(iabs(s.raw as int) == 0) by (nonlinear_arith)
                    requires
                        a as int >= 1,
                        a as int * iabs(s.raw as int) <= 0,
                        iabs(s.raw as int) >= 0,
                ;
            }
        }
        zxm = tdiv_i128(a as i128, 2);
        zym = if c.raw == 0 {
            0
        } else {
            tdiv_i128(a as i128 * s.raw as i128, 2 * c.raw as i128)
        };
        negate = c.raw > 0;
    } else {
        proof {
            if s.raw == 0 {
                assert(a as int * iabs(s.raw as int) == 0);
                assert(0 <= b as int * iabs(c.raw as int)) by (nonlinear_arith)
                    requires
                        b >= 0,
                        iabs(c.raw as int) >= 0,
                ;
            }
        }
        zxm = if s.raw == 0 {
            0
        } else {
            tdiv_i128(b as i128 * c.raw as i128, 2 * s.raw as i128)
        };
        zym = tdiv_i128(b as i128, 2);
        negate = s.raw > 0;
    }
    let zx: i128 = if negate {
        -zxm
    } else {
        zxm
    };
    let zy: i128 = if negate {
        -zym
    } else {
        zym
    };
    let cx: i128 = frame.x.raw as i128 + tdiv_i128(frame.width.raw as i128, 2);
    let cy: i128 = frame.y.raw as i128 + tdiv_i128(frame.height.raw as i128, 2);
    let disp = displacement.pixels(frame.size());
    let sx = sat_i128(cx + disp.x.raw as i128 - zx);
    let sy = sat_i128(cy + disp.y.raw as i128 - zy);
    let ex = sat_i128(cx + disp.x.raw as i128 + zx);
    let ey = sat_i128(cy + disp.y.raw as i128 + zy);
    (Point { x: Fx { raw: sx }, y: Fx { raw: sy } }, Point { x: Fx { raw: ex }, y: Fx { raw: ey } })
}

/// The half-vector is negated exactly by a half turn of the angle, so
/// turning a linear gradient by half a turn swaps its start and end.
pub proof fn lemma_angle_half_turn_swaps(frame: Rectangle, dx: int, dy: int, deg: int)
    requires
        frame.width.raw > 0,
        frame.height.raw > 0,
    ensures
        angle_start_x(frame, dx, deg + crate::trig::DEG_HALF) == angle_end_x(frame, dx, deg),
        angle_start_y(frame, dy, deg + crate::trig::DEG_HALF) == angle_end_y(frame, dy, deg),
        angle_end_x(frame, dx, deg + crate::trig::DEG_HALF) == angle_start_x(frame, dx, deg),
        angle_end_y(frame, dy, deg + crate::trig::DEG_HALF) == angle_start_y(frame, dy, deg),
{
    let d = DEG_FULL as int;
    let h = crate::trig::DEG_HALF as int;
    let n1 = shifted_deg(deg);
    let n2 = shifted_deg(deg + h);
    vstd::arithmetic::div_mod::lemma_mod_division_less_than_divisor(deg, d);
    vstd::arithmetic::div_mod::lemma_fundamental_div_mod(deg, d);
    let q = deg / d;
    let n = deg % d;
    if n < h {
        vstd::arithmetic::div_mod::lemma_fundamental_div_mod_converse_mod(deg + h, d, q, n + h);
        assert(n2 == n1 + h);
    } else {
        assert(deg + h == (q + 1) * d + (n - h)) by (nonlinear_arith)
            requires
                deg == q * d + n,
                d == 360_000_000,
                h == 180_000_000,
        ;
        vstd::arithmetic::div_mod::lemma_fundamental_div_mod_converse_mod(deg + h, d, q + 1, n - h);
        assert(n2 == n1 - h);
    }
    let s1 = sin_raw(n1);
    let c1 = cos_raw(n1);
    let s2 = sin_raw(n2);
    let c2 = cos_raw(n2);
    if n2 == n1 + h {
        crate::trig::lemma_sin_raw_antiperiod(n1);
        crate::trig::lemma_cos_raw_antiperiod(n1);
    } else {
        crate::trig::lemma_sin_raw_antiperiod(n2);
        crate::trig::lemma_cos_raw_antiperiod(n2);
    }
    assert(s2 == -s1 && c2 == -c1);
    let a = frame.width.raw as int;
    let b = frame.height.raw as int;
    assert(iabs(s2) == iabs(s1) && iabs(c2) == iabs(c1));
    assert(sector_wide(a, b, s2, c2) == sector_wide(a, b, s1, c1));
    assert(angle_zx_mag(a, b, s2, c2) == angle_zx_mag(a, b, s1, c1)) by {
        if !sector_wide(a, b, s1, c1) && s1 != 0 {
            assert(b * c2 == -(b * c1) && 2 * s2 == -(2 * s1)) by (nonlinear_arith)
                requires
                    s2 == -s1,
                    c2 == -c1,
            ;
            assert(tdiv(-(b * c1), -(2 * s1)) == tdiv(b * c1, 2 * s1));
        }
    }
    assert(angle_zy_mag(a, b, s2, c2) == angle_zy_mag(a, b, s1, c1)) by {
        if sector_wide(a, b, s1, c1) && c1 != 0 {
            assert(a * s2 == -(a * s1) && 2 * c2 == -(2 * c1)) by (nonlinear_arith)
                requires
                    s2 == -s1,
                    c2 == -c1,
            ;
            assert(tdiv(-(a * s1), -(2 * c1)) == tdiv(a * s1, 2 * c1));
        }
    }
    if sector_wide(a, b, s1, c1) {
        if c1 == 0 {
            assert(c2 == 0);
            assert(angle_z_negated(a, b, s2, c2) == angle_z_negated(a, b, s1, c1));
            assert(angle_zy_mag(a, b, s1, c1) == 0);
            assert(a * iabs(s1) <= b * iabs(c1));
            assert(b * iabs(c1) == 0) by (nonlinear_arith)
                requires
                    iabs(c1) == 0,
            ;
            assert(a * iabs(s1) <= 0);
            if s1 == 0 {
                crate::trig::lemma_sin_cos_not_both_zero(n1);
                assert(false);
            } else {
                assert(a * iabs(s1) >= a) by (nonlinear_arith)
                    requires
                        iabs(s1) >= 1,
                        a >= 0,
                ;
                if a > 0 {
                    assert(false);
                } else {
                    assert(angle_zx_mag(a, b, s1, c1) == tdiv(a, 2));
                    assert(a == 0);
                    assert(tdiv(0, 2) == 0);
                }
            }
        } else {
            assert(angle_z_negated(a, b, s2, c2) == !angle_z_negated(a, b, s1, c1));
        }
    } else {
        assert(s1 != 0) by {
            if s1 == 0 {
                assert(a * iabs(s1) == 0) by (nonlinear_arith)
                    requires
                        iabs(s1) == 0,
                ;
                assert(0 <= b * iabs(c1)) by (nonlinear_arith)
                    requires
                        b >= 0,
                        iabs(c1) >= 0,
                ;
            }
        }
        assert(angle_z_negated(a, b, s2, c2) == !angle_z_negated(a, b, s1, c1));
    }
}

/// The spread mode a gradient's repeat flag selects.
pub open spec fn spread_of(repeat: bool) -> Spread {
    if repeat {
        Spread::Repeat
    } else {
        Spread::Pad
    }
}

/// Radius and axis scales of a closest-side radial gradient: the radius is
/// half the smaller frame dimension, and the larger axis is squashed by the
/// ratio of the dimensions unless a circle is forced.
pub fn radial_closest_side(circle: bool, frame: Rectangle) -> (r: (Fx, Fx, Fx))
    requires
        frame.wf(),
        frame.width.raw > 0 || frame.height.raw > 0,
    ensures
        frame.width.raw > frame.height.raw ==> {
            &&& r.0.raw as int == tdiv(frame.height.raw as int, 2)
            &&& r.1.raw as int == if circle {
                FX_ONE as int
            } else {
                fx_div_raw(frame.height.raw as int, frame.width.raw as int)
            }
            &&& r.2.raw == FX_ONE
        },
        frame.width.raw <= frame.height.raw ==> {
            &&& r.0.raw as int == tdiv(frame.width.raw as int, 2)
            &&& r.1.raw == FX_ONE
            &&& r.2.raw as int == if circle {
                FX_ONE as int
            } else {
                fx_div_raw(frame.width.raw as int, frame.height.raw as int)
            }
        },
        r.0.raw >= 0,
        r.0.raw <= 4611686018427387903,
{
    let one = Fx::one();
    if frame.width.raw > frame.height.raw {
        let radius = frame.height.half();
        let scale_x = if circle {
            one
        } else {
            frame.height.div(frame.width)
        };
        proof {
            vstd::arithmetic::div_mod::lemma_div_is_ordered(
                iabs(frame.height.raw as int),
                0x7fffffffffffffff,
                2,
            );
        }
        (radius, scale_x, one)
    } else {
        let radius = frame.width.half();
        let scale_y = if circle {
            one
        } else {
            frame.width.div(frame.height)
        };
        proof {
            vstd::arithmetic::div_mod::lemma_div_is_ordered(
                iabs(frame.width.raw as int),
                0x7fffffffffffffff,
                2,
            );
        }
        (radius, one, scale_y)
    }
}

/// Everything `resolve_brush` promises of its result, as one predicate:
/// which case of the brush and frame yields which outcome.
pub open spec fn resolves_to(
    brush: Brush,
    frame: Rectangle,
    r: Result<Option<DeviceSource>, ResolveError>,
) -> bool {
    &&& (
        brush matches Brush::SolidColor(col) ==> r == Ok::<Option<DeviceSource>, ResolveError>(
            Some(DeviceSource::Solid(col)),
        ))
    &&& (
        brush matches Brush::Gradient(g) ==> {
            &&& (g.stops@.len() == 1 ==> r == Ok::<Option<DeviceSource>, ResolveError>(
                Some(DeviceSource::Solid(g.stops@[0].color)),
            ))
            &&& (g.stops@.len() > 1 ==> {
                &&& (g.kind matches GradientKind::Linear(
                    LinearGradientCoords::Ends { start: s0, end: e0 },
                ) ==> (r matches Ok(Some(DeviceSource::LinearGradient { start, end, stops, spread }))
                    && start.x.raw as int == sat64(frame.x.raw + s0.x.raw)
                    && start.y.raw as int == sat64(frame.y.raw + s0.y.raw)
                    && end.x.raw as int == sat64(frame.x.raw + e0.x.raw)
                    && end.y.raw as int == sat64(frame.y.raw + e0.y.raw)
                    && stops@ == resolved_stops_spec(
                    g.stops@,
                    distance_raw(e0.x.raw as int, e0.y.raw as int, s0.x.raw as int, s0.y.raw as int),
                ) && spread == spread_of(g.repeat)))
                &&& (g.kind matches GradientKind::Linear(
                    LinearGradientCoords::Angle { degrees, displacement },
                ) ==> {
                    &&& ((frame.width.raw == 0 || frame.height.raw == 0) ==> r == Ok::<
                        Option<DeviceSource>,
                        ResolveError,
                    >(None))
                    &&& ((frame.width.raw > 0 && frame.height.raw > 0) ==> (r matches Ok(
                        Some(DeviceSource::LinearGradient { start, end, stops, spread }),
                    ) && {
                        let dx = pixels_raw(
                            displacement.x.pos.raw as int,
                            displacement.x.kind,
                            frame.width.raw as int,
                        );
                        let dy = pixels_raw(
                            displacement.y.pos.raw as int,
                            displacement.y.kind,
                            frame.height.raw as int,
                        );
                        &&& start.x.raw as int == angle_start_x(frame, dx, degrees.raw as int)
                        &&& start.y.raw as int == angle_start_y(frame, dy, degrees.raw as int)
                        &&& end.x.raw as int == angle_end_x(frame, dx, degrees.raw as int)
                        &&& end.y.raw as int == angle_end_y(frame, dy, degrees.raw as int)
                        &&& stops@ == resolved_stops_spec(
                            g.stops@,
                            distance_raw(
                                end.x.raw as int,
                                end.y.raw as int,
                                start.x.raw as int,
                                start.y.raw as int,
                            ),
                        )
                        &&& spread == spread_of(g.repeat)
                    }))
                })
                &&& (g.kind matches GradientKind::Linear(
                    LinearGradientCoords::Direction { direction, displacement },
                ) ==> (r matches Ok(Some(DeviceSource::LinearGradient { start, end, stops, spread }))
                    && {
                    let pts = direction_points_raw(
                        direction,
                        frame.width.raw as int,
                        frame.height.raw as int,
                    );
                    let dx = pixels_raw(
                        displacement.x.pos.raw as int,
                        displacement.x.kind,
                        frame.width.raw as int,
                    );
                    let dy = pixels_raw(
                        displacement.y.pos.raw as int,
                        displacement.y.kind,
                        frame.height.raw as int,
                    );
                    &&& start.x.raw as int == sat64(pts.0.0 + frame.x.raw + dx)
                    &&& start.y.raw as int == sat64(pts.0.1 + frame.y.raw + dy)
                    &&& end.x.raw as int == sat64(pts.1.0 + frame.x.raw + dx)
                    &&& end.y.raw as int == sat64(pts.1.1 + frame.y.raw + dy)
                    &&& stops@ == resolved_stops_spec(
                        g.stops@,
                        distance_raw(pts.1.0, pts.1.1, pts.0.0, pts.0.1),
                    )
                    &&& spread == spread_of(g.repeat)
                }))
                &&& (g.kind matches GradientKind::Radial(params) ==> {
                    &&& (params.size matches RadialGradientSize::ToClosestSide(circle) ==> {
                        &&& ((frame.width.raw == 0 && frame.height.raw == 0) ==> r == Ok::<
                            Option<DeviceSource>,
                            ResolveError,
                        >(None))
                        &&& ((frame.width.raw > 0 || frame.height.raw > 0) ==> (r matches Ok(
                            Some(
                                DeviceSource::RadialGradient {
                                    center,
                                    radius,
                                    scale_x,
                                    scale_y,
                                    stops,
                                    spread,
                                },
                            ),
                        ) && {
                            &&& center.x.raw as int == sat64(center_x_unsat(frame))
                            &&& center.y.raw as int == sat64(center_y_unsat(frame))
                            &&& (frame.width.raw > frame.height.raw ==> radius.raw as int == tdiv(
                                frame.height.raw as int,
                                2,
                            ) && scale_x.raw as int == (if circle {
                                FX_ONE as int
                            } else {
                                fx_div_raw(frame.height.raw as int, frame.width.raw as int)
                            }) && scale_y.raw == FX_ONE)
                            &&& (frame.width.raw <= frame.height.raw ==> radius.raw as int == tdiv(
                                frame.width.raw as int,
                                2,
                            ) && scale_y.raw as int == (if circle {
                                FX_ONE as int
                            } else {
                                fx_div_raw(frame.width.raw as int, frame.height.raw as int)
                            }) && scale_x.raw == FX_ONE)
                            &&& stops@ == resolved_stops_spec(g.stops@, 2 * radius.raw)
                            &&& spread == spread_of(g.repeat)
                        }))
                    })
                    &&& (!(params.size matches RadialGradientSize::ToClosestSide(_)) ==> r == Err::<
                        Option<DeviceSource>,
                        ResolveError,
                    >(ResolveError::UnsupportedGradientSizing))
                })
            })
        })
}

/// Resolves a brush against the frame of the shape being painted.
///
/// A solid brush passes through. A gradient with a single stop degrades to a
/// solid brush of that stop's color, whatever the frame. A multi-stop linear
/// gradient resolves to device start and end points with the stops resolved
/// along the axis length; a radial one to center, radius and scales. A
/// degenerate frame (a zero axis where the geometry needs one) resolves to
/// nothing, to be treated as a no-op draw. Radial sizing policies other than
/// closest-side are refused loudly.
pub fn resolve_brush(brush: &Brush, frame: Rectangle) -> (r: Result<
    Option<DeviceSource>,
    ResolveError,
>)
    requires
        frame.wf(),
        brush matches Brush::Gradient(g) ==> g.stops@.len() >= 1,
    ensures
        resolves_to(*brush, frame, r),
{
    match brush {
        Brush::SolidColor(col) => Ok(Some(DeviceSource::Solid(*col))),
        Brush::Gradient(g) => {
            if g.stops.len() == 1 {
                let only = g.stops[0];
                return Ok(Some(DeviceSource::Solid(only.color)));
            }
            let spread = if g.repeat {
                Spread::Repeat
            } else {
                Spread::Pad
            };
            match g.kind {
                GradientKind::Linear(LinearGradientCoords::Ends { start: s0, end: e0 }) => {
                    let length = e0.distance(s0);
                    let stops = resolve_stops(&g.stops, length);
                    let start = frame.position().add(s0);
                    let end = frame.position().add(e0);
                    Ok(Some(DeviceSource::LinearGradient { start, end, stops, spread }))
                },
                GradientKind::Linear(LinearGradientCoords::Angle { degrees, displacement }) => {
                    if frame.width.raw == 0 || frame.height.raw == 0 {
                        return Ok(None);
                    }
                    let (start, end) = linear_angle_geometry(degrees, displacement, frame);
                    let length = end.distance(start);
                    let stops = resolve_stops(&g.stops, length);
                    Ok(Some(DeviceSource::LinearGradient { start, end, stops, spread }))
                },
                GradientKind::Linear(
                    LinearGradientCoords::Direction { direction, displacement },
                ) => {
                    let (s0, e0) = start_and_end_from_direction(
                        direction,
                        frame.width,
                        frame.height,
                    );
                    let length = e0.distance(s0);
                    let stops = resolve_stops(&g.stops, length);
                    let disp = displacement.pixels(frame.size());
                    let start = Point {
                        x: Fx {
                            raw: sat_i128(
                                s0.x.raw as i128 + frame.x.raw as i128 + disp.x.raw as i128,
                            ),
                        },
                        y: Fx {
                            raw: sat_i128(
                                s0.y.raw as i128 + frame.y.raw as i128 + disp.y.raw as i128,
                            ),
                        },
                    };
                    let end = Point {
                        x: Fx {
                            raw: sat_i128(
                                e0.x.raw as i128 + frame.x.raw as i128 + disp.x.raw as i128,
                            ),
                        },
                        y: Fx {
                            raw: sat_i128(
                                e0.y.raw as i128 + frame.y.raw as i128 + disp.y.raw as i128,
                            ),
                        },
                    };
                    Ok(Some(DeviceSource::LinearGradient { start, end, stops, spread }))
                },
                GradientKind::Radial(params) => {
                    match params.size {
                        RadialGradientSize::ToClosestSide(circle) => {
                            if frame.width.raw == 0 && frame.height.raw == 0 {
                                return Ok(None);
                            }
                            let (radius, scale_x, scale_y) = radial_closest_side(circle, frame);
                            let length = radius.mul_int(2);
                            proof {
                                assert(sat64(radius.raw * 2) == 2 * radius.raw);
                            }
                            let stops = resolve_stops(&g.stops, length);
                            let center = Point {
                                x: Fx {
                                    raw: sat_i128(
                                        frame.x.raw as i128 + tdiv_i128(frame.width.raw as i128, 2),
                                    ),
                                },
                                y: Fx {
                                    raw: sat_i128(
                                        frame.y.raw as i128 + tdiv_i128(
                                            frame.height.raw as i128,
                                            2,
                                        ),
                                    ),
                                },
                            };
                            Ok(
                                Some(
                                    DeviceSource::RadialGradient {
                                        center,
                                        radius,
                                        scale_x,
                                        scale_y,
                                        stops,
                                        spread,
                                    },
                                ),
                            )
                        },
                        RadialGradientSize::ToClosestCorner(_) => Err(
                            ResolveError::UnsupportedGradientSizing,
                        ),
                        RadialGradientSize::ToFarthestSide(_) => Err(
                            ResolveError::UnsupportedGradientSizing,
                        ),
                        RadialGradientSize::ToFarthestCorner(_) => Err(
                            ResolveError::UnsupportedGradientSizing,
                        ),
                        RadialGradientSize::Custom(_) => Err(
                            ResolveError::UnsupportedGradientSizing,
                        ),
                        RadialGradientSize::Radius(_) => Err(
                            ResolveError::UnsupportedGradientSizing,
                        ),
                    }
                },
            }
        },
    }
}

} // verus!
