//! The retained render context.
//!
//! Drawing calls do not rasterize anything here: they maintain the paint
//! configuration, the current path and its streaming bounds, and append
//! device-ready draw commands — with every brush already resolved against
//! the current path's bounding rectangle — to a command list that a raster
//! backend replays. Filling or stroking an empty path is a no-op; an
//! unsupported brush is refused loudly and changes nothing.

use vstd::prelude::*;
use crate::bounds::PathRectTrack;
use crate::color::Color;
use crate::fixed::{sat64, Fx};
use crate::geometry::{Point, Rectangle};
use crate::gradient::{Brush, GradientStop};
use crate::source::{resolve_brush, resolves_to, DeviceSource, ResolveError};

verus! {

/// One recorded path construction command.
#[derive(Clone, PartialEq, Debug)]
pub enum PathOp {
    MoveTo(Point),
    LineTo(Point),
    /// Control point and end point.
    QuadTo(Point, Point),
    /// Two control points and the end point.
    CubicTo(Point, Point, Point),
    /// Center, radius, start angle and end angle in degrees.
    ArcTo(Point, Fx, Fx, Fx),
    Rect(Rectangle),
    Close,
}

/// One device-ready command for a raster backend.
#[derive(Clone, PartialEq, Debug)]
pub enum DrawCommand {
    /// Fill the path with a resolved source at the given alpha.
    Fill { path: Vec<PathOp>, source: DeviceSource, alpha: Fx },
    /// Stroke the path outline.
    Stroke { path: Vec<PathOp>, source: DeviceSource, line_width: Fx, alpha: Fx },
    /// Clear the whole target with a color.
    Clear { color: Color },
    /// Draw a run of text at a position.
    FillText { text: Vec<char>, position: Point, color: Color, size: Fx, alpha: Fx },
    /// Clip further drawing to the path.
    PushClip { path: Vec<PathOp> },
    /// Drop one clip level.
    PopClip,
}

/// The current paint configuration.
#[derive(Clone, PartialEq, Debug)]
pub struct RenderConfig {
    pub fill_style: Brush,
    pub stroke_style: Brush,
    pub line_width: Fx,
    /// Global alpha as a unit fraction.
    pub alpha: Fx,
    pub font_size: Fx,
}

/// Structural equality of brushes at the view level.
pub open spec fn brush_eq(a: Brush, b: Brush) -> bool {
    match (a, b) {
        (Brush::SolidColor(c1), Brush::SolidColor(c2)) => c1 == c2,
        (Brush::Gradient(g1), Brush::Gradient(g2)) => g1.kind == g2.kind && g1.repeat == g2.repeat
            && g1.stops@ == g2.stops@,
        _ => false,
    }
}

/// Structural equality of paint configurations.
pub open spec fn config_eq(a: RenderConfig, b: RenderConfig) -> bool {
    &&& brush_eq(a.fill_style, b.fill_style)
    &&& brush_eq(a.stroke_style, b.stroke_style)
    &&& a.line_width == b.line_width
    &&& a.alpha == b.alpha
    &&& a.font_size == b.font_size
}

/// The color text is painted with: a solid fill brush with visible alpha,
/// or nothing.
pub open spec fn solid_text_color(b: Brush) -> Option<Color> {
    match b {
        Brush::SolidColor(c) => if c.alpha != 0 {
            Some(c)
        } else {
            None
        },
        Brush::Gradient(_) => None,
    }
}

/// A brush the context accepts: a gradient must have at least one stop.
pub open spec fn brush_ok(b: Brush) -> bool {
    b matches Brush::Gradient(g) ==> g.stops@.len() >= 1
}

/// Copies a stop list.
fn clone_stops(v: &Vec<GradientStop>) -> (r: Vec<GradientStop>)
    ensures
        r@ == v@,
{
    let mut out: Vec<GradientStop> = Vec::new();
    let mut i: usize = 0;
    while i < v.len()
        invariant
            0 <= i <= v@.len(),
            out@.len() == i,
            forall|k: int| 0 <= k < i ==> out@[k] == v@[k],
        decreases v@.len() - i,
    {
        out.push(v[i]);
        i = i + 1;
    }
    proof {
        assert(out@ =~= v@);
    }
    out
}

/// Copies a brush.
fn clone_brush(b: &Brush) -> (r: Brush)
    ensures
        brush_eq(*b, r),
        brush_ok(*b) ==> brush_ok(r),
{
    match b {
        Brush::SolidColor(c) => Brush::SolidColor(*c),
        Brush::Gradient(g) => Brush::Gradient(
            crate::gradient::Gradient {
                kind: g.kind,
                stops: clone_stops(&g.stops),
                repeat: g.repeat,
            },
        ),
    }
}

/// Copies a paint configuration.
fn clone_config(c: &RenderConfig) -> (r: RenderConfig)
    ensures
        config_eq(*c, r),
        brush_ok(c.fill_style) ==> brush_ok(r.fill_style),
        brush_ok(c.stroke_style) ==> brush_ok(r.stroke_style),
{
    RenderConfig {
        fill_style: clone_brush(&c.fill_style),
        stroke_style: clone_brush(&c.stroke_style),
        line_width: c.line_width,
        alpha: c.alpha,
        font_size: c.font_size,
    }
}

/// Copies a path.
fn clone_path(v: &Vec<PathOp>) -> (r: Vec<PathOp>)
    ensures
        r@ == v@,
{
    let mut out: Vec<PathOp> = Vec::new();
    let mut i: usize = 0;
    while i < v.len()
        invariant
            0 <= i <= v@.len(),
            out@.len() == i,
            forall|k: int| 0 <= k < i ==> out@[k] == v@[k],
        decreases v@.len() - i,
    {
        let op = match &v[i] {
            PathOp::MoveTo(p) => PathOp::MoveTo(*p),
            PathOp::LineTo(p) => PathOp::LineTo(*p),
            PathOp::QuadTo(c1, e) => PathOp::QuadTo(*c1, *e),
            PathOp::CubicTo(c1, c2, e) => PathOp::CubicTo(*c1, *c2, *e),
            PathOp::ArcTo(c1, r1, a1, a2) => PathOp::ArcTo(*c1, *r1, *a1, *a2),
            PathOp::Rect(rc) => PathOp::Rect(*rc),
            PathOp::Close => PathOp::Close,
        };
        out.push(op);
        i = i + 1;
    }
    proof {
        assert(out@ =~= v@);
    }
    out
}

/// The retained render context: paint configuration, current path with its
/// tracked bounds, one saved state, the clip state and the recorded command
/// list.
pub struct RenderContext2D {
    pub config: RenderConfig,
    pub path: Vec<PathOp>,
    pub path_rect: PathRectTrack,
    pub saved_state: Option<(RenderConfig, PathRectTrack)>,
    pub clip: bool,
    pub last_rect: Rectangle,
    pub clip_rect: Option<Rectangle>,
    pub background: Color,
    pub commands: Vec<DrawCommand>,
}

impl RenderContext2D {
    /// The context's internal consistency: trackers ordered and brushes
    /// acceptable, in the live and the saved state.
    pub open spec fn wf(self) -> bool {
        &&& self.path_rect.wf()
        &&& brush_ok(self.config.fill_style)
        &&& brush_ok(self.config.stroke_style)
        &&& (self.saved_state matches Some(st) ==> (st.1.wf() && brush_ok(st.0.fill_style)
            && brush_ok(st.0.stroke_style)))
    }

    /// A fresh context over a target of the given extent.
    pub fn new(width: Fx, height: Fx) -> (r: RenderContext2D)
        ensures
            r.wf(),
            r.path@.len() == 0,
            r.commands@.len() == 0,
            !r.path_rect.has_bounds,
            r.saved_state matches Option::<(RenderConfig, PathRectTrack)>::None,
            !r.clip,
            r.last_rect == (Rectangle {
                x: Fx { raw: 0 },
                y: Fx { raw: 0 },
                width,
                height,
            }),
    {
        RenderContext2D {
            config: RenderConfig {
                fill_style: Brush::SolidColor(Color { red: 0, green: 0, blue: 0, alpha: 0 }),
                stroke_style: Brush::SolidColor(Color { red: 0, green: 0, blue: 0, alpha: 0 }),
                line_width: Fx { raw: 1_000_000 },
                alpha: Fx { raw: 1_000_000 },
                font_size: Fx { raw: 14_000_000 },
            },
            path: Vec::new(),
            path_rect: PathRectTrack::new(false),
            saved_state: None,
            clip: false,
            last_rect: Rectangle { x: Fx { raw: 0 }, y: Fx { raw: 0 }, width, height },
            clip_rect: None,
            background: Color { red: 0, green: 0, blue: 0, alpha: 0 },
            commands: Vec::new(),
        }
    }

    /// Starts a new path: the op list empties and the tracked bounds reset,
    /// keeping only the clip flag.
    pub fn begin_path(&mut self)
        requires
            old(self).wf(),
        ensures
            final(self).wf(),
            final(self).path@.len() == 0,
            !final(self).path_rect.has_bounds,
            final(self).path_rect.last == Option::<Point>::None,
            final(self).path_rect.clip == old(self).path_rect.clip,
            final(self).config == old(self).config,
            final(self).saved_state == old(self).saved_state,
            final(self).clip == old(self).clip,
            final(self).clip_rect == old(self).clip_rect,
            final(self).last_rect == old(self).last_rect,
            final(self).background == old(self).background,
            final(self).commands@ == old(self).commands@,
    {
        self.path = Vec::new();
        let keep = self.path_rect.get_clip();
        self.path_rect = PathRectTrack::new(keep);
    }

    /// Begins a new sub-path at a point.
    pub fn move_to(&mut self, x: Fx, y: Fx)
        requires
            old(self).wf(),
        ensures
            final(self).wf(),
            final(self).path@ == old(self).path@.push(PathOp::MoveTo(Point { x, y })),
            final(self).path_rect == (crate::bounds::PathRectTrack {
                last: Some(Point { x, y }),
                ..crate::bounds::point_folded(old(self).path_rect, Point { x, y })
            }),
            final(self).config == old(self).config,
            final(self).saved_state == old(self).saved_state,
            final(self).clip == old(self).clip,
            final(self).clip_rect == old(self).clip_rect,
            final(self).last_rect == old(self).last_rect,
            final(self).background == old(self).background,
            final(self).commands@ == old(self).commands@,
    {
        self.path.push(PathOp::MoveTo(Point { x, y }));
        self.path_rect.record_point_at(x, y);
    }

    /// Adds a straight segment to a point.
    pub fn line_to(&mut self, x: Fx, y: Fx)
        requires
            old(self).wf(),
        ensures
            final(self).wf(),
            final(self).path@ == old(self).path@.push(PathOp::LineTo(Point { x, y })),
            final(self).path_rect == (crate::bounds::PathRectTrack {
                last: Some(Point { x, y }),
                ..crate::bounds::point_folded(old(self).path_rect, Point { x, y })
            }),
            final(self).config == old(self).config,
            final(self).saved_state == old(self).saved_state,
            final(self).clip == old(self).clip,
            final(self).clip_rect == old(self).clip_rect,
            final(self).last_rect == old(self).last_rect,
            final(self).background == old(self).background,
            final(self).commands@ == old(self).commands@,
    {
        self.path.push(PathOp::LineTo(Point { x, y }));
        self.path_rect.record_point_at(x, y);
    }

    /// Adds a quadratic curve to the sub-path.
    pub fn quadratic_curve_to(&mut self, cpx: Fx, cpy: Fx, x: Fx, y: Fx)
        requires
            old(self).wf(),
        ensures
            final(self).wf(),
            final(self).path@ == old(self).path@.push(
                PathOp::QuadTo(Point { x: cpx, y: cpy }, Point { x, y }),
            ),
            ({
                let p0 = match old(self).path_rect.last {
                    Some(p) => p,
                    None => Point { x: cpx, y: cpy },
                };
                final(self).path_rect == (crate::bounds::PathRectTrack {
                    last: Some(Point { x, y }),
                    ..crate::bounds::rect_folded(
                        old(self).path_rect,
                        crate::bounds::quad_rect_spec(
                            p0,
                            Point { x: cpx, y: cpy },
                            Point { x, y },
                        ),
                    )
                })
            }),
            final(self).config == old(self).config,
            final(self).saved_state == old(self).saved_state,
            final(self).clip == old(self).clip,
            final(self).clip_rect == old(self).clip_rect,
            final(self).last_rect == old(self).last_rect,
            final(self).background == old(self).background,
            final(self).commands@ == old(self).commands@,
    {
        self.path.push(PathOp::QuadTo(Point { x: cpx, y: cpy }, Point { x, y }));
        self.path_rect.record_quadratic_curve_to(Point { x: cpx, y: cpy }, Point { x, y });
    }

    /// Adds a cubic curve to the sub-path.
    pub fn bezier_curve_to(&mut self, cp1x: Fx, cp1y: Fx, cp2x: Fx, cp2y: Fx, x: Fx, y: Fx)
        requires
            old(self).wf(),
        ensures
            final(self).wf(),
            final(self).path@ == old(self).path@.push(
                PathOp::CubicTo(
                    Point { x: cp1x, y: cp1y },
                    Point { x: cp2x, y: cp2y },
                    Point { x, y },
                ),
            ),
            ({
                let p0 = match old(self).path_rect.last {
                    Some(p) => p,
                    None => Point { x: cp1x, y: cp1y },
                };
                final(self).path_rect == (crate::bounds::PathRectTrack {
                    last: Some(Point { x, y }),
                    ..crate::bounds::rect_folded(
                        old(self).path_rect,
                        crate::bounds::cubic_rect_spec(
                            p0,
                            Point { x: cp1x, y: cp1y },
                            Point { x: cp2x, y: cp2y },
                            Point { x, y },
                        ),
                    )
                })
            }),
            final(self).config == old(self).config,
            final(self).saved_state == old(self).saved_state,
            final(self).clip == old(self).clip,
            final(self).clip_rect == old(self).clip_rect,
            final(self).last_rect == old(self).last_rect,
            final(self).background == old(self).background,
            final(self).commands@ == old(self).commands@,
    {
        self.path.push(
            PathOp::CubicTo(Point { x: cp1x, y: cp1y }, Point { x: cp2x, y: cp2y }, Point { x, y }),
        );
        self.path_rect.record_bezier_curve_to(
            Point { x: cp1x, y: cp1y },
            Point { x: cp2x, y: cp2y },
            Point { x, y },
        );
    }

    /// Adds a circular arc; angles are in degrees.
    pub fn arc(&mut self, x: Fx, y: Fx, radius: Fx, start_deg: Fx, end_deg: Fx)
        requires
            old(self).wf(),
        ensures
            final(self).wf(),
            final(self).path@ == old(self).path@.push(
                PathOp::ArcTo(Point { x, y }, radius, start_deg, end_deg),
            ),
            final(self).path_rect == (crate::bounds::PathRectTrack {
                last: Some(crate::bounds::arc_end_point(x, y, radius, end_deg)),
                ..crate::bounds::rect_folded(
                    old(self).path_rect,
                    crate::bounds::arc_rect_spec(x, y, radius, start_deg, end_deg),
                )
            }),
            final(self).config == old(self).config,
            final(self).saved_state == old(self).saved_state,
            final(self).clip == old(self).clip,
            final(self).clip_rect == old(self).clip_rect,
            final(self).last_rect == old(self).last_rect,
            final(self).background == old(self).background,
            final(self).commands@ == old(self).commands@,
    {
        self.path.push(PathOp::ArcTo(Point { x, y }, radius, start_deg, end_deg));
        self.path_rect.record_arc(x, y, radius, start_deg, end_deg);
    }

    /// Adds an axis-aligned rectangle, remembered as the last rectangle for
    /// the text-clipping fast path.
    pub fn rect(&mut self, x: Fx, y: Fx, width: Fx, height: Fx)
        requires
            old(self).wf(),
        ensures
            final(self).wf(),
            final(self).path@ == old(self).path@.push(
                PathOp::Rect(
                    Rectangle {
                        x,
                        y,
                        width: Fx { raw: if width.raw >= 0 { width.raw } else { 0 } },
                        height: Fx { raw: if height.raw >= 0 { height.raw } else { 0 } },
                    },
                ),
            ),
            final(self).last_rect == (Rectangle {
                x,
                y,
                width: Fx { raw: if width.raw >= 0 { width.raw } else { 0 } },
                height: Fx { raw: if height.raw >= 0 { height.raw } else { 0 } },
            }),
            final(self).path_rect == (crate::bounds::PathRectTrack {
                last: Some(Point { x, y }),
                ..crate::bounds::rect_folded(
                    old(self).path_rect,
                    Rectangle {
                        x,
                        y,
                        width: Fx { raw: if width.raw >= 0 { width.raw } else { 0 } },
                        height: Fx { raw: if height.raw >= 0 { height.raw } else { 0 } },
                    },
                )
            }),
            final(self).config == old(self).config,
            final(self).saved_state == old(self).saved_state,
            final(self).clip == old(self).clip,
            final(self).clip_rect == old(self).clip_rect,
            final(self).background == old(self).background,
            final(self).commands@ == old(self).commands@,
    {
        let rc = Rectangle::new(x, y, width, height);
        self.path.push(PathOp::Rect(rc));
        self.last_rect = rc;
        self.path_rect.record_rect(x, y, width, height);
    }

    /// Closes the sub-path; the bounds do not change, since the start point
    /// is already included.
    pub fn close_path(&mut self)
        requires
            old(self).wf(),
        ensures
            final(self).wf(),
            final(self).path@ == old(self).path@.push(PathOp::Close),
            final(self).path_rect == old(self).path_rect,
            final(self).config == old(self).config,
            final(self).saved_state == old(self).saved_state,
            final(self).clip == old(self).clip,
            final(self).clip_rect == old(self).clip_rect,
            final(self).last_rect == old(self).last_rect,
            final(self).background == old(self).background,
            final(self).commands@ == old(self).commands@,
    {
        self.path.push(PathOp::Close);
        self.path_rect.close_path();
    }

    /// Sets the fill brush.
    pub fn set_fill_style(&mut self, fill_style: Brush)
        requires
            old(self).wf(),
            brush_ok(fill_style),
        ensures
            final(self).wf(),
            *final(self) == (RenderContext2D {
                config: RenderConfig { fill_style, ..old(self).config },
                ..*old(self)
            }),
    {
        self.config.fill_style = fill_style;
    }

    /// Sets the stroke brush.
    pub fn set_stroke_style(&mut self, stroke_style: Brush)
        requires
            old(self).wf(),
            brush_ok(stroke_style),
        ensures
            final(self).wf(),
            *final(self) == (RenderContext2D {
                config: RenderConfig { stroke_style, ..old(self).config },
                ..*old(self)
            }),
    {
        self.config.stroke_style = stroke_style;
    }

    /// Sets the line width used by strokes.
    pub fn set_line_width(&mut self, line_width: Fx)
        requires
            old(self).wf(),
        ensures
            final(self).wf(),
            *final(self) == (RenderContext2D {
                config: RenderConfig { line_width, ..old(self).config },
                ..*old(self)
            }),
    {
        self.config.line_width = line_width;
    }

    /// Sets the global alpha.
    pub fn set_alpha(&mut self, alpha: Fx)
        requires
            old(self).wf(),
        ensures
            final(self).wf(),
            *final(self) == (RenderContext2D {
                config: RenderConfig { alpha, ..old(self).config },
                ..*old(self)
            }),
    {
        self.config.alpha = alpha;
    }

    /// Sets the font size; the configured size sits four units above the
    /// requested one.
    pub fn set_font_size(&mut self, size: Fx)
        requires
            old(self).wf(),
        ensures
            final(self).wf(),
            *final(self) == (RenderContext2D {
                config: RenderConfig {
                    font_size: Fx { raw: sat64(size.raw + 4_000_000) as i64 },
                    ..old(self).config
                },
                ..*old(self)
            }),
    {
        self.config.font_size = size.add(Fx { raw: 4_000_000 });
    }

    /// Sets the background used by `start`.
    pub fn set_background(&mut self, background: Color)
        requires
            old(self).wf(),
        ensures
            final(self).wf(),
            *final(self) == (RenderContext2D { background, ..*old(self) }),
    {
        self.background = background;
    }

    /// Snapshots the paint configuration and the path bounds tracker.
    pub fn save(&mut self)
        requires
            old(self).wf(),
        ensures
            final(self).wf(),
            final(self).saved_state matches Some(st) && config_eq(st.0, old(self).config) && st.1
                == old(self).path_rect,
            final(self).config == old(self).config,
            final(self).path@ == old(self).path@,
            final(self).path_rect == old(self).path_rect,
            final(self).clip == old(self).clip,
            final(self).clip_rect == old(self).clip_rect,
            final(self).last_rect == old(self).last_rect,
            final(self).background == old(self).background,
            final(self).commands@ == old(self).commands@,
    {
        let snap = clone_config(&self.config);
        self.saved_state = Some((snap, self.path_rect));
    }

    /// Restores the snapshot, if any, and pops one clip level regardless —
    /// the clip stack is deliberately independent of the saved state.
    pub fn restore(&mut self)
        requires
            old(self).wf(),
        ensures
            final(self).wf(),
            !final(self).clip,
            final(self).clip_rect matches Option::<Rectangle>::None,
            final(self).commands@ == old(self).commands@.push(DrawCommand::PopClip),
            old(self).saved_state matches Some(st) ==> (config_eq(final(self).config, st.0)
                && final(self).path_rect == st.1 && final(self).saved_state matches Option::<
                (RenderConfig, PathRectTrack),
            >::None),
            old(self).saved_state matches Option::<(RenderConfig, PathRectTrack)>::None ==> (
            config_eq(final(self).config, old(self).config) && final(self).path_rect == old(self).path_rect),
            final(self).saved_state matches Option::<(RenderConfig, PathRectTrack)>::None,
            final(self).path@ == old(self).path@,
            final(self).last_rect == old(self).last_rect,
            final(self).background == old(self).background,
    {
        self.clip = false;
        self.clip_rect = None;
        self.commands.push(DrawCommand::PopClip);
        let taken = self.saved_state.take();
        match taken {
            Some((config, path_rect)) => {
                self.config = config;
                self.path_rect = path_rect;
            },
            None => {},
        }
    }

    /// Clips further drawing to the current path, remembering the last
    /// rectangle as a fast path for text clipping.
    pub fn clip(&mut self)
        requires
            old(self).wf(),
        ensures
            final(self).wf(),
            final(self).clip,
            final(self).clip_rect == Some(old(self).last_rect),
            final(self).path_rect == (crate::bounds::PathRectTrack {
                clip: true,
                ..old(self).path_rect
            }),
            final(self).config == old(self).config,
            final(self).saved_state == old(self).saved_state,
            final(self).path@ == old(self).path@,
            final(self).last_rect == old(self).last_rect,
            final(self).background == old(self).background,
            final(self).commands@.len() == old(self).commands@.len() + 1,
            final(self).commands@.subrange(0, old(self).commands@.len() as int) == old(self).commands@,
            final(self).commands@.last() matches DrawCommand::PushClip { path } && path@ == old(self).path@,
    {
        self.clip_rect = Some(self.last_rect);
        self.clip = true;
        let snapshot = clone_path(&self.path);
        self.commands.push(DrawCommand::PushClip { path: snapshot });
        self.path_rect.set_clip(true);
        proof {
            assert(self.commands@.subrange(0, old(self).commands@.len() as int) =~= old(self).commands@);
        }
    }

    /// Clears the whole target: a solid brush clears to its color, anything
    /// else to the documented fallback color.
    pub fn clear(&mut self, brush: &Brush)
        requires
            old(self).wf(),
        ensures
            final(self).wf(),
            final(self).commands@ == old(self).commands@.push(
                DrawCommand::Clear {
                    color: match *brush {
                        Brush::SolidColor(c) => c,
                        _ => Color { red: 0u8, green: 0u8, blue: 0x80u8, alpha: 0x80u8 },
                    },
                },
            ),
            final(self).config == old(self).config,
            final(self).saved_state == old(self).saved_state,
            final(self).path@ == old(self).path@,
            final(self).path_rect == old(self).path_rect,
            final(self).clip == old(self).clip,
            final(self).clip_rect == old(self).clip_rect,
            final(self).last_rect == old(self).last_rect,
            final(self).background == old(self).background,
    {
        let color = match brush {
            Brush::SolidColor(c) => *c,
            _ => Color { red: 0, green: 0, blue: 0x80, alpha: 0x80 },
        };
        self.commands.push(DrawCommand::Clear { color });
    }

    /// Fills the current path: resolves the fill brush against the tracked
    /// path bounds and records the draw. An empty path is a no-op; an
    /// unsupported brush is reported and changes nothing.
    pub fn fill(&mut self) -> (r: Result<(), ResolveError>)
        requires
            old(self).wf(),
        ensures
            final(self).wf(),
            !old(self).path_rect.has_bounds ==> (r == Ok::<(), ResolveError>(()) && final(self).commands@ == old(self).commands@),
            final(self).path@ == old(self).path@,
            final(self).path_rect == old(self).path_rect,
            final(self).config == old(self).config,
            final(self).saved_state == old(self).saved_state,
            final(self).clip == old(self).clip,
            final(self).clip_rect == old(self).clip_rect,
            final(self).last_rect == old(self).last_rect,
            final(self).background == old(self).background,
            old(self).path_rect.has_bounds ==> ({
                let frame = Rectangle {
                    x: old(self).path_rect.min_x,
                    y: old(self).path_rect.min_y,
                    width: Fx {
                        raw: sat64(
                            old(self).path_rect.max_x.raw - old(self).path_rect.min_x.raw,
                        ) as i64,
                    },
                    height: Fx {
                        raw: sat64(
                            old(self).path_rect.max_y.raw - old(self).path_rect.min_y.raw,
                        ) as i64,
                    },
                };
                &&& (r matches Err(e) ==> (resolves_to(old(self).config.fill_style, frame, Err(e))
                    && final(self).commands@ == old(self).commands@))
                &&& (r == Ok::<(), ResolveError>(()) ==> exists|o: Option<DeviceSource>|
                    resolves_to(old(self).config.fill_style, frame, Ok(o)) && (match o {
                        Option::Some(src) => final(self).commands@.len() == old(self).commands@.len() + 1 && final(self).commands@.subrange(
                            0,
                            old(self).commands@.len() as int,
                        ) == old(self).commands@ && (final(self).commands@.last()
                            matches DrawCommand::Fill { path, source, alpha } && path@ == old(self).path@ && source == src && alpha == old(self).config.alpha),
                        Option::None => final(self).commands@ == old(self).commands@,
                    }))
            }),
    {
        let frame_opt = self.path_rect.get_rect();
        let frame = match frame_opt {
            Some(f) => f,
            None => {
                return Ok(());
            },
        };
        let resolved = resolve_brush(&self.config.fill_style, frame);
        match resolved {
            Ok(Some(src)) => {
                let snapshot = clone_path(&self.path);
                self.commands.push(
                    DrawCommand::Fill { path: snapshot, source: src, alpha: self.config.alpha },
                );
                proof {
                    assert(self.commands@.subrange(0, old(self).commands@.len() as int) =~= old(self).commands@);
                }
                Ok(())
            },
            Ok(None) => Ok(()),
            Err(e) => Err(e),
        }
    }

    /// Strokes the current path outline, resolving the stroke brush against
    /// the tracked path bounds. An empty path is a no-op; an unsupported
    /// brush is reported and changes nothing.
    pub fn stroke(&mut self) -> (r: Result<(), ResolveError>)
        requires
            old(self).wf(),
        ensures
            final(self).wf(),
            !old(self).path_rect.has_bounds ==> (r == Ok::<(), ResolveError>(()) && final(self).commands@ == old(self).commands@),
            final(self).path@ == old(self).path@,
            final(self).path_rect == old(self).path_rect,
            final(self).config == old(self).config,
            final(self).saved_state == old(self).saved_state,
            final(self).clip == old(self).clip,
            final(self).clip_rect == old(self).clip_rect,
            final(self).last_rect == old(self).last_rect,
            final(self).background == old(self).background,
            old(self).path_rect.has_bounds ==> ({
                let frame = Rectangle {
                    x: old(self).path_rect.min_x,
                    y: old(self).path_rect.min_y,
                    width: Fx {
                        raw: sat64(
                            old(self).path_rect.max_x.raw - old(self).path_rect.min_x.raw,
                        ) as i64,
                    },
                    height: Fx {
                        raw: sat64(
                            old(self).path_rect.max_y.raw - old(self).path_rect.min_y.raw,
                        ) as i64,
                    },
                };
                &&& (r matches Err(e) ==> (resolves_to(
                    old(self).config.stroke_style,
                    frame,
                    Err(e),
                ) && final(self).commands@ == old(self).commands@))
                &&& (r == Ok::<(), ResolveError>(()) ==> exists|o: Option<DeviceSource>|
                    resolves_to(old(self).config.stroke_style, frame, Ok(o)) && (match o {
                        Option::Some(src) => final(self).commands@.len() == old(self).commands@.len() + 1 && final(self).commands@.subrange(
                            0,
                            old(self).commands@.len() as int,
                        ) == old(self).commands@ && (final(self).commands@.last()
                            matches DrawCommand::Stroke { path, source, line_width, alpha }
                            && path@ == old(self).path@ && source == src && line_width == old(self).config.line_width && alpha == old(self).config.alpha),
                        Option::None => final(self).commands@ == old(self).commands@,
                    }))
            }),
    {
        let frame_opt = self.path_rect.get_rect();
        let frame = match frame_opt {
            Some(f) => f,
            None => {
                return Ok(());
            },
        };
        let resolved = resolve_brush(&self.config.stroke_style, frame);
        match resolved {
            Ok(Some(src)) => {
                let snapshot = clone_path(&self.path);
                self.commands.push(
                    DrawCommand::Stroke {
                        path: snapshot,
                        source: src,
                        line_width: self.config.line_width,
                        alpha: self.config.alpha,
                    },
                );
                proof {
                    assert(self.commands@.subrange(0, old(self).commands@.len() as int) =~= old(self).commands@);
                }
                Ok(())
            },
            Ok(None) => Ok(()),
            Err(e) => Err(e),
        }
    }

    /// Draws a run of text at a position with the fill color. Empty text, a
    /// transparent color, a zero alpha or a non-solid fill brush draw
    /// nothing; the non-solid case reports no error, matching the fallback
    /// of painting nothing visible.
    pub fn fill_text(&mut self, text: &Vec<char>, x: Fx, y: Fx)
        requires
            old(self).wf(),
        ensures
            final(self).wf(),
            (text@.len() == 0 || old(self).config.alpha.raw == 0 || solid_text_color(
                old(self).config.fill_style,
            ) is None) ==> final(self).commands@ == old(self).commands@,
            (text@.len() > 0 && old(self).config.alpha.raw != 0) ==> (solid_text_color(
                old(self).config.fill_style,
            ) matches Some(c) ==> (final(self).commands@.len() == old(self).commands@.len() + 1
                && final(self).commands@.subrange(0, old(self).commands@.len() as int) == old(self).commands@ && (final(self).commands@.last() matches DrawCommand::FillText {
                text: t,
                position,
                color,
                size,
                alpha,
            } && t@ == text@ && position == (Point { x, y }) && color == c && size == old(self).config.font_size && alpha == old(self).config.alpha))),
            final(self).config == old(self).config,
            final(self).saved_state == old(self).saved_state,
            final(self).path@ == old(self).path@,
            final(self).path_rect == old(self).path_rect,
            final(self).clip == old(self).clip,
            final(self).clip_rect == old(self).clip_rect,
            final(self).last_rect == old(self).last_rect,
            final(self).background == old(self).background,
    {
        if text.len() == 0 {
            return ;
        }
        let color = match &self.config.fill_style {
            Brush::SolidColor(c) => *c,
            _ => {
                return ;
            },
        };
        if color.a() == 0 || self.config.alpha.raw == 0 {
            return ;
        }
        let mut copy: Vec<char> = Vec::new();
        let mut i: usize = 0;
        while i < text.len()
            invariant
                0 <= i <= text@.len(),
                copy@.len() == i,
                forall|k: int| 0 <= k < i ==> copy@[k] == text@[k],
            decreases text@.len() - i,
        {
            copy.push(text[i]);
            i = i + 1;
        }
        proof {
            assert(copy@ =~= text@);
        }
        self.commands.push(
            DrawCommand::FillText {
                text: copy,
                position: Point { x, y },
                color,
                size: self.config.font_size,
                alpha: self.config.alpha,
            },
        );
        proof {
            assert(self.commands@.subrange(0, old(self).commands@.len() as int) =~= old(self).commands@);
        }
    }

    /// Hands the recorded commands to a backend, leaving the list empty.
    pub fn take_commands(&mut self) -> (r: Vec<DrawCommand>)
        requires
            old(self).wf(),
        ensures
            final(self).wf(),
            r@ == old(self).commands@,
            final(self).commands@.len() == 0,
            final(self).config == old(self).config,
            final(self).saved_state == old(self).saved_state,
            final(self).path@ == old(self).path@,
            final(self).path_rect == old(self).path_rect,
            final(self).clip == old(self).clip,
            final(self).clip_rect == old(self).clip_rect,
            final(self).last_rect == old(self).last_rect,
            final(self).background == old(self).background,
    {
        let mut out: Vec<DrawCommand> = Vec::new();
        core::mem::swap(&mut out, &mut self.commands);
        out
    }

    /// Clears the target to the configured background.
    pub fn start(&mut self)
        requires
            old(self).wf(),
        ensures
            final(self).wf(),
            final(self).commands@ == old(self).commands@.push(
                DrawCommand::Clear { color: old(self).background },
            ),
            final(self).config == old(self).config,
            final(self).saved_state == old(self).saved_state,
            final(self).path@ == old(self).path@,
            final(self).path_rect == old(self).path_rect,
            final(self).clip == old(self).clip,
            final(self).clip_rect == old(self).clip_rect,
            final(self).last_rect == old(self).last_rect,
            final(self).background == old(self).background,
    {
        let bg = self.background;
        self.commands.push(DrawCommand::Clear { color: bg });
    }
}

} // verus!
