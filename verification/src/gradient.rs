//! Brushes, gradients and the positions their color stops are declared at.

use vstd::prelude::*;
use crate::color::Color;
use crate::fixed::{fx_div_raw, Fx, FX_ONE};
use crate::geometry::{Point, Size};

verus! {

/// How a position along a line is expressed.
#[derive(Clone, Copy, PartialEq, Eq, Structural, Debug)]
pub enum OnLinePosKind {
    /// A number from 0 to 100, relative to the line's length.
    Percentage,
    /// A length along the line in the line's own unit.
    Pixels,
}

/// A position along a line.
#[derive(Clone, Copy, PartialEq, Eq, Structural, Debug)]
pub struct OnLinePos {
    pub pos: Fx,
    pub kind: OnLinePosKind,
}

/// The raw count of a line position resolved to the line's own unit: pixel
/// positions stand as they are, percentages are scaled by the line length
/// (zero when the line has no length).
pub open spec fn pixels_raw(pos: int, kind: OnLinePosKind, length: int) -> int {
    match kind {
        OnLinePosKind::Pixels => pos,
        OnLinePosKind::Percentage => if length == 0 {
            0
        } else {
            crate::fixed::fx_mul_raw(length, crate::fixed::tdiv(pos, 100))
        },
    }
}

/// The raw count of the fraction of the line a position covers: pixel
/// positions are divided by the line length (zero when the line has no
/// length), percentages by one hundred.
pub open spec fn unit_fraction_raw(pos: int, kind: OnLinePosKind, length: int) -> int {
    match kind {
        OnLinePosKind::Pixels => if length == 0 {
            0
        } else {
            fx_div_raw(pos, length)
        },
        OnLinePosKind::Percentage => crate::fixed::tdiv(pos, 100),
    }
}

impl OnLinePos {
    /// A position from its value and kind.
    pub fn new(pos: Fx, kind: OnLinePosKind) -> (r: OnLinePos)
        ensures
            r == (OnLinePos { pos, kind }),
    {
        OnLinePos { pos, kind }
    }

    /// The position in the line's own unit.
    pub fn pixels(&self, line_length: Fx) -> (r: Fx)
        ensures
            r.raw as int == pixels_raw(self.pos.raw as int, self.kind, line_length.raw as int),
    {
        match self.kind {
            OnLinePosKind::Pixels => self.pos,
            OnLinePosKind::Percentage => {
                if line_length.raw == 0 {
                    Fx::zero()
                } else {
                    line_length.mul(self.pos.div_int(100))
                }
            },
        }
    }

    /// The position as a fraction of the line, in raw millionths.
    pub fn unit_percent(&self, line_length: Fx) -> (r: Fx)
        ensures
            r.raw as int == unit_fraction_raw(self.pos.raw as int, self.kind, line_length.raw as int),
    {
        match self.kind {
            OnLinePosKind::Pixels => {
                if line_length.raw == 0 {
                    Fx::zero()
                } else {
                    self.pos.div(line_length)
                }
            },
            OnLinePosKind::Percentage => self.pos.div_int(100),
        }
    }
}

/// A position on a plane, one line position per axis.
#[derive(Clone, Copy, PartialEq, Eq, Structural, Debug)]
pub struct OnPlanePos {
    pub x: OnLinePos,
    pub y: OnLinePos,
}

impl OnPlanePos {
    /// A plane position from its two axes.
    pub fn new(x: OnLinePos, y: OnLinePos) -> (r: OnPlanePos)
        ensures
            r == (OnPlanePos { x, y }),
    {
        OnPlanePos { x, y }
    }

    /// The position in pixels, each axis resolved against the given size.
    pub fn pixels(&self, size: Size) -> (r: Point)
        ensures
            r.x.raw as int == pixels_raw(self.x.pos.raw as int, self.x.kind, size.width.raw as int),
            r.y.raw as int == pixels_raw(
                self.y.pos.raw as int,
                self.y.kind,
                size.height.raw as int,
            ),
    {
        Point { x: self.x.pixels(size.width), y: self.y.pixels(size.height) }
    }
}

/// Where one color stop sits on the gradient axis.
#[derive(Clone, Copy, PartialEq, Eq, Structural, Debug)]
pub enum StopPosition {
    /// Interpolated between the neighbouring explicit stops.
    Auto,
    /// A fraction of the gradient length, one unit meaning the whole length.
    Fraction(Fx),
    /// A length in the gradient's own unit, divided by the total length.
    Absolute(Fx),
}

/// One color stop of a gradient.
#[derive(Clone, Copy, PartialEq, Eq, Structural, Debug)]
pub struct GradientStop {
    pub pos: StopPosition,
    pub color: Color,
}

/// The eight compass directions a linear gradient can cross its frame in.
#[derive(Clone, Copy, PartialEq, Eq, Structural, Debug)]
pub enum Direction {
    ToTop,
    ToTopRight,
    ToRight,
    ToBottomRight,
    ToBottom,
    ToBottomLeft,
    ToLeft,
    ToTopLeft,
}

/// How the axis of a linear gradient is declared.
#[derive(Clone, Copy, PartialEq, Eq, Structural, Debug)]
pub enum LinearGradientCoords {
    /// Explicit frame-relative start and end points.
    Ends { start: Point, end: Point },
    /// An angle in degrees, measured clockwise from "up", from the frame's
    /// center, plus a displacement.
    Angle { degrees: Fx, displacement: OnPlanePos },
    /// A compass direction across the frame, plus a displacement.
    Direction { direction: Direction, displacement: OnPlanePos },
}

/// How large a radial gradient is, relative to its frame. The boolean forces
/// a circle where an ellipse would otherwise be allowed.
#[derive(Clone, Copy, PartialEq, Eq, Structural, Debug)]
pub enum RadialGradientSize {
    ToClosestSide(bool),
    ToClosestCorner(bool),
    ToFarthestSide(bool),
    ToFarthestCorner(bool),
    Custom(OnPlanePos),
    Radius(OnLinePos),
}

/// Shape and position of a radial gradient.
#[derive(Clone, Copy, PartialEq, Eq, Structural, Debug)]
pub struct RadialGradient {
    pub size: RadialGradientSize,
    pub pos: Option<OnPlanePos>,
}

/// Whether a gradient is linear or radial, with the coordinates of each.
#[derive(Clone, Copy, PartialEq, Eq, Structural, Debug)]
pub enum GradientKind {
    Linear(LinearGradientCoords),
    Radial(RadialGradient),
}

/// A gradient: its axis, its color stops and whether it repeats.
#[derive(Clone, PartialEq, Debug)]
pub struct Gradient {
    pub kind: GradientKind,
    pub stops: Vec<GradientStop>,
    pub repeat: bool,
}

/// How a shape is filled or stroked.
#[derive(Clone, PartialEq, Debug)]
pub enum Brush {
    /// Paints an area with a solid color.
    SolidColor(Color),
    /// Paints an area with a gradient.
    Gradient(Gradient),
}

impl Brush {
    /// Whether the brush paints nothing at all: a solid color with zero alpha.
    pub fn is_transparent(&self) -> (r: bool)
        ensures
            r == match self {
                Brush::SolidColor(color) => color.alpha == 0,
                Brush::Gradient(_) => false,
            },
    {
        match self {
            Brush::SolidColor(color) => color.a() == 0,
            Brush::Gradient(_) => false,
        }
    }
}

impl From<Color> for Brush {
    /// A solid brush of the given color.
    fn from(c: Color) -> (r: Brush) {
        Brush::SolidColor(c)
    }
}

impl vstd::std_specs::convert::FromSpecImpl<Color> for Brush {
    open spec fn obeys_from_spec() -> bool {
        true
    }

    open spec fn from_spec(c: Color) -> Brush {
        Brush::SolidColor(c)
    }
}

impl From<Gradient> for Brush {
    /// A gradient brush.
    fn from(g: Gradient) -> (r: Brush) {
        Brush::Gradient(g)
    }
}

impl vstd::std_specs::convert::FromSpecImpl<Gradient> for Brush {
    open spec fn obeys_from_spec() -> bool {
        true
    }

    open spec fn from_spec(g: Gradient) -> Brush {
        Brush::Gradient(g)
    }
}

impl From<Brush> for Color {
    /// The brush's color; any non-solid brush falls back to opaque black.
    fn from(b: Brush) -> (r: Color) {
        match b {
            Brush::SolidColor(color) => color,
            Brush::Gradient(_) => Color { red: 0, green: 0, blue: 0, alpha: 255 },
        }
    }
}

impl vstd::std_specs::convert::FromSpecImpl<Brush> for Color {
    open spec fn obeys_from_spec() -> bool {
        true
    }

    open spec fn from_spec(b: Brush) -> Color {
        match b {
            Brush::SolidColor(color) => color,
            Brush::Gradient(_) => Color { red: 0u8, green: 0u8, blue: 0u8, alpha: 255u8 },
        }
    }
}

impl Default for Brush {
    /// The default brush paints fully transparent black.
    fn default() -> (r: Self)
        ensures
            r == Brush::SolidColor(Color { red: 0u8, green: 0u8, blue: 0u8, alpha: 0u8 }),
    {
        Brush::SolidColor(Color { red: 0, green: 0, blue: 0, alpha: 0 })
    }
}

} // verus!
