//! Points, sizes and rectangles over the fixed-point scalar.

use vstd::prelude::*;
use crate::fixed::{sat64, tdiv, Fx};

verus! {

/// A position on the plane.
#[derive(Clone, Copy, PartialEq, Eq, Structural, Debug)]
pub struct Point {
    pub x: Fx,
    pub y: Fx,
}

/// A width/height pair.
#[derive(Clone, Copy, PartialEq, Eq, Structural, Debug)]
pub struct Size {
    pub width: Fx,
    pub height: Fx,
}

/// An axis-aligned rectangle; width and height are never negative.
#[derive(Clone, Copy, PartialEq, Eq, Structural, Debug)]
pub struct Rectangle {
    pub x: Fx,
    pub y: Fx,
    pub width: Fx,
    pub height: Fx,
}

/// Raw distance between two raw coordinate pairs: the floor square root of
/// the sum of squares of the saturated differences.
pub open spec fn distance_raw(ax: int, ay: int, bx: int, by: int) -> int {
    sat64(sqrt_floor(sat64(ax - bx) * sat64(ax - bx) + sat64(ay - by) * sat64(ay - by)))
}

/// Floor of the square root of `n`.
pub open spec fn sqrt_floor(n: int) -> int
    recommends
        n >= 0,
{
    choose|r: int| 0 <= r && #[trigger] (r * r) <= n < (r + 1) * (r + 1)
}

/// Floor square root by binary search over the possible roots.
pub(crate) fn isqrt_u128(n: u128) -> (r: u128)
    ensures
        r * r <= n < (r + 1) * (r + 1),
        r <= 0xffffffffffffffff,
{
    let mut lo: u128 = 0;
    let mut hi: u128 = 0xffffffffffffffff;
    proof {
        assert((0xffffffffffffffffu128 + 1) * (0xffffffffffffffffu128 + 1) > n) by (nonlinear_arith);
    }
    while lo < hi
        invariant
            lo <= hi <= 0xffffffffffffffff,
            lo * lo <= n,
            (hi + 1) * (hi + 1) > n,
        decreases hi - lo,
    {
        let mid: u128 = lo + (hi - lo + 1) / 2;
        assert(lo < mid <= hi);
        assert(mid * mid <= 0xffffffffffffffffffffffffffffffff) by (nonlinear_arith)
            requires
                mid <= 0xffffffffffffffff,
        ;
        let sq: u128 = mid * mid;
        if sq <= n {
            lo = mid;
        } else {
            hi = mid - 1;
        }
    }
    lo
}

/// The chosen witness in `sqrt_floor` is the one the search finds.
pub(crate) proof fn lemma_sqrt_floor_unique(n: int, r: int)
    requires
        0 <= r,
        r * r <= n,
        n < (r + 1) * (r + 1),
    ensures
        sqrt_floor(n) == r,
{
    assert(r * r <= n < (r + 1) * (r + 1));
    let w = choose|w: int| 0 <= w && #[trigger] (w * w) <= n < (w + 1) * (w + 1);
    assert(0 <= w && w * w <= n < (w + 1) * (w + 1));
    if w < r {
        assert((w + 1) * (w + 1) <= r * r) by (nonlinear_arith)
            requires
                0 <= w < r,
        ;
    }
    if w > r {
        assert((r + 1) * (r + 1) <= w * w) by (nonlinear_arith)
            requires
                0 <= r < w,
        ;
    }
}

impl Point {
    /// A point from its two coordinates.
    pub fn new(x: Fx, y: Fx) -> (r: Point)
        ensures
            r == (Point { x, y }),
    {
        Point { x, y }
    }

    /// Componentwise saturating addition.
    pub fn add(self, o: Point) -> (r: Point)
        ensures
            r.x.raw as int == sat64(self.x.raw + o.x.raw),
            r.y.raw as int == sat64(self.y.raw + o.y.raw),
    {
        Point { x: self.x.add(o.x), y: self.y.add(o.y) }
    }

    /// Componentwise saturating subtraction.
    pub fn sub(self, o: Point) -> (r: Point)
        ensures
            r.x.raw as int == sat64(self.x.raw - o.x.raw),
            r.y.raw as int == sat64(self.y.raw - o.y.raw),
    {
        Point { x: self.x.sub(o.x), y: self.y.sub(o.y) }
    }

    /// Componentwise saturating negation.
    pub fn neg(self) -> (r: Point)
        ensures
            r.x.raw as int == sat64(-self.x.raw),
            r.y.raw as int == sat64(-self.y.raw),
    {
        Point { x: self.x.neg(), y: self.y.neg() }
    }

    /// Componentwise minimum.
    pub fn min(self, o: Point) -> (r: Point)
        ensures
            r.x.raw == if self.x.raw <= o.x.raw {
                self.x.raw
            } else {
                o.x.raw
            },
            r.y.raw == if self.y.raw <= o.y.raw {
                self.y.raw
            } else {
                o.y.raw
            },
    {
        Point { x: self.x.min(o.x), y: self.y.min(o.y) }
    }

    /// Componentwise maximum.
    pub fn max(self, o: Point) -> (r: Point)
        ensures
            r.x.raw == if self.x.raw >= o.x.raw {
                self.x.raw
            } else {
                o.x.raw
            },
            r.y.raw == if self.y.raw >= o.y.raw {
                self.y.raw
            } else {
                o.y.raw
            },
    {
        Point { x: self.x.max(o.x), y: self.y.max(o.y) }
    }

    /// Euclidean distance to `o` over the saturated coordinate differences,
    /// exact to the floor of a raw step.
    pub fn distance(self, o: Point) -> (r: Fx)
        ensures
            r.raw as int == distance_raw(
                self.x.raw as int,
                self.y.raw as int,
                o.x.raw as int,
                o.y.raw as int,
            ),
            r.raw >= 0,
    {
        let dx: Fx = self.x.sub(o.x);
        let dy: Fx = self.y.sub(o.y);
        let dxm: u128 = if dx.raw >= 0 {
            dx.raw as u128
        } else if dx.raw == i64::MIN {
            0x8000000000000000u128
        } else {
            (-dx.raw) as u128
        };
        let dym: u128 = if dy.raw >= 0 {
            dy.raw as u128
        } else if dy.raw == i64::MIN {
            0x8000000000000000u128
        } else {
            (-dy.raw) as u128
        };
        proof {
            assert(dxm * dxm <= 0x40000000000000000000000000000000
                && dym * dym <= 0x40000000000000000000000000000000
                && dxm * dxm == dx.raw as int * dx.raw as int
                && dym * dym == dy.raw as int * dy.raw as int) by (nonlinear_arith)
                requires
                    dxm <= 0x8000000000000000,
                    dym <= 0x8000000000000000,
                    dxm == crate::fixed::iabs(dx.raw as int),
                    dym == crate::fixed::iabs(dy.raw as int),
            ;
        }
        let sq: u128 = dxm * dxm + dym * dym;
        let root: u128 = isqrt_u128(sq);
        proof {
            lemma_sqrt_floor_unique(sq as int, root as int);
        }
        let r: i64 = if root > i64::MAX as u128 {
            i64::MAX
        } else {
            root as i64
        };
        Fx { raw: r }
    }
}

impl Size {
    /// A size from width and height.
    pub fn new(width: Fx, height: Fx) -> (r: Size)
        ensures
            r == (Size { width, height }),
    {
        Size { width, height }
    }

    /// Both components halved, rounding toward zero.
    pub fn half(self) -> (r: Size)
        ensures
            r.width.raw as int == tdiv(self.width.raw as int, 2),
            r.height.raw as int == tdiv(self.height.raw as int, 2),
    {
        let w = self.width.div_int(2);
        let h = self.height.div_int(2);
        proof {
            assert(sat64(tdiv(self.width.raw as int, 2)) == tdiv(self.width.raw as int, 2)) by {
                vstd::arithmetic::div_mod::lemma_div_nonincreasing(
                    crate::fixed::iabs(self.width.raw as int),
                    2,
                );
            }
            assert(sat64(tdiv(self.height.raw as int, 2)) == tdiv(self.height.raw as int, 2)) by {
                vstd::arithmetic::div_mod::lemma_div_nonincreasing(
                    crate::fixed::iabs(self.height.raw as int),
                    2,
                );
            }
        }
        Size { width: w, height: h }
    }
}

impl Rectangle {
    /// Whether width and height are non-negative.
    pub open spec fn wf(self) -> bool {
        self.width.raw >= 0 && self.height.raw >= 0
    }

    /// A rectangle from position and size; negative extents are clamped to zero.
    pub fn new(x: Fx, y: Fx, width: Fx, height: Fx) -> (r: Rectangle)
        ensures
            r.x == x,
            r.y == y,
            r.width.raw == if width.raw >= 0 {
                width.raw
            } else {
                0
            },
            r.height.raw == if height.raw >= 0 {
                height.raw
            } else {
                0
            },
            r.wf(),
    {
        Rectangle {
            x,
            y,
            width: width.max(Fx::zero()),
            height: height.max(Fx::zero()),
        }
    }

    /// The top-left corner.
    pub fn position(self) -> (r: Point)
        ensures
            r == (Point { x: self.x, y: self.y }),
    {
        Point { x: self.x, y: self.y }
    }

    /// The extent.
    pub fn size(self) -> (r: Size)
        ensures
            r == (Size { width: self.width, height: self.height }),
    {
        Size { width: self.width, height: self.height }
    }

    /// The midpoint, each axis rounded toward zero.
    pub fn center(self) -> (r: Point)
        ensures
            r.x.raw as int == sat64(self.x.raw + tdiv(self.width.raw as int, 2)),
            r.y.raw as int == sat64(self.y.raw + tdiv(self.height.raw as int, 2)),
    {
        let half = self.size().half();
        Point { x: self.x.add(half.width), y: self.y.add(half.height) }
    }
}

} // verus!
