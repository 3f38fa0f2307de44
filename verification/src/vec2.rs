//! A 2D point/vector in integer pixel coordinates, with the component-wise
//! arithmetic and the side-of-line test that the rasterizer is built on.

use vstd::prelude::*;

verus! {

/// A position, rotation, or something else.
#[derive(Clone, Copy, Debug, PartialEq, Eq, Structural)]
pub struct Vec2 {
    /// The X component.
    pub x: i32,
    /// The Y component.
    pub y: i32,
}

/// Orientation of point `p` against the directed line from `a` to `b`:
/// the dot product of `p - a` with the 90-degrees-clockwise rotation of
/// `b - a`, in exact integer arithmetic. Nonnegative exactly when `p` lies
/// on or to the right of the line.
pub open spec fn cross_dir(a: Vec2, b: Vec2, p: Vec2) -> int {
    (p.x - a.x) * (b.y - a.y) - (p.y - a.y) * (b.x - a.x)
}

/// Is `p` on or to the right of the directed line from `a` to `b`?
/// The boundary is inclusive: a point exactly on the line counts as right.
pub open spec fn right_of_line(a: Vec2, b: Vec2, p: Vec2) -> bool {
    cross_dir(a, b, p) >= 0
}

/// Is `p` on or to the left of the directed line from `a` to `b`?
/// The boundary is inclusive here too: a point exactly on the line counts
/// as both right and left.
pub open spec fn left_of_line(a: Vec2, b: Vec2, p: Vec2) -> bool {
    cross_dir(a, b, p) <= 0
}

impl Vec2 {
    /// Build a vector from its two components.
    pub fn new(x: i32, y: i32) -> (r: Vec2)
        ensures
            r == (Vec2 { x, y }),
    {
        Vec2 { x, y }
    }

    /// Component-wise difference `self - rhs`.
    pub fn sub(self, rhs: Vec2) -> (r: Vec2)
        requires
            i32::MIN <= self.x - rhs.x <= i32::MAX,
            i32::MIN <= self.y - rhs.y <= i32::MAX,
        ensures
            r.x == self.x - rhs.x,
            r.y == self.y - rhs.y,
    {
        Vec2 { x: self.x - rhs.x, y: self.y - rhs.y }
    }

    /// Component-wise (Hadamard) product `self * rhs`; this is not the dot
    /// product, it scales each axis by the other vector's matching component.
    pub fn mul(self, rhs: Vec2) -> (r: Vec2)
        requires
            i32::MIN <= self.x * rhs.x <= i32::MAX,
            i32::MIN <= self.y * rhs.y <= i32::MAX,
        ensures
            r.x == self.x * rhs.x,
            r.y == self.y * rhs.y,
    {
        proof {
            assert(self.x * rhs.x == (self.x as int) * (rhs.x as int));
            assert(self.y * rhs.y == (self.y as int) * (rhs.y as int));
        }
        Vec2 { x: self.x * rhs.x, y: self.y * rhs.y }
    }

    /// Scale both components by the scalar `k`.
    pub fn scale(self, k: i32) -> (r: Vec2)
        requires
            i32::MIN <= self.x * k <= i32::MAX,
            i32::MIN <= self.y * k <= i32::MAX,
        ensures
            r.x == self.x * k,
            r.y == self.y * k,
    {
        Vec2 { x: self.x * k, y: self.y * k }
    }

    /// Take the dot product of two Vec2s.
    pub fn dot(self, other: Vec2) -> (r: i64)
        requires
            i64::MIN <= self.x * other.x + self.y * other.y <= i64::MAX,
        ensures
            r == self.x * other.x + self.y * other.y,
    {
        proof {
            assert(
                -0x4000_0000_0000_0000 <= (self.x as int) * (other.x as int)
                    <= 0x4000_0000_0000_0000
                    && -0x4000_0000_0000_0000 <= (self.y as int) * (other.y as int)
                    <= 0x4000_0000_0000_0000
            ) by (nonlinear_arith)
                requires
                    -0x8000_0000 <= self.x as int <= 0x7fff_ffff,
                    -0x8000_0000 <= other.x as int <= 0x7fff_ffff,
                    -0x8000_0000 <= self.y as int <= 0x7fff_ffff,
                    -0x8000_0000 <= other.y as int <= 0x7fff_ffff,
            ;
        }
        let px: i64 = (self.x as i64) * (other.x as i64);
        let py: i64 = (self.y as i64) * (other.y as i64);
        px + py
    }

    /// Turn the vector by 90 degrees clockwise: `(x, y)` becomes `(y, -x)`.
    pub fn clockwise90(self) -> (r: Vec2)
        requires
            self.x > i32::MIN,
        ensures
            r.x == self.y,
            r.y == -self.x,
    {
        Vec2 { x: self.y, y: -self.x }
    }

    /// Is the provided point `p` on the right side of the directed line from
    /// `self` to `b`? Points exactly on the line count as right.
    pub fn point_on_right_line(self, b: Vec2, p: Vec2) -> (r: bool)
        ensures
            r == right_of_line(self, b, p),
    {
        let apx: i64 = (p.x as i64) - (self.x as i64);
        let apy: i64 = (p.y as i64) - (self.y as i64);
        let abx: i64 = (b.x as i64) - (self.x as i64);
        let aby: i64 = (b.y as i64) - (self.y as i64);
        proof {
            assert(
                -0x1_0000_0000_0000_0000 <= (apx as int) * (aby as int) <= 0x1_0000_0000_0000_0000
                    && -0x1_0000_0000_0000_0000 <= (apy as int) * (abx as int)
                    <= 0x1_0000_0000_0000_0000
            ) by (nonlinear_arith)
                requires
                    -0x1_0000_0000 <= apx as int <= 0x1_0000_0000,
                    -0x1_0000_0000 <= apy as int <= 0x1_0000_0000,
                    -0x1_0000_0000 <= abx as int <= 0x1_0000_0000,
                    -0x1_0000_0000 <= aby as int <= 0x1_0000_0000,
            ;
        }
        let c: i128 = (apx as i128) * (aby as i128) - (apy as i128) * (abx as i128);
        c >= 0
    }

    /// Is the provided point `p` on the left side of the directed line from
    /// `self` to `b`? Points exactly on the line count as left.
    pub fn point_on_left_line(self, b: Vec2, p: Vec2) -> (r: bool)
        ensures
            r == left_of_line(self, b, p),
    {
        let apx: i64 = (p.x as i64) - (self.x as i64);
        let apy: i64 = (p.y as i64) - (self.y as i64);
        let abx: i64 = (b.x as i64) - (self.x as i64);
        let aby: i64 = (b.y as i64) - (self.y as i64);
        proof {
            assert(
                -0x1_0000_0000_0000_0000 <= (apx as int) * (aby as int) <= 0x1_0000_0000_0000_0000
                    && -0x1_0000_0000_0000_0000 <= (apy as int) * (abx as int)
                    <= 0x1_0000_0000_0000_0000
            ) by (nonlinear_arith)
                requires
                    -0x1_0000_0000 <= apx as int <= 0x1_0000_0000,
                    -0x1_0000_0000 <= apy as int <= 0x1_0000_0000,
                    -0x1_0000_0000 <= abx as int <= 0x1_0000_0000,
                    -0x1_0000_0000 <= aby as int <= 0x1_0000_0000,
            ;
        }
        let c: i128 = (apx as i128) * (aby as i128) - (apy as i128) * (abx as i128);
        c <= 0
    }
}

} // verus!
