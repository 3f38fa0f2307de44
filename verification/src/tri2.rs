//! A 2D triangle: three vertices and a solid fill color. Containment is the
//! classic half-plane test — the point must be on the same side of all three
//! directed edges, all right or all left — so a triangle of either winding
//! rasterizes, and both side tests include the line itself, so a point
//! exactly on an edge counts as contained whatever the winding.

use vstd::prelude::*;

use crate::vec2::{cross_dir, left_of_line, right_of_line, Vec2};
use crate::vec3::Vec3;

verus! {

/// A 2D triangle.
#[derive(Clone, Copy, Debug, PartialEq)]
pub struct Tri2 {
    /// The points of the triangle.
    pub points: [Vec2; 3],
    /// The fill color.
    pub color: Vec3,
}

/// The least of three integers.
pub open spec fn min3(a: int, b: int, c: int) -> int {
    if a <= b && a <= c {
        a
    } else if b <= c {
        b
    } else {
        c
    }
}

/// The greatest of three integers.
pub open spec fn max3(a: int, b: int, c: int) -> int {
    if a >= b && a >= c {
        a
    } else if b >= c {
        b
    } else {
        c
    }
}

/// A vertex scaled by `k`, component-wise.
pub open spec fn spec_scale_point(v: Vec2, k: int) -> Vec2 {
    Vec2 { x: (v.x * k) as i32, y: (v.y * k) as i32 }
}

/// Both scaled components of `v` stay representable.
pub open spec fn scale_fits(v: Vec2, k: int) -> bool {
    i32::MIN <= v.x * k <= i32::MAX && i32::MIN <= v.y * k <= i32::MAX
}

impl Tri2 {
    /// Build a triangle from its three vertices and its fill color.
    pub fn new(a: Vec2, b: Vec2, c: Vec2, color: Vec3) -> (r: Tri2)
        ensures
            r.points@ == seq![a, b, c],
            r.color == color,
    {
        let r = Tri2 { points: [a, b, c], color };
        proof {
            assert(r.points@ =~= seq![a, b, c]);
        }
        r
    }

    /// The half-plane containment test: `p` is on the same side of the
    /// three directed edges A→B, B→C, C→A — on or to the right of all
    /// three, or on or to the left of all three. Both side tests include
    /// the edge line itself, so boundary points are contained for either
    /// winding.
    pub open spec fn spec_inside(self, p: Vec2) -> bool {
        let a = self.points[0];
        let b = self.points[1];
        let c = self.points[2];
        (right_of_line(a, b, p) && right_of_line(b, c, p) && right_of_line(c, a, p)) || (
        left_of_line(a, b, p) && left_of_line(b, c, p) && left_of_line(c, a, p))
    }

    /// `p` is strictly on one side of all three edge lines, the same side
    /// each time — the strict interior, for either winding.
    pub open spec fn strictly_inside(self, p: Vec2) -> bool {
        let c_ab = cross_dir(self.points[0], self.points[1], p);
        let c_bc = cross_dir(self.points[1], self.points[2], p);
        let c_ca = cross_dir(self.points[2], self.points[0], p);
        (c_ab > 0 && c_bc > 0 && c_ca > 0) || (c_ab < 0 && c_bc < 0 && c_ca < 0)
    }

    /// Some edge line sees `p` strictly on its right and another strictly on
    /// its left: for a non-degenerate triangle this is exactly the strict
    /// exterior, for either winding.
    pub open spec fn strictly_outside(self, p: Vec2) -> bool {
        let c_ab = cross_dir(self.points[0], self.points[1], p);
        let c_bc = cross_dir(self.points[1], self.points[2], p);
        let c_ca = cross_dir(self.points[2], self.points[0], p);
        (c_ab > 0 || c_bc > 0 || c_ca > 0) && (c_ab < 0 || c_bc < 0 || c_ca < 0)
    }

    /// The least X coordinate over the three vertices.
    pub open spec fn spec_min_x(self) -> int {
        min3(self.points[0].x as int, self.points[1].x as int, self.points[2].x as int)
    }

    /// The least Y coordinate over the three vertices.
    pub open spec fn spec_min_y(self) -> int {
        min3(self.points[0].y as int, self.points[1].y as int, self.points[2].y as int)
    }

    /// The greatest X coordinate over the three vertices.
    pub open spec fn spec_max_x(self) -> int {
        max3(self.points[0].x as int, self.points[1].x as int, self.points[2].x as int)
    }

    /// The greatest Y coordinate over the three vertices.
    pub open spec fn spec_max_y(self) -> int {
        max3(self.points[0].y as int, self.points[1].y as int, self.points[2].y as int)
    }

    /// Is the provided point inside the triangle?
    pub fn inside(self, point: Vec2) -> (r: bool)
        ensures
            r == self.spec_inside(point),
    {
        let right_ab = self.points[0].point_on_right_line(self.points[1], point);
        let right_bc = self.points[1].point_on_right_line(self.points[2], point);
        let right_ca = self.points[2].point_on_right_line(self.points[0], point);
        let left_ab = self.points[0].point_on_left_line(self.points[1], point);
        let left_bc = self.points[1].point_on_left_line(self.points[2], point);
        let left_ca = self.points[2].point_on_left_line(self.points[0], point);

        (right_ab && right_bc && right_ca) || (left_ab && left_bc && left_ca)
    }

    /// Returns the bounding box of the triangle in a pair of coordinates
    /// (top-left, and bottom-right): the component-wise minimum and maximum
    /// of the three vertices.
    pub fn bounding_box(self) -> (r: (Vec2, Vec2))
        ensures
            r.0.x == self.spec_min_x(),
            r.0.y == self.spec_min_y(),
            r.1.x == self.spec_max_x(),
            r.1.y == self.spec_max_y(),
    {
        let mut min_x = self.points[0].x;
        let mut min_y = self.points[0].y;
        let mut max_x = self.points[0].x;
        let mut max_y = self.points[0].y;
        if self.points[1].x < min_x {
            min_x = self.points[1].x;
        }
        if self.points[2].x < min_x {
            min_x = self.points[2].x;
        }
        if self.points[1].y < min_y {
            min_y = self.points[1].y;
        }
        if self.points[2].y < min_y {
            min_y = self.points[2].y;
        }
        if self.points[1].x > max_x {
            max_x = self.points[1].x;
        }
        if self.points[2].x > max_x {
            max_x = self.points[2].x;
        }
        if self.points[1].y > max_y {
            max_y = self.points[1].y;
        }
        if self.points[2].y > max_y {
            max_y = self.points[2].y;
        }
        (Vec2 { x: min_x, y: min_y }, Vec2 { x: max_x, y: max_y })
    }

    /// Scale every vertex by the scalar `k`; the color is unaffected.
    pub fn scale(self, k: i32) -> (r: Tri2)
        requires
            scale_fits(self.points[0], k as int),
            scale_fits(self.points[1], k as int),
            scale_fits(self.points[2], k as int),
        ensures
            r.points[0] == spec_scale_point(self.points[0], k as int),
            r.points[1] == spec_scale_point(self.points[1], k as int),
            r.points[2] == spec_scale_point(self.points[2], k as int),
            r.color == self.color,
    {
        Tri2 {
            points: [
                self.points[0].scale(k),
                self.points[1].scale(k),
                self.points[2].scale(k),
            ],
            color: self.color,
        }
    }
}

/// Every point of the strict interior is contained: the three strict side
/// tests agree, so the three inclusive ones do too, whatever the winding.
pub proof fn lemma_contains_strictly_inside(t: Tri2, p: Vec2)
    requires
        t.strictly_inside(p),
    ensures
        t.spec_inside(p),
{
}

/// Every point of the strict exterior is rejected: two edge lines see it
/// strictly on opposite sides, so the three inclusive tests cannot agree.
pub proof fn lemma_rejects_strictly_outside(t: Tri2, p: Vec2)
    requires
        t.strictly_outside(p),
    ensures
        !t.spec_inside(p),
{
}

/// Boundary inclusivity: a point exactly on an edge line of the triangle,
/// as long as it is not strictly outside, is contained — whatever the
/// winding. In particular every point of an edge segment is contained.
pub proof fn lemma_boundary_inclusive(t: Tri2, p: Vec2)
    requires
        cross_dir(t.points[0], t.points[1], p) == 0 || cross_dir(t.points[1], t.points[2], p) == 0
            || cross_dir(t.points[2], t.points[0], p) == 0,
        !t.strictly_outside(p),
    ensures
        t.spec_inside(p),
{
}

/// The bounding box depends only on which vertices the triangle has, not on
/// the order they are listed in: triangles with the same multiset of
/// vertices have the same component-wise extremes.
pub proof fn lemma_bounding_box_permutation(t1: Tri2, t2: Tri2)
    requires
        t1.points@.to_multiset() == t2.points@.to_multiset(),
    ensures
        t1.spec_min_x() == t2.spec_min_x(),
        t1.spec_min_y() == t2.spec_min_y(),
        t1.spec_max_x() == t2.spec_max_x(),
        t1.spec_max_y() == t2.spec_max_y(),
{
    broadcast use vstd::seq_lib::group_to_multiset_ensures;

    assert(t1.points@.len() == 3);
    assert(t2.points@.len() == 3);
    assert forall|i: int| 0 <= i < 3 implies t2.points@.contains(#[trigger] t1.points@[i]) by {
        assert(t1.points@.contains(t1.points@[i]));
        assert(t1.points@.to_multiset().count(t1.points@[i]) > 0);
    }
    assert forall|i: int| 0 <= i < 3 implies t1.points@.contains(#[trigger] t2.points@[i]) by {
        assert(t2.points@.contains(t2.points@[i]));
        assert(t2.points@.to_multiset().count(t2.points@[i]) > 0);
    }
    assert(t1.points@[0] == t1.points[0] && t1.points@[1] == t1.points[1] && t1.points@[2]
        == t1.points[2]);
    assert(t2.points@[0] == t2.points[0] && t2.points@[1] == t2.points[1] && t2.points@[2]
        == t2.points[2]);
}

/// The exact scaling of one cross product: scaling every coordinate by `k`
/// multiplies the orientation value by `k * k`.
proof fn lemma_cross_dir_scale(ax: int, ay: int, bx: int, by: int, px: int, py: int, k: int)
    ensures
        (px * k - ax * k) * (by * k - ay * k) - (py * k - ay * k) * (bx * k - ax * k) == k * k * (
        (px - ax) * (by - ay) - (py - ay) * (bx - ax)),
{
    assert(px * k - ax * k == (px - ax) * k) by (nonlinear_arith);
    assert(by * k - ay * k == (by - ay) * k) by (nonlinear_arith);
    assert(py * k - ay * k == (py - ay) * k) by (nonlinear_arith);
    assert(bx * k - ax * k == (bx - ax) * k) by (nonlinear_arith);
    lemma_mul_rearrange(px - ax, by - ay, py - ay, bx - ax, k);
}

/// Pulling a common factor out of both products of a two-term difference.
proof fn lemma_mul_rearrange(u: int, v: int, w: int, z: int, k: int)
    ensures
        (u * k) * (v * k) - (w * k) * (z * k) == k * k * (u * v - w * z),
{
    assert((u * k) * (v * k) == k * k * (u * v)) by (nonlinear_arith);
    assert((w * k) * (z * k) == k * k * (w * z)) by (nonlinear_arith);
    assert(k * k * (u * v - w * z) == k * k * (u * v) - k * k * (w * z)) by (nonlinear_arith);
}

/// Multiplying by the strictly positive `k * k` keeps the sign.
proof fn lemma_sign_preserved(c: int, k: int)
    requires
        k > 0,
    ensures
        (k * k * c >= 0) == (c >= 0),
        (k * k * c <= 0) == (c <= 0),
{
    assert(k * k > 0 && ((k * k * c >= 0) == (c >= 0)) && ((k * k * c <= 0) == (c <= 0)))
        by (nonlinear_arith)
        requires
            k > 0,
    ;
}

/// Scale law: containment is invariant under uniform scaling by a positive
/// factor. `ts` is `t` with every vertex scaled by `k` and `ps` is `p`
/// scaled by `k`; then `ts` contains `ps` exactly when `t` contains `p`.
pub proof fn lemma_contains_scale_invariant(t: Tri2, ts: Tri2, p: Vec2, ps: Vec2, k: int)
    requires
        k > 0,
        scale_fits(t.points[0], k),
        scale_fits(t.points[1], k),
        scale_fits(t.points[2], k),
        scale_fits(p, k),
        ts.points[0] == spec_scale_point(t.points[0], k),
        ts.points[1] == spec_scale_point(t.points[1], k),
        ts.points[2] == spec_scale_point(t.points[2], k),
        ps == spec_scale_point(p, k),
    ensures
        ts.spec_inside(ps) == t.spec_inside(p),
{
    let a = t.points[0];
    let b = t.points[1];
    let c = t.points[2];
    lemma_cross_dir_scale(a.x as int, a.y as int, b.x as int, b.y as int, p.x as int, p.y as int, k);
    lemma_cross_dir_scale(b.x as int, b.y as int, c.x as int, c.y as int, p.x as int, p.y as int, k);
    lemma_cross_dir_scale(c.x as int, c.y as int, a.x as int, a.y as int, p.x as int, p.y as int, k);
    lemma_sign_preserved(cross_dir(a, b, p), k);
    lemma_sign_preserved(cross_dir(b, c, p), k);
    lemma_sign_preserved(cross_dir(c, a, p), k);
}

} // verus!
