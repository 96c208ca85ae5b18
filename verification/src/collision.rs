//! Oriented rectangles and the separating-axis collision test.

use vstd::prelude::*;

use crate::fixed::{fx_clamped, fx_div_raw, fx_tdiv, FX_ONE};
use crate::util::{spec_length_squared, v_ok, Vec2};

verus! {

/// A convex quadrilateral given by four corners in cyclic order (clockwise or
/// counter-clockwise), with the four edge vectors `corner[i] - corner[i+1]`
/// cached alongside.
#[derive(Clone, Copy, Debug)]
pub struct Rectangle {
    pub corners: [Vec2; 4],
    pub edges: [Vec2; 4],
}

/// All corners and edges are admissible vectors.
pub open spec fn rect_ok(r: Rectangle) -> bool {
    &&& v_ok(r.corners[0])
    &&& v_ok(r.corners[1])
    &&& v_ok(r.corners[2])
    &&& v_ok(r.corners[3])
    &&& v_ok(r.edges[0])
    &&& v_ok(r.edges[1])
    &&& v_ok(r.edges[2])
    &&& v_ok(r.edges[3])
}

/// The signed side of corner `c` against the half-plane through `o` along
/// axis `e`: the dot product of the (saturating) difference with the axis.
pub open spec fn spec_side(c: Vec2, o: Vec2, e: Vec2) -> int {
    fx_clamped(c.x - o.x) * e.x + fx_clamped(c.y - o.y) * e.y
}

/// Edge `i` of `a` separates `b` from `a`: every corner of `b` lies on the
/// non-overlapping side of the half-plane through corner `i` along edge `i`.
pub open spec fn spec_edge_separates(a: Rectangle, b: Rectangle, i: int) -> bool {
    &&& spec_side(b.corners[0], a.corners[i], a.edges[i]) >= 0
    &&& spec_side(b.corners[1], a.corners[i], a.edges[i]) >= 0
    &&& spec_side(b.corners[2], a.corners[i], a.edges[i]) >= 0
    &&& spec_side(b.corners[3], a.corners[i], a.edges[i]) >= 0
}

/// No edge of `a` separates the two rectangles.
pub open spec fn spec_no_separating_edge(a: Rectangle, b: Rectangle) -> bool {
    &&& !spec_edge_separates(a, b, 0)
    &&& !spec_edge_separates(a, b, 1)
    &&& !spec_edge_separates(a, b, 2)
    &&& !spec_edge_separates(a, b, 3)
}

/// The rectangles overlap: neither finds a separating edge among its own four.
pub open spec fn spec_colliding(a: Rectangle, b: Rectangle) -> bool {
    spec_no_separating_edge(a, b) && spec_no_separating_edge(b, a)
}

/// Collision is symmetric in its two rectangles.
pub proof fn lemma_colliding_symmetric(a: Rectangle, b: Rectangle)
    ensures
        spec_colliding(a, b) == spec_colliding(b, a),
{
}

impl Rectangle {
    /// Build a rectangle from (anchor) `center`, `size`, a normalized anchor
    /// `offset` in `[0, FX_ONE]` on both axes, and the unit rotation vector
    /// `rot` (`(cos, sin)` of the rotation angle).
    pub fn from_dimensions(center: Vec2, size: Vec2, offset: Vec2, rot: Vec2) -> (r: Rectangle)
        requires
            v_ok(center),
            v_ok(size),
            v_ok(offset),
            v_ok(rot),
        ensures
            rect_ok(r),
            r == spec_from_dimensions(center, size, offset, rot),
    {
        let rot_size_x: Vec2 = rot.vscale(size.x);
        let rot_size_y: Vec2 = (Vec2 { x: -rot.y, y: rot.x }).vscale(size.y);
        let corner: Vec2 = center.vsub(rot_size_x.vscale(offset.x)).vsub(
            rot_size_y.vscale(offset.y),
        );
        let built: Rectangle = Rectangle::from_corners(
            [
                corner,
                corner.vadd(rot_size_x),
                corner.vadd(rot_size_x).vadd(rot_size_y),
                corner.vadd(rot_size_y),
            ],
        );
        proof {
            let s = spec_from_dimensions(center, size, offset, rot);
            assert(built.corners =~= s.corners);
            assert(built.edges =~= s.edges);
        }
        built
    }

    /// Build a rectangle from its corners, deriving the edge vectors.
    pub fn from_corners(corners: [Vec2; 4]) -> (r: Rectangle)
        requires
            v_ok(corners[0]),
            v_ok(corners[1]),
            v_ok(corners[2]),
            v_ok(corners[3]),
        ensures
            rect_ok(r),
            r.corners == corners,
            r.edges[0] == spec_vsub(corners[0], corners[1]),
            r.edges[1] == spec_vsub(corners[1], corners[2]),
            r.edges[2] == spec_vsub(corners[2], corners[3]),
            r.edges[3] == spec_vsub(corners[3], corners[0]),
    {
        let edges: [Vec2; 4] = [
            corners[0].vsub(corners[1]),
            corners[1].vsub(corners[2]),
            corners[2].vsub(corners[3]),
            corners[3].vsub(corners[0]),
        ];
        Rectangle { corners, edges }
    }

    /// The separating-axis overlap test restricted to the two rectangles' own
    /// edges.
    pub fn is_colliding(&self, other: &Rectangle) -> (r: bool)
        requires
            rect_ok(*self),
            rect_ok(*other),
        ensures
            r == spec_colliding(*self, *other),
    {
        self.check_collision_one_sided(other) && other.check_collision_one_sided(self)
    }

    fn check_collision_one_sided(&self, other: &Rectangle) -> (r: bool)
        requires
            rect_ok(*self),
            rect_ok(*other),
        ensures
            r == spec_no_separating_edge(*self, *other),
    {
        let mut i: usize = 0;
        while i < 4
            invariant
                rect_ok(*self),
                rect_ok(*other),
                i <= 4,
                forall|k: int| 0 <= k < i ==> !spec_edge_separates(*self, *other, k),
            decreases 4 - i,
        {
            if self.edge_separates(other, i) {
                return false;
            }
            i += 1;
        }
        true
    }

    fn edge_separates(&self, other: &Rectangle, i: usize) -> (r: bool)
        requires
            rect_ok(*self),
            rect_ok(*other),
            i < 4,
        ensures
            r == spec_edge_separates(*self, *other, i as int),
    {
        let o: Vec2 = self.corners[i];
        let e: Vec2 = self.edges[i];
        let s0: i64 = other.corners[0].vsub(o).vdot(e);
        let s1: i64 = other.corners[1].vsub(o).vdot(e);
        let s2: i64 = other.corners[2].vsub(o).vdot(e);
        let s3: i64 = other.corners[3].vsub(o).vdot(e);
        s0 >= 0 && s1 >= 0 && s2 >= 0 && s3 >= 0
    }

    /// The squared half-diagonal: the squared radius of the circumscribed
    /// circle around the rectangle's center.
    pub fn radius_squared(&self) -> (r: i64)
        requires
            rect_ok(*self),
        ensures
            r == spec_radius_squared(*self),
            0 <= r <= 2_000_000_000_000_000_000,
    {
        let d: Vec2 = self.corners[0].vsub(self.corners[2]);
        let ls: i64 = crate::util::length_squared(d);
        fx_div_raw(ls, 4)
    }

    /// The midpoint of the diagonal between opposite corners.
    pub fn center(&self) -> (r: Vec2)
        requires
            rect_ok(*self),
        ensures
            r.x == fx_tdiv(self.corners[0].x + self.corners[2].x, 2),
            r.y == fx_tdiv(self.corners[0].y + self.corners[2].y, 2),
            v_ok(r),
    {
        let sx: i64 = self.corners[0].x + self.corners[2].x;
        let sy: i64 = self.corners[0].y + self.corners[2].y;
        Vec2 { x: fx_div_raw(sx, 2), y: fx_div_raw(sy, 2) }
    }
}

/// Saturating vector difference, at the specification level.
pub open spec fn spec_vsub(a: Vec2, b: Vec2) -> Vec2 {
    Vec2 { x: fx_clamped(a.x - b.x) as i64, y: fx_clamped(a.y - b.y) as i64 }
}

/// Saturating vector sum, at the specification level.
pub open spec fn spec_vadd(a: Vec2, b: Vec2) -> Vec2 {
    Vec2 { x: fx_clamped(a.x + b.x) as i64, y: fx_clamped(a.y + b.y) as i64 }
}

/// Saturating scale by a fixed-point factor, at the specification level.
pub open spec fn spec_vscale(v: Vec2, s: int) -> Vec2 {
    Vec2 {
        x: fx_clamped(fx_tdiv(v.x * s, FX_ONE as int)) as i64,
        y: fx_clamped(fx_tdiv(v.y * s, FX_ONE as int)) as i64,
    }
}

/// The corners and edges produced by `Rectangle::from_dimensions`.
pub open spec fn spec_from_dimensions(center: Vec2, size: Vec2, offset: Vec2, rot: Vec2)
    -> Rectangle {
    let rot_size_x = spec_vscale(rot, size.x as int);
    let rot_size_y = spec_vscale(Vec2 { x: (-rot.y) as i64, y: rot.x }, size.y as int);
    let corner = spec_vsub(
        spec_vsub(center, spec_vscale(rot_size_x, offset.x as int)),
        spec_vscale(rot_size_y, offset.y as int),
    );
    let c0 = corner;
    let c1 = spec_vadd(corner, rot_size_x);
    let c2 = spec_vadd(spec_vadd(corner, rot_size_x), rot_size_y);
    let c3 = spec_vadd(corner, rot_size_y);
    Rectangle {
        corners: [c0, c1, c2, c3],
        edges: [
            spec_vsub(c0, c1),
            spec_vsub(c1, c2),
            spec_vsub(c2, c3),
            spec_vsub(c3, c0),
        ],
    }
}

/// The squared distance from the rectangle's first corner to its third,
/// quartered: `radius_squared` of the circumscribed circle.
pub open spec fn spec_radius_squared(r: Rectangle) -> int {
    fx_tdiv(spec_length_squared(spec_vsub(r.corners[0], r.corners[2])), 4)
}

} // verus!
