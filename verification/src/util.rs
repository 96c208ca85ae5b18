//! Planar vectors and small numeric helpers.

use vstd::prelude::*;

use crate::fixed::{
    fx_add, fx_clamped, fx_mul, fx_ok, fx_sub, fx_tdiv, isqrt, lemma_mul_magnitude,
    lemma_tdiv_magnitude, FX_ONE,
};

verus! {

/// A 2D vector (or point) of fixed-point scalars.
#[derive(Clone, Copy, Debug, PartialEq, Eq, Structural)]
pub struct Vec2 {
    pub x: i64,
    pub y: i64,
}

/// Both components are admissible scalars.
pub open spec fn v_ok(v: Vec2) -> bool {
    fx_ok(v.x as int) && fx_ok(v.y as int)
}

/// The squared Euclidean length, in raw steps squared.
pub open spec fn spec_length_squared(v: Vec2) -> int {
    v.x * v.x + v.y * v.y
}

/// `r` is the floor of the square root of `n`.
pub open spec fn is_sqrt_floor(n: int, r: int) -> bool {
    0 <= r && r * r <= n && n < (r + 1) * (r + 1)
}

/// The floor of the square root of a nonnegative `n`.
pub open spec fn sqrt_floor(n: int) -> int {
    choose|r: int| is_sqrt_floor(n, r)
}

pub proof fn lemma_sqrt_floor_unique(n: int, r: int)
    requires
        is_sqrt_floor(n, r),
    ensures
        sqrt_floor(n) == r,
{
    assert(is_sqrt_floor(n, sqrt_floor(n)));
    let s = sqrt_floor(n);
    assert(s == r) by (nonlinear_arith)
        requires
            is_sqrt_floor(n, r),
            is_sqrt_floor(n, s),
    ;
}

/// The Euclidean length of `v`, in raw steps.
pub open spec fn spec_length(v: Vec2) -> int {
    sqrt_floor(spec_length_squared(v))
}

impl Vec2 {
    /// Component-wise saturating addition.
    pub fn vadd(self, o: Vec2) -> (r: Vec2)
        requires
            v_ok(self),
            v_ok(o),
        ensures
            r.x == fx_clamped(self.x + o.x),
            r.y == fx_clamped(self.y + o.y),
            v_ok(r),
    {
        Vec2 { x: fx_add(self.x, o.x), y: fx_add(self.y, o.y) }
    }

    /// Component-wise saturating subtraction.
    pub fn vsub(self, o: Vec2) -> (r: Vec2)
        requires
            v_ok(self),
            v_ok(o),
        ensures
            r.x == fx_clamped(self.x - o.x),
            r.y == fx_clamped(self.y - o.y),
            v_ok(r),
    {
        Vec2 { x: fx_sub(self.x, o.x), y: fx_sub(self.y, o.y) }
    }

    /// Scale by a fixed-point factor.
    pub fn vscale(self, s: i64) -> (r: Vec2)
        requires
            v_ok(self),
            fx_ok(s as int),
        ensures
            r.x == fx_clamped(fx_tdiv(self.x * s, FX_ONE as int)),
            r.y == fx_clamped(fx_tdiv(self.y * s, FX_ONE as int)),
            v_ok(r),
    {
        Vec2 { x: fx_mul(self.x, s), y: fx_mul(self.y, s) }
    }

    /// Dot product, in raw steps squared.
    pub fn vdot(self, o: Vec2) -> (r: i64)
        requires
            v_ok(self),
            v_ok(o),
        ensures
            r == self.x * o.x + self.y * o.y,
    {
        proof {
            assert(-2_000_000_000_000_000_000 <= self.x * o.x + self.y * o.y
                <= 2_000_000_000_000_000_000) by (nonlinear_arith)
                requires
                    v_ok(self),
                    v_ok(o),
            ;
            assert(-1_000_000_000_000_000_000 <= self.x * o.x <= 1_000_000_000_000_000_000)
                by (nonlinear_arith)
                requires
                    v_ok(self),
                    v_ok(o),
            ;
        }
        self.x * o.x + self.y * o.y
    }
}

/// Squared length of a vector, in raw steps squared.
pub fn length_squared(v: Vec2) -> (r: i64)
    requires
        v_ok(v),
    ensures
        r == spec_length_squared(v),
        0 <= r <= 2_000_000_000_000_000_000,
{
    proof {
        assert(0 <= v.x * v.x <= 1_000_000_000_000_000_000 && 0 <= v.y * v.y
            <= 1_000_000_000_000_000_000) by (nonlinear_arith)
            requires
                v_ok(v),
        ;
    }
    v.x * v.x + v.y * v.y
}

/// Length of a vector, in raw steps: the floor of the exact length.
pub fn length(v: Vec2) -> (r: i64)
    requires
        v_ok(v),
    ensures
        r == spec_length(v),
        is_sqrt_floor(spec_length_squared(v), r as int),
        0 <= r <= 0xFFFF_FFFFi64,
        v != (Vec2 { x: 0, y: 0 }) ==> r >= 1,
{
    let ls: i64 = length_squared(v);
    let s: u64 = isqrt(ls as u64);
    proof {
        lemma_sqrt_floor_unique(ls as int, s as int);
        if v != (Vec2 { x: 0, y: 0 }) {
            assert(spec_length_squared(v) >= 1) by (nonlinear_arith)
                requires
                    v_ok(v),
                    v != (Vec2 { x: 0, y: 0 }),
            ;
            assert(s >= 1) by (nonlinear_arith)
                requires
                    is_sqrt_floor(ls as int, s as int),
                    ls >= 1,
            ;
        }
    }
    s as i64
}

/// Interpolate between `start` and `end`: `start + (end - start) * t / FX_ONE`.
pub open spec fn spec_lerp(start: int, end: int, t: int) -> int {
    fx_clamped(start + fx_clamped(fx_tdiv(fx_clamped(end - start) * t, FX_ONE as int)))
}

/// Linear interpolation over a fixed-point range; `t` in `[0, FX_ONE]` maps
/// onto `[start, end]`.
pub fn lerp(start: i64, end: i64, t: i64) -> (r: i64)
    requires
        fx_ok(start as int),
        fx_ok(end as int),
        fx_ok(t as int),
    ensures
        r == spec_lerp(start as int, end as int, t as int),
        fx_ok(r as int),
{
    fx_add(start, fx_mul(fx_sub(end, start), t))
}

/// Interpolating between two values in `[0, 1_000_000]` with a weight in
/// `[0, FX_ONE]` stays within `[0, 1_000_000]`.
pub proof fn lemma_lerp_bounds(start: int, end: int, t: int)
    requires
        0 <= start <= 1_000_000,
        0 <= end <= 1_000_000,
        0 <= t <= 1000,
    ensures
        0 <= spec_lerp(start, end, t) <= 1_000_000,
{
    let d = end - start;
    let p = d * t;
    lemma_mul_magnitude(d, t, 1_000_000, 1000);
    lemma_tdiv_magnitude(p, 1000, 1_000_000);
    let q = fx_tdiv(p, 1000);
    if d >= 0 {
        assert(p <= d * 1000) by (nonlinear_arith)
            requires
                0 <= t <= 1000,
                d >= 0,
                p == d * t,
        ;
        assert(p >= 0) by (nonlinear_arith)
            requires
                d >= 0,
                t >= 0,
                p == d * t,
        ;
        assert(p / 1000 <= d) by (nonlinear_arith)
            requires
                p <= d * 1000,
                0 <= p,
                0 <= d,
        ;
    } else {
        assert(-p <= (-d) * 1000) by (nonlinear_arith)
            requires
                0 <= t <= 1000,
                d < 0,
                p == d * t,
        ;
        assert(-p >= 0) by (nonlinear_arith)
            requires
                d < 0,
                t >= 0,
                p == d * t,
        ;
        assert((-p) / 1000 <= -d) by (nonlinear_arith)
            requires
                -p <= (-d) * 1000,
                0 <= -p,
                0 <= -d,
        ;
    }
}

/// Displacement of length `distance` along the unit direction `dir`.
pub fn displacement_from_angle(dir: Vec2, distance: i64) -> (r: Vec2)
    requires
        v_ok(dir),
        fx_ok(distance as int),
    ensures
        r.x == fx_clamped(fx_tdiv(dir.x * distance, FX_ONE as int)),
        r.y == fx_clamped(fx_tdiv(dir.y * distance, FX_ONE as int)),
        v_ok(r),
{
    dir.vscale(distance)
}

/// The unit vector (length `FX_ONE`, component-wise truncated) along `v`;
/// the zero vector stays zero.
pub open spec fn spec_normalize(v: Vec2) -> Vec2 {
    if v == (Vec2 { x: 0, y: 0 }) {
        v
    } else {
        Vec2 {
            x: fx_tdiv(v.x * (FX_ONE as int), spec_length(v)) as i64,
            y: fx_tdiv(v.y * (FX_ONE as int), spec_length(v)) as i64,
        }
    }
}

/// Normalize to a unit vector of length `FX_ONE` (component-wise truncated);
/// the zero vector stays zero.
pub fn normalize(v: Vec2) -> (r: Vec2)
    requires
        v_ok(v),
    ensures
        r == spec_normalize(v),
        v_ok(r),
        -FX_ONE <= r.x <= FX_ONE,
        -FX_ONE <= r.y <= FX_ONE,
{
    if v.x == 0 && v.y == 0 {
        v
    } else {
        let len: i64 = length(v);
        proof {
            let ls = spec_length_squared(v);
            assert(-len <= v.x <= len && -len <= v.y <= len) by (nonlinear_arith)
                requires
                    ls == v.x * v.x + v.y * v.y,
                    is_sqrt_floor(ls, len as int),
            ;
            lemma_mul_magnitude(v.x as int, FX_ONE as int, len as int, FX_ONE as int);
            lemma_mul_magnitude(v.y as int, FX_ONE as int, len as int, FX_ONE as int);
            lemma_tdiv_magnitude(v.x * (FX_ONE as int), len as int, FX_ONE as int);
            lemma_tdiv_magnitude(v.y * (FX_ONE as int), len as int, FX_ONE as int);
        }
        let rx: i64 = crate::fixed::fx_div_raw(v.x * FX_ONE, len);
        let ry: i64 = crate::fixed::fx_div_raw(v.y * FX_ONE, len);
        Vec2 { x: rx, y: ry }
    }
}

} // verus!
