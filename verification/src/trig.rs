//! Fixed-point angles and rotations.
//!
//! An angle is a fixed-point scalar in radians (`FX_ONE` raw steps per
//! radian), kept wrapped into `[0, FX_TAU)`. Sine and cosine use an integer
//! rational approximation (rounded to the nearest raw step), so every
//! rotation is a deterministic function of its integer inputs.

use vstd::prelude::*;

use vstd::arithmetic::div_mod::lemma_fundamental_div_mod_converse;

use crate::fixed::{fx_mul, fx_ok, fx_sub, fx_add, fx_clamped, fx_tdiv, FX_ONE};
use crate::util::{v_ok, Vec2};

verus! {

/// Half a turn, in raw angle steps (fixed-point approximation of pi).
pub const FX_PI: i64 = 3142;

/// A quarter turn, in raw angle steps.
pub const FX_PI_HALF: i64 = 1571;

/// A full turn, in raw angle steps (fixed-point approximation of tau).
pub const FX_TAU: i64 = 6284;

/// Wrap an angle into `[0, FX_TAU)`.
pub fn wrap_angle(a: i64) -> (r: i64)
    requires
        fx_ok(a as int),
    ensures
        r == a as int % (FX_TAU as int),
        0 <= r < FX_TAU,
{
    if a >= 0 {
        let m: u64 = (a as u64) % (FX_TAU as u64);
        proof {
            lemma_fundamental_div_mod_converse(
                a as int,
                FX_TAU as int,
                ((a as u64) / (FX_TAU as u64)) as int,
                m as int,
            );
        }
        m as i64
    } else {
        let neg: i64 = -a;
        let q: u64 = (neg as u64) / (FX_TAU as u64);
        let m: u64 = (neg as u64) % (FX_TAU as u64);
        if m == 0 {
            proof {
                lemma_fundamental_div_mod_converse(a as int, FX_TAU as int, -(q as int), 0);
            }
            0
        } else {
            proof {
                lemma_fundamental_div_mod_converse(
                    a as int,
                    FX_TAU as int,
                    -(q as int) - 1,
                    FX_TAU - m as int,
                );
            }
            FX_TAU - (m as i64)
        }
    }
}

/// Rational sine approximation on `[0, FX_PI]`, rounded to the nearest step.
pub open spec fn spec_sin_half(x: int) -> int {
    let p = x * (FX_PI - x);
    let den = 5 * (FX_PI as int) * (FX_PI as int) - 4 * p;
    (16 * (FX_ONE as int) * p + den / 2) / den
}

/// Sine of a wrapped angle, in raw steps (`FX_ONE` is one).
pub open spec fn spec_sin(a: int) -> int {
    if a <= FX_PI {
        spec_sin_half(a)
    } else {
        -spec_sin_half(a - FX_PI)
    }
}

/// Cosine of a wrapped angle, in raw steps.
pub open spec fn spec_cos(a: int) -> int {
    spec_sin((a + FX_PI_HALF) % (FX_TAU as int))
}

fn sin_half(x: i64) -> (r: i64)
    requires
        0 <= x <= FX_PI,
    ensures
        r == spec_sin_half(x as int),
        0 <= r <= FX_ONE,
{
    proof {
        assert(0 <= x * (FX_PI - x) <= FX_PI_HALF * FX_PI_HALF) by (nonlinear_arith)
            requires
                0 <= x <= FX_PI,
                FX_PI == 3142,
                FX_PI_HALF == 1571,
        ;
    }
    let p: u64 = (x as u64) * ((FX_PI - x) as u64);
    proof {
        assert(p <= 2468041);
    }
    let den: u64 = (5 * (FX_PI as u64) * (FX_PI as u64)) - 4 * p;
    let num: u64 = 16000 * p + den / 2;
    let q: u64 = num / den;
    proof {
        let pp = x * (FX_PI - x);
        let dd = 5 * (FX_PI as int) * (FX_PI as int) - 4 * pp;
        assert(num == 16 * (FX_ONE as int) * pp + dd / 2);
        assert(num < 1001 * dd);
        assert(q <= FX_ONE) by (nonlinear_arith)
            requires
                q == num as int / dd,
                num < 1001 * dd,
                dd >= 1,
                FX_ONE == 1000,
        ;
    }
    q as i64
}

/// Sine of an angle in `[0, FX_TAU)`.
pub fn sin_fx(a: i64) -> (r: i64)
    requires
        0 <= a < FX_TAU,
    ensures
        r == spec_sin(a as int),
        -FX_ONE <= r <= FX_ONE,
{
    if a <= FX_PI {
        sin_half(a)
    } else {
        -sin_half(a - FX_PI)
    }
}

/// Cosine of an angle in `[0, FX_TAU)`.
pub fn cos_fx(a: i64) -> (r: i64)
    requires
        0 <= a < FX_TAU,
    ensures
        r == spec_cos(a as int),
        -FX_ONE <= r <= FX_ONE,
{
    let b: i64 = if a + FX_PI_HALF >= FX_TAU {
        a + FX_PI_HALF - FX_TAU
    } else {
        a + FX_PI_HALF
    };
    proof {
        if a + FX_PI_HALF >= FX_TAU {
            lemma_fundamental_div_mod_converse(a + FX_PI_HALF, FX_TAU as int, 1, b as int);
        } else {
            lemma_fundamental_div_mod_converse(a + FX_PI_HALF, FX_TAU as int, 0, b as int);
        }
    }
    sin_fx(b)
}

/// The unit vector of a wrapped angle: `(cos, sin)` in raw steps.
pub fn unit_from_angle(a: i64) -> (r: Vec2)
    requires
        0 <= a < FX_TAU,
    ensures
        r.x == spec_cos(a as int),
        r.y == spec_sin(a as int),
        v_ok(r),
        -FX_ONE <= r.x <= FX_ONE,
        -FX_ONE <= r.y <= FX_ONE,
{
    Vec2 { x: cos_fx(a), y: sin_fx(a) }
}

/// `v` rotated by the angle `delta` (any admissible scalar), using the
/// fixed-point sine and cosine of the wrapped angle.
pub open spec fn spec_rotate(v: Vec2, delta: int) -> Vec2 {
    let w = delta % (FX_TAU as int);
    let c = spec_cos(w);
    let s = spec_sin(w);
    Vec2 {
        x: fx_clamped(
            fx_clamped(fx_tdiv(v.x * c, FX_ONE as int)) - fx_clamped(
                fx_tdiv(v.y * s, FX_ONE as int),
            ),
        ) as i64,
        y: fx_clamped(
            fx_clamped(fx_tdiv(v.x * s, FX_ONE as int)) + fx_clamped(
                fx_tdiv(v.y * c, FX_ONE as int),
            ),
        ) as i64,
    }
}

/// Rotate `v` by `delta` raw angle steps.
pub fn rotate(v: Vec2, delta: i64) -> (r: Vec2)
    requires
        v_ok(v),
        fx_ok(delta as int),
    ensures
        r == spec_rotate(v, delta as int),
        v_ok(r),
{
    let w: i64 = wrap_angle(delta);
    let c: i64 = cos_fx(w);
    let s: i64 = sin_fx(w);
    let rx: i64 = fx_sub(fx_mul(v.x, c), fx_mul(v.y, s));
    let ry: i64 = fx_add(fx_mul(v.x, s), fx_mul(v.y, c));
    Vec2 { x: rx, y: ry }
}

} // verus!
