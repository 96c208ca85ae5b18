//! Fixed-point arithmetic, trig and vector helpers.

use orbit_core::fixed::{fx_exp, fx_ln, fx_mul, isqrt, FX_ONE};
use orbit_core::trig::{cos_fx, sin_fx, wrap_angle, FX_PI, FX_TAU};
use orbit_core::util::{length, length_squared, lerp, normalize, Vec2};

fn v(x: i64, y: i64) -> Vec2 {
    Vec2 { x, y }
}

#[test]
fn fixed_multiplication_truncates() {
    assert_eq!(fx_mul(1500, 1500), 2250);
    assert_eq!(fx_mul(-1500, 1500), -2250);
    assert_eq!(fx_mul(999, 1), 0);
}

#[test]
fn integer_square_root_brackets() {
    assert_eq!(isqrt(0), 0);
    assert_eq!(isqrt(1), 1);
    assert_eq!(isqrt(3), 1);
    assert_eq!(isqrt(4), 2);
    assert_eq!(isqrt(3_125_000_000), 55_901);
}

#[test]
fn natural_log_of_fifty() {
    // ln 50 is about 3.912; the fixed-point value drives the aim leading.
    assert_eq!(fx_ln(50_000), 3912);
    assert_eq!(fx_ln(1000), 0);
}

#[test]
fn exponential_of_zero_is_one() {
    assert_eq!(fx_exp(0), FX_ONE);
    assert!(fx_exp(3912) > FX_ONE);
    assert!(fx_exp(-3912) < FX_ONE);
}

#[test]
fn wrap_angle_into_one_turn() {
    assert_eq!(wrap_angle(0), 0);
    assert_eq!(wrap_angle(FX_TAU), 0);
    assert_eq!(wrap_angle(FX_TAU + 5), 5);
    assert_eq!(wrap_angle(-5), FX_TAU - 5);
}

#[test]
fn trig_at_cardinal_angles() {
    assert_eq!(sin_fx(0), 0);
    assert_eq!(cos_fx(0), FX_ONE);
    assert_eq!(sin_fx(FX_PI), 0);
    assert_eq!(cos_fx(FX_PI), -FX_ONE);
}

#[test]
fn lengths_and_normalization() {
    assert_eq!(length_squared(v(3000, 4000)), 25_000_000);
    assert_eq!(length(v(3000, 4000)), 5000);
    assert_eq!(normalize(v(3000, 4000)), v(600, 800));
    assert_eq!(normalize(v(0, 0)), v(0, 0));
}

#[test]
fn lerp_over_a_range() {
    assert_eq!(lerp(500, 250, 0), 500);
    assert_eq!(lerp(500, 250, 1000), 250);
    assert_eq!(lerp(500, 250, 500), 375);
    assert_eq!(lerp(0, 150, 1000), 150);
}
