//! Rectangle construction and the separating-axis collision test.

use orbit_core::collision::Rectangle;
use orbit_core::util::Vec2;

fn v(x: i64, y: i64) -> Vec2 {
    Vec2 { x, y }
}

fn axis_box(x0: i64, y0: i64, x1: i64, y1: i64) -> Rectangle {
    Rectangle::from_corners([v(x0, y0), v(x1, y0), v(x1, y1), v(x0, y1)])
}

#[test]
fn collision_is_symmetric() {
    let a = axis_box(0, 0, 2000, 2000);
    let b = axis_box(1000, 500, 3000, 2500);
    let c = axis_box(5000, 5000, 6000, 6000);
    let tilted = Rectangle::from_dimensions(
        v(1500, 1500),
        v(2000, 1000),
        v(500, 500),
        v(707, 707),
    );
    assert_eq!(a.is_colliding(&b), b.is_colliding(&a));
    assert_eq!(a.is_colliding(&c), c.is_colliding(&a));
    assert_eq!(a.is_colliding(&tilted), tilted.is_colliding(&a));
    assert_eq!(b.is_colliding(&c), c.is_colliding(&b));
}

#[test]
fn separated_along_x_do_not_collide() {
    let a = axis_box(0, 0, 2000, 2000);
    let b = axis_box(3000, 0, 5000, 2000);
    assert!(!a.is_colliding(&b));
    assert!(!b.is_colliding(&a));
}

#[test]
fn overlapping_boxes_collide() {
    let a = axis_box(0, 0, 2000, 2000);
    let b = axis_box(1000, 0, 3000, 2000);
    assert!(a.is_colliding(&b));
    assert!(b.is_colliding(&a));
}

#[test]
fn radius_squared_of_two_by_four_box() {
    // A 2 x 4 box: the squared half-diagonal is (2^2 + 4^2) / 4 = 5 square
    // units, which is 5_000_000 in raw steps squared.
    let r = axis_box(0, 0, 2000, 4000);
    assert_eq!(r.radius_squared(), 5_000_000);
}

#[test]
fn center_is_diagonal_midpoint() {
    let r = axis_box(0, 0, 2000, 4000);
    let c = r.center();
    assert_eq!(c, v(1000, 2000));
}

#[test]
fn from_dimensions_axis_aligned() {
    // Unrotated box anchored at its middle: rotation unit (1000, 0).
    let r = Rectangle::from_dimensions(v(0, 0), v(2000, 2000), v(500, 500), v(1000, 0));
    assert_eq!(r.corners[0], v(-1000, -1000));
    assert_eq!(r.corners[1], v(1000, -1000));
    assert_eq!(r.corners[2], v(1000, 1000));
    assert_eq!(r.corners[3], v(-1000, 1000));
}
