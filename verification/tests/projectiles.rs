//! Projectile motion, lifetime, and collision resolution.

use orbit_core::components::Center;
use orbit_core::controller::EntityController;
use orbit_core::controller::Team;
use orbit_core::entity::Entity;
use orbit_core::projectile::Projectile;
use orbit_core::util::Vec2;

fn v(x: i64, y: i64) -> Vec2 {
    Vec2 { x, y }
}

fn bolt(initial_speed: i64, speed_decay: i64, lifetime: i64) -> Projectile {
    Projectile::from_speed(
        initial_speed,
        speed_decay,
        v(1000, 0),
        v(0, 0),
        v(1000, 4000),
        lifetime,
        0x00FF_FFFF,
        0,
        Some(Team::Hostile),
    )
}

#[test]
fn constant_speed_displacement_is_speed_times_time() {
    // 48 units per second for two seconds: exactly 96 units east.
    let mut p = bolt(48_000, 0, 10_000);
    let expired = p.update(2000);
    assert!(!expired);
    assert_eq!(p.position, v(96_000, 0));
    assert_eq!(p.previous_displacement, 96_000);
}

#[test]
fn exponential_motion_is_tick_size_independent() {
    // Two ticks of 0.1 s land exactly where one tick of 0.2 s does.
    let mut twice = bolt(48_000, 3912, 1000);
    assert!(!twice.update(100));
    assert!(!twice.update(100));
    let mut once = bolt(48_000, 3912, 1000);
    assert!(!once.update(200));
    assert_eq!(twice.position, once.position);
    assert_eq!(twice.age, once.age);

    let mut twice_dec = bolt(240_000, -3912, 1000);
    assert!(!twice_dec.update(150));
    assert!(!twice_dec.update(150));
    let mut once_dec = bolt(240_000, -3912, 1000);
    assert!(!once_dec.update(300));
    assert_eq!(twice_dec.position, once_dec.position);
}

#[test]
fn growing_speed_outruns_constant_speed() {
    let mut growing = bolt(48_000, 3912, 1000);
    let mut constant = bolt(48_000, 0, 1000);
    growing.update(500);
    constant.update(500);
    assert!(growing.position.x > constant.position.x);
}

#[test]
fn expires_exactly_at_lifetime() {
    let mut p = bolt(48_000, 0, 1000);
    assert!(!p.update(999));
    assert!(p.update(1));
    assert_eq!(p.age, 1000);
}

#[test]
fn a_straddling_tick_expires_immediately() {
    let mut p = bolt(48_000, 0, 500);
    // One tick that crosses the boundary must delete it on that tick.
    assert!(p.update(600));
}

#[test]
fn velocity_points_along_the_angle() {
    let p = Projectile::from_speed(
        48_000,
        0,
        v(0, 1000),
        v(0, 0),
        v(1000, 4000),
        1000,
        0,
        0,
        None,
    );
    assert_eq!(p.velocity(), v(0, 48_000));
    assert_eq!(p.distance_ahead(2000), v(0, 2000));
}

#[test]
fn hit_damages_the_center_and_alerts() {
    let center = Center::from_size(v(2000, 2000), 3, 0);
    let controller = EntityController { targets: Vec::new(), motion: None, shooting: None };
    let mut entity = Entity::from_rings(
        v(0, 0),
        0x00FF_0000,
        center,
        Vec::new(),
        Some(controller),
        Team::Hostile,
    );
    let p = Projectile::from_speed(
        0,
        0,
        v(1000, 0),
        v(500, 0),
        v(1000, 4000),
        1000,
        0,
        77,
        Some(Team::Player),
    );
    let collider = p.get_collider();
    let hit = p.check_collisions_with_entity(&collider, &mut entity, v(1000, 0));
    assert!(hit.is_some());
    let armor = entity.center.armor.expect("center survives three-point armor");
    assert_eq!(armor.health, 2);
    let targets = &entity.controller.as_ref().expect("controller kept").targets;
    assert_eq!(targets.as_slice(), &[77]);
}

#[test]
fn far_apart_means_no_hit() {
    let center = Center::from_size(v(2000, 2000), 3, 0);
    let mut entity = Entity::from_rings(
        v(500_000, 0),
        0x00FF_0000,
        center,
        Vec::new(),
        None,
        Team::Hostile,
    );
    let p = Projectile::from_speed(
        0,
        0,
        v(1000, 0),
        v(0, 0),
        v(1000, 4000),
        1000,
        0,
        0,
        Some(Team::Player),
    );
    let collider = p.get_collider();
    assert!(p.check_collisions_with_entity(&collider, &mut entity, v(1000, 0)).is_none());
    assert!(entity.center.armor.is_some());
}

#[test]
fn friendly_fire_is_checked_by_the_world_not_the_entity() {
    // check_collisions_with_entity itself ignores teams; the world skips
    // same-team entities before calling it. Equal teams still hit here.
    let center = Center::from_size(v(2000, 2000), 3, 0);
    let mut entity = Entity::from_rings(
        v(0, 0),
        0x00FF_0000,
        center,
        Vec::new(),
        None,
        Team::Player,
    );
    let p = Projectile::from_speed(
        0,
        0,
        v(1000, 0),
        v(500, 0),
        v(1000, 4000),
        1000,
        0,
        0,
        Some(Team::Player),
    );
    let collider = p.get_collider();
    assert!(p.check_collisions_with_entity(&collider, &mut entity, v(1000, 0)).is_some());
}
