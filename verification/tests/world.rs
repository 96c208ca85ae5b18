//! The fixed-timestep scheduler and end-to-end world scenarios.

use orbit_core::app::App;
use orbit_core::components::{ArmorRing, Center};
use orbit_core::computer_controller::{
    ComputerMotionController, ComputerMotionControllerKind,
};
use orbit_core::controller::{EntityController, MotionController, Team};
use orbit_core::entity::Entity;
use orbit_core::player_controller::InputFrame;
use orbit_core::util::Vec2;

fn v(x: i64, y: i64) -> Vec2 {
    Vec2 { x, y }
}

fn idle_input() -> InputFrame {
    InputFrame {
        x_positive_down: false,
        x_negative_down: false,
        y_positive_down: false,
        y_negative_down: false,
        shoot_down: false,
        precise_shoot_down: false,
        mouse_position: v(0, 0),
    }
}

fn plain_entity(position: Vec2, team: Team, controller: Option<EntityController>) -> Entity {
    Entity::from_rings(
        position,
        0x0000_00FF,
        Center::from_size(v(2000, 2000), 1, 0),
        Vec::new(),
        controller,
        team,
    )
}

#[test]
fn scheduler_runs_due_ticks_and_carries_remainder() {
    // Ten updates per second: a tick is 0.1 s. After 0.35 s of wall time,
    // exactly three ticks run and 0.05 s carries over.
    let mut app = App::from_ups(10_000);
    assert_eq!(app.timestep_length, 100);
    let ticks = app.update(350, &idle_input());
    assert_eq!(ticks, 3);
    assert_eq!(app.update_time, 50);
    assert_eq!(app.frame_time, 350);
}

#[test]
fn scheduler_caps_ticks_and_keeps_the_backlog() {
    // Twelve ticks due: only five run, and the other seven ticks' worth of
    // time stays in the accumulator rather than being discarded.
    let mut app = App::from_ups(10_000);
    let ticks = app.update(1200, &idle_input());
    assert_eq!(ticks, 5);
    assert_eq!(app.update_time, 700);
    // The backlog drains on the following (instant) frame.
    let ticks = app.update(0, &idle_input());
    assert_eq!(ticks, 5);
    assert_eq!(app.update_time, 200);
}

#[test]
fn projectile_hit_removes_entity_and_projectile() {
    // A stationary entity with center armor health 1 is overlapped by an
    // opposing projectile: one tick removes both from the world.
    let mut app = App::from_ups(10_000);
    let victim = app.insert_entity(plain_entity(v(0, 0), Team::Hostile, None));
    app.insert_projectile(0, 0, v(1000, 0), v(500, 0), 0, 0x00FF_FFFF, Team::Player, 0);
    assert_eq!(app.projectile_handles().len(), 1);
    let ticks = app.update(100, &idle_input());
    assert_eq!(ticks, 1);
    assert!(!app.contains_entity(victim));
    assert_eq!(app.projectile_handles().len(), 0);
}

#[test]
fn same_team_projectiles_pass_through() {
    let mut app = App::from_ups(10_000);
    let mate = app.insert_entity(plain_entity(v(0, 0), Team::Player, None));
    app.insert_projectile(0, 0, v(1000, 0), v(500, 0), 0, 0x00FF_FFFF, Team::Player, 0);
    app.update(100, &idle_input());
    assert!(app.contains_entity(mate));
    assert_eq!(app.projectile_handles().len(), 1);
}

#[test]
fn expired_projectiles_are_pruned() {
    let mut app = App::from_ups(10_000);
    app.insert_projectile(0, 0, v(1000, 0), v(500_000, 0), 0, 0, Team::Player, 0);
    // The standard bolt lives one second: ten ticks.
    for _ in 0..9 {
        app.update(100, &idle_input());
        assert_eq!(app.projectile_handles().len(), 1);
    }
    app.update(100, &idle_input());
    assert_eq!(app.projectile_handles().len(), 0);
}

#[test]
fn circling_entity_blends_tangential_and_radial_velocity() {
    // An orbiting hunter 100 units west of its prey: orbit distance 50,
    // tangential weight -25, speed 10. The exact blended velocity follows
    // from the fixed-point steering arithmetic.
    let mut app = App::from_ups(10_000);
    let prey = app.insert_entity(plain_entity(v(100_000, 0), Team::Player, None));
    let motion = ComputerMotionController {
        speed: 10_000,
        kind: ComputerMotionControllerKind::Circle {
            distance: 50_000,
            tangential_weight: -25_000,
        },
    };
    let controller = EntityController {
        targets: vec![prey],
        motion: Some(MotionController::Computer(motion)),
        shooting: None,
    };
    let hunter = app.insert_entity(plain_entity(v(0, 0), Team::Hostile, Some(controller)));
    app.update(100, &idle_input());
    let moved = app.get_entity(hunter).expect("hunter survives the tick");
    assert_eq!(moved.velocity, v(8940, -4470));
    assert_eq!(moved.position, v(894, -447));
}

#[test]
fn dead_rings_are_pruned_on_deletion_check() {
    let ring = ArmorRing::from_size(v(2000, 1000), 1, 2, 3500, 0);
    let mut entity = Entity::from_rings(
        v(0, 0),
        0x0000_00FF,
        Center::from_size(v(2000, 2000), 8, 0),
        vec![ring],
        None,
        Team::Neutral,
    );
    // Destroy both plates; the ring must vanish and the radius shrink to
    // the core's own bounding radius.
    {
        let ring = &mut entity.rings[0];
        ring.damage_slot(0, 1);
        ring.damage_slot(1, 1);
    }
    assert!(entity.check_deletion().is_some());
    assert!(entity.rings.is_empty());
    assert_eq!(entity.radius, 1414);
}

#[test]
fn deletion_requested_once_the_core_is_gone() {
    let mut entity = plain_entity(v(0, 0), Team::Neutral, None);
    entity.center.armor = None;
    assert!(entity.check_deletion().is_none());
}

#[test]
fn stale_handles_never_resolve_again() {
    let mut app = App::from_ups(10_000);
    let first = app.insert_entity(plain_entity(v(0, 0), Team::Neutral, None));
    assert!(app.contains_entity(first));
    let removed = orbit_core::store::entity_remove(&mut app.entities, first);
    assert!(removed.is_some());
    assert!(app.get_entity(first).is_none());
    // A later insert may recycle the slot, but under a fresh generation:
    // the old handle must keep resolving to nothing.
    let second = app.insert_entity(plain_entity(v(5000, 0), Team::Neutral, None));
    assert_ne!(first, second);
    assert!(app.get_entity(first).is_none());
    assert!(app.contains_entity(second));
}

#[test]
fn radius_falls_back_to_the_core_when_no_ring_survives() {
    // Rings exist but every plate is destroyed: the bounding radius must
    // come from the core, exactly as when there are no rings at all.
    let mut ring = ArmorRing::from_size(v(2000, 1000), 1, 2, 3500, 0);
    ring.damage_slot(0, 1);
    ring.damage_slot(1, 1);
    let entity = Entity::from_rings(
        v(0, 0),
        0x0000_00FF,
        Center::from_size(v(2000, 2000), 8, 0),
        vec![ring],
        None,
        Team::Neutral,
    );
    assert_eq!(entity.radius, 1414);
    assert_eq!(entity.get_full_radius(), 1414);
}

#[test]
fn surviving_hit_keeps_the_entity_and_consumes_the_shot() {
    let mut app = App::from_ups(10_000);
    let tough = app.insert_entity(Entity::from_rings(
        v(0, 0),
        0x0000_00FF,
        Center::from_size(v(2000, 2000), 3, 0),
        Vec::new(),
        None,
        Team::Hostile,
    ));
    app.insert_projectile(0, 0, v(1000, 0), v(500, 0), 0, 0x00FF_FFFF, Team::Player, 0);
    app.update(100, &idle_input());
    let survivor = app.get_entity(tough).expect("three-point core survives one hit");
    let armor = survivor.center.armor.expect("core armor stays");
    assert_eq!(armor.health, 2);
    // The hit consumed the projectile.
    assert_eq!(app.projectile_handles().len(), 0);
}
