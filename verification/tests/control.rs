//! Input debouncing and the control policies.

use orbit_core::app::App;
use orbit_core::components::Center;
use orbit_core::computer_controller::{
    closest_target, ComputerMotionController, ComputerMotionControllerKind,
    ComputerShootingController, Weapon,
};
use orbit_core::controller::{EntityController, SightKind, Team};
use orbit_core::entity::Entity;
use orbit_core::input::InputAxis;
use orbit_core::player_controller::{InputFrame, PlayerMotionController, PlayerShootingController};
use orbit_core::util::Vec2;

fn v(x: i64, y: i64) -> Vec2 {
    Vec2 { x, y }
}

fn idle_input() -> InputFrame {
    InputFrame {
        x_positive_down: false,
        x_negative_down: false,
        y_positive_down: false,
        y_negative_down: false,
        shoot_down: false,
        precise_shoot_down: false,
        mouse_position: v(0, 0),
    }
}

fn plain_entity(position: Vec2, team: Team, controller: Option<EntityController>) -> Entity {
    Entity::from_rings(
        position,
        0x0000_00FF,
        Center::from_size(v(2000, 2000), 8, 0),
        Vec::new(),
        controller,
        team,
    )
}

#[test]
fn axis_favors_most_recent_press() {
    let mut axis = InputAxis::new();
    axis.update_state(true, false);
    assert_eq!(axis.as_i8(), 1);
    // Opposite key pressed while the first is still held: the newer wins.
    axis.update_state(true, true);
    assert_eq!(axis.as_i8(), -1);
    // Release the newer key; the held one re-arms on the following frame.
    axis.update_state(true, false);
    assert_eq!(axis.as_i8(), 0);
    axis.update_state(true, false);
    assert_eq!(axis.as_i8(), 1);
    axis.update_state(false, false);
    assert_eq!(axis.as_i8(), 0);
}

#[test]
fn player_motion_sets_velocity_directly() {
    let mut pmc = PlayerMotionController {
        x_control: InputAxis::new(),
        y_control: InputAxis::new(),
        speed: 36_000,
    };
    let mut entity = plain_entity(v(0, 0), Team::Player, None);
    let input = InputFrame { x_positive_down: true, ..idle_input() };
    pmc.update(&mut entity, &input);
    assert_eq!(entity.velocity, v(36_000, 0));

    let mut pmc = PlayerMotionController {
        x_control: InputAxis::new(),
        y_control: InputAxis::new(),
        speed: 36_000,
    };
    let diagonal = InputFrame { x_positive_down: true, y_positive_down: true, ..idle_input() };
    pmc.update(&mut entity, &diagonal);
    // Normalized diagonal: (707, 707) scaled by the speed.
    assert_eq!(entity.velocity, v(25_452, 25_452));

    pmc.update(&mut entity, &idle_input());
    assert_eq!(entity.velocity, v(0, 0));
}

#[test]
fn player_shooting_fires_and_spins_up() {
    let mut app = App::from_ups(10_000);
    let entity = plain_entity(v(0, 0), Team::Player, None);
    let mut psc = PlayerShootingController {
        cooldown: 0,
        state: 0,
        speed_start: 500,
        speed_end: 250,
        precision_start: 0,
        precision_end: 150,
        delay_start: 1000,
        delay_end: 2000,
        aim: v(1000, 0),
    };
    let input = InputFrame {
        shoot_down: true,
        mouse_position: v(10_000, 0),
        ..idle_input()
    };
    app.mouse.update_mouse_position(v(10_000, 0));
    psc.update(7, &entity, 100, &mut app, &input);
    assert_eq!(psc.aim, v(1000, 0));
    assert_eq!(psc.cooldown, 500);
    assert_eq!(psc.state, 100);
    let shots = app.projectile_handles();
    assert_eq!(shots.len(), 1);
    let p = app.get_projectile(shots[0]).expect("the shot is stored");
    assert_eq!(p.initial_speed, 48_000);
    assert_eq!(p.speed_decay, 3912);
    assert_eq!(p.lifetime, 1000);
    assert_eq!(p.team, Some(Team::Player));
    assert_eq!(p.sender, 7);
    // The precise control also raises the spin-up state.
    let precise = InputFrame { precise_shoot_down: true, ..idle_input() };
    psc.update(7, &entity, 100, &mut app, &precise);
    assert_eq!(psc.state, 200);
    // The state falls again while no fire control is held.
    psc.update(7, &entity, 100, &mut app, &idle_input());
    assert_eq!(psc.state, 150);
}

#[test]
fn closest_target_prefers_the_nearer() {
    let mut app = App::from_ups(10_000);
    let near = app.insert_entity(plain_entity(v(10_000, 0), Team::Player, None));
    let far = app.insert_entity(plain_entity(v(50_000, 0), Team::Player, None));
    let targets = vec![far, near];
    let (chosen, displacement, d2) =
        closest_target(&targets, v(0, 0), &app).expect("two live targets");
    assert_eq!(chosen, near);
    assert_eq!(displacement, v(10_000, 0));
    assert_eq!(d2, 100_000_000);
    let stale = vec![0u64];
    assert!(closest_target(&stale, v(0, 0), &app).is_none());
}

#[test]
fn closest_target_tie_goes_to_the_first() {
    // Two living targets at exactly equal distance, east and west: the
    // first in the target list wins the tie.
    let mut app = App::from_ups(10_000);
    let east = app.insert_entity(plain_entity(v(100_000, 0), Team::Player, None));
    let west = app.insert_entity(plain_entity(v(-100_000, 0), Team::Player, None));
    let (chosen, displacement, _) =
        closest_target(&vec![east, west], v(0, 0), &app).expect("two live targets");
    assert_eq!(chosen, east);
    assert_eq!(displacement, v(100_000, 0));
    let (chosen, displacement, _) =
        closest_target(&vec![west, east], v(0, 0), &app).expect("two live targets");
    assert_eq!(chosen, west);
    assert_eq!(displacement, v(-100_000, 0));
}

#[test]
fn keep_distance_modes() {
    let cmc = ComputerMotionController {
        speed: 10_000,
        kind: ComputerMotionControllerKind::KeepDistance {
            min_distance: 30_000,
            max_distance: 60_000,
        },
    };
    // Too close: back away at full speed.
    assert_eq!(cmc.steer(v(10_000, 0)), v(-10_000, 0));
    // Too far: close in.
    assert_eq!(cmc.steer(v(100_000, 0)), v(10_000, 0));
    // In the band: hold position.
    assert_eq!(cmc.steer(v(45_000, 0)), v(0, 0));
}

#[test]
fn charge_heads_straight_in() {
    let cmc = ComputerMotionController {
        speed: 10_000,
        kind: ComputerMotionControllerKind::Charge,
    };
    assert_eq!(cmc.steer(v(0, 40_000)), v(0, 10_000));
}

#[test]
fn circle_blends_tangential_and_radial() {
    let cmc = ComputerMotionController {
        speed: 10_000,
        kind: ComputerMotionControllerKind::Circle {
            distance: 50_000,
            tangential_weight: -25_000,
        },
    };
    // Target 100 units east, orbit at 50: the radial surplus (50 units in)
    // blends with a southward tangential pull of weight -25.
    assert_eq!(cmc.steer(v(100_000, 0)), v(8940, -4470));
}

#[test]
fn computer_shooting_fires_a_volley() {
    let mut app = App::from_ups(10_000);
    let target = app.insert_entity(plain_entity(v(100_000, 0), Team::Player, None));
    let shooter = plain_entity(v(0, 0), Team::Hostile, None);
    let mut csc = ComputerShootingController {
        weapon: Weapon {
            initial_speed: 48_000,
            speed_decay: 3912,
            cooldown: 2000,
            projectiles_per_shot: 2,
            projectile_angle: 0,
            innacuracy: 0,
            sight_kind: SightKind::Arrow,
        },
        aim: None,
        cooldown: 0,
        aiming_lead: 0,
        lead_weight: 0,
    };
    let targets = vec![target];
    csc.update(3, &shooter, &targets, 100, &mut app);
    assert_eq!(csc.aim, Some(v(1000, 0)));
    assert_eq!(csc.cooldown, 2000);
    let shots = app.projectile_handles();
    assert_eq!(shots.len(), 2);
    for k in shots {
        let p = app.get_projectile(k).expect("volley shot is stored");
        assert_eq!(p.angle, v(1000, 0));
        assert_eq!(p.team, Some(Team::Hostile));
        assert_eq!(p.sender, 3);
    }
}

#[test]
fn computer_shooting_clears_aim_without_targets() {
    let mut app = App::from_ups(10_000);
    let shooter = plain_entity(v(0, 0), Team::Hostile, None);
    let mut csc = ComputerShootingController {
        weapon: Weapon {
            initial_speed: 48_000,
            speed_decay: 3912,
            cooldown: 2000,
            projectiles_per_shot: 1,
            projectile_angle: 0,
            innacuracy: 0,
            sight_kind: SightKind::Cross,
        },
        aim: Some(v(1000, 0)),
        cooldown: 700,
        aiming_lead: 0,
        lead_weight: 0,
    };
    let targets: Vec<u64> = Vec::new();
    csc.update(3, &shooter, &targets, 100, &mut app);
    assert_eq!(csc.aim, None);
    assert_eq!(csc.cooldown, 600);
    assert_eq!(app.projectile_handles().len(), 0);
}

#[test]
fn alert_deduplicates_targets() {
    let mut c = EntityController { targets: Vec::new(), motion: None, shooting: None };
    c.alert(11);
    c.alert(22);
    c.alert(11);
    assert_eq!(c.targets.as_slice(), &[11, 22]);
}

#[test]
fn hostile_entities_aggro_nearby_players() {
    let mut app = App::from_ups(10_000);
    let prey = app.insert_entity(plain_entity(v(50_000, 0), Team::Player, None));
    let controller = EntityController { targets: Vec::new(), motion: None, shooting: None };
    let mut hunter = plain_entity(v(0, 0), Team::Hostile, Some(controller));
    let hunter_handle = app.insert_entity(plain_entity(v(0, 0), Team::Hostile, None));
    EntityController::update(&mut hunter, hunter_handle, 100, &mut app, &idle_input());
    let targets = &hunter.controller.as_ref().expect("controller kept").targets;
    assert_eq!(targets.as_slice(), &[prey]);
}

#[test]
fn stale_targets_are_pruned() {
    let mut app = App::from_ups(10_000);
    let victim = app.insert_entity(plain_entity(v(10_000, 0), Team::Player, None));
    let controller = EntityController { targets: vec![victim], motion: None, shooting: None };
    let mut watcher = plain_entity(v(0, 0), Team::Neutral, Some(controller));
    // The target disappears from the world before the next control tick.
    let mut gone = app.entity_handles();
    gone.retain(|k| *k == victim);
    assert_eq!(gone.len(), 1);
    let removed = orbit_core::store::entity_remove(&mut app.entities, victim);
    assert!(removed.is_some());
    EntityController::update(&mut watcher, 999, 100, &mut app, &idle_input());
    let targets = &watcher.controller.as_ref().expect("controller kept").targets;
    assert!(targets.is_empty());
}

#[test]
fn pruning_keeps_the_survivors_in_order() {
    let mut app = App::from_ups(10_000);
    let first = app.insert_entity(plain_entity(v(10_000, 0), Team::Player, None));
    let second = app.insert_entity(plain_entity(v(20_000, 0), Team::Player, None));
    // A stale handle sits between two live ones; pruning drops it and keeps
    // the survivors' relative order.
    let controller = EntityController {
        targets: vec![first, 0, second],
        motion: None,
        shooting: None,
    };
    let mut watcher = plain_entity(v(0, 0), Team::Neutral, Some(controller));
    EntityController::update(&mut watcher, 999, 100, &mut app, &idle_input());
    let targets = &watcher.controller.as_ref().expect("controller kept").targets;
    assert_eq!(targets.as_slice(), &[first, second]);
}
