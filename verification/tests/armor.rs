//! Armor plates, rings, the core, and the reticle mirror.

use orbit_core::components::{Armor, ArmorRing, Center, HIT_EFFECT_ON_DAMAGE};
use orbit_core::mouse_display::MouseDisplay;
use orbit_core::util::Vec2;

fn v(x: i64, y: i64) -> Vec2 {
    Vec2 { x, y }
}

#[test]
fn damage_below_health_subtracts_and_flashes() {
    let mut slot = Some(Armor::from_size(v(2000, 1000), 5));
    Armor::damage(&mut slot, 3);
    let a = slot.expect("plate must survive");
    assert_eq!(a.health, 2);
    assert_eq!(a.max_health, 5);
    assert_eq!(a.hit_effect, HIT_EFFECT_ON_DAMAGE);
}

#[test]
fn damage_at_health_destroys_the_plate() {
    let mut slot = Some(Armor::from_size(v(2000, 1000), 5));
    Armor::damage(&mut slot, 5);
    assert!(slot.is_none());
}

#[test]
fn damage_never_underflows() {
    let mut slot = Some(Armor::from_size(v(2000, 1000), 1));
    Armor::damage(&mut slot, 255);
    assert!(slot.is_none());
    let mut empty: Option<Armor> = None;
    Armor::damage(&mut empty, 7);
    assert!(empty.is_none());
}

#[test]
fn hit_effect_decays_to_zero() {
    let mut a = Armor::from_size(v(2000, 1000), 5);
    a.hit_effect = 65535;
    a.update_hit_effect(500);
    assert_eq!(a.hit_effect, 0);
    let mut b = Armor::from_size(v(2000, 1000), 5);
    b.hit_effect = HIT_EFFECT_ON_DAMAGE;
    b.update_hit_effect(100);
    assert_eq!(b.hit_effect, HIT_EFFECT_ON_DAMAGE - 13107);
}

#[test]
fn health_ratio_is_fixed_point() {
    let mut a = Armor::from_size(v(2000, 1000), 4);
    a.health = 1;
    assert_eq!(a.get_health_ratio(), 250);
    a.health = 4;
    assert_eq!(a.get_health_ratio(), 1000);
}

#[test]
fn modify_color_without_flash_is_identity() {
    let a = Armor::from_size(v(2000, 1000), 4);
    assert_eq!(a.modify_color(0x00AB_CDEF), 0x00AB_CDEF);
}

#[test]
fn modify_color_darkens_under_flash() {
    let mut a = Armor::from_size(v(2000, 1000), 4);
    a.hit_effect = 65535;
    assert_eq!(a.modify_color(0x00AB_CDEF), 0);
}

#[test]
fn plate_radius_accounts_for_mount() {
    let a = Armor::from_size(v(2000, 1000), 4);
    // (height + radius)^2 + width^2 / 4 with height 1000, radius 3500.
    assert_eq!(a.get_radius_squared(3500), 4500 * 4500 + 2000 * 2000 / 4);
}

#[test]
fn ring_full_radius_tracks_survivors() {
    let mut ring = ArmorRing::from_size(v(2000, 1000), 2, 4, 3500, 0);
    let full = ring.get_full_radius_squared().expect("fresh ring is live");
    assert_eq!(full, 4500 * 4500 + 2000 * 2000 / 4);
    for i in 0..4 {
        ring.damage_slot(i, 2);
    }
    assert!(ring.get_full_radius_squared().is_none());
}

#[test]
fn ring_increment_divides_the_turn() {
    let ring = ArmorRing::from_size(v(2000, 1000), 2, 4, 3500, 0);
    assert_eq!(ring.get_increment(), orbit_core::trig::FX_TAU / 4);
}

#[test]
fn ring_colliders_align_with_slots() {
    let ring = ArmorRing::from_size(v(2000, 1000), 2, 2, 3000, 0);
    let colliders = ring.get_colliders(v(0, 0));
    assert_eq!(colliders.len(), 2);
    assert!(colliders[0].is_some());
    assert!(colliders[1].is_some());
    let mut hurt = ring;
    hurt.damage_slot(0, 2);
    let colliders = hurt.get_colliders(v(0, 0));
    assert!(colliders[0].is_none());
    assert!(colliders[1].is_some());
}

#[test]
fn center_rotation_wraps() {
    let mut c = Center::from_size(v(2000, 2000), 8, 500);
    c.update(1000);
    assert_eq!(c.angle, 500);
    c.update(1000000);
    assert!(c.angle >= 0 && c.angle < orbit_core::trig::FX_TAU);
}

#[test]
fn reticle_mirrors_ring_flashes() {
    let mut ring = ArmorRing::from_size(v(2000, 1000), 2, 4, 3500, 0);
    ring.damage_slot(3, 1);
    ring.damage_slot(0, 2);
    let mut mouse = MouseDisplay::from_speed(0, 0);
    mouse.set_effects_from_ring(&ring);
    // Rear plate first: slot 3 flashed, slots 2 and 1 untouched, slot 0 gone.
    assert_eq!(mouse.corner_effects[0], HIT_EFFECT_ON_DAMAGE);
    assert_eq!(mouse.corner_effects[1], 0);
    assert_eq!(mouse.corner_effects[2], 0);
    assert_eq!(mouse.corner_effects[3], 65535);
    mouse.set_effects_from_empty_ring();
    assert_eq!(mouse.corner_effects, [65535; 4]);
}

#[test]
fn ring_rotation_advances_and_wraps() {
    let mut ring = ArmorRing::from_size(v(2000, 1000), 2, 4, 3500, 500);
    ring.update(1000);
    assert_eq!(ring.angle, 500);
    ring.update(1000000);
    assert!(ring.angle >= 0 && ring.angle < orbit_core::trig::FX_TAU);
}
