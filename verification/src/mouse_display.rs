//! The aim-reticle state the renderer draws around the pointer.
//!
//! The player shooting policy refreshes this once per tick; the renderer
//! only reads it.

use vstd::prelude::*;

use crate::components::ArmorRing;
use crate::fixed::fx_ok;
use crate::util::{v_ok, Vec2};

verus! {

/// Render-facing reticle state: spin-up radius, the mirrored rotation of the
/// player's core and first ring, the pointer position, and per-corner hit
/// flashes.
#[derive(Clone, Copy, Debug)]
pub struct MouseDisplay {
    pub radius: i64,
    pub center_angle: i64,
    pub center_speed: i64,
    pub ring_angle: i64,
    pub ring_speed: i64,
    pub position: Vec2,
    pub color: u32,
    pub size_boost: u16,
    pub center_effect: u16,
    pub corner_effects: [u16; 4],
}

/// The scalar fields the policies compute with are admissible.
pub open spec fn mouse_ok(m: MouseDisplay) -> bool {
    &&& fx_ok(m.radius as int)
    &&& fx_ok(m.center_angle as int)
    &&& fx_ok(m.center_speed as int)
    &&& fx_ok(m.ring_angle as int)
    &&& fx_ok(m.ring_speed as int)
    &&& v_ok(m.position)
}

impl MouseDisplay {
    /// A fresh reticle at the origin with the given rotation speeds.
    pub fn from_speed(center_speed: i64, ring_speed: i64) -> (r: MouseDisplay)
        requires
            fx_ok(center_speed as int),
            fx_ok(ring_speed as int),
        ensures
            r == (MouseDisplay {
                radius: 0,
                center_angle: 0,
                center_speed,
                ring_angle: 0,
                ring_speed,
                position: Vec2 { x: 0, y: 0 },
                color: 0,
                size_boost: 0,
                center_effect: 0,
                corner_effects: [0u16, 0u16, 0u16, 0u16],
            }),
            mouse_ok(r),
    {
        MouseDisplay {
            radius: 0,
            center_angle: 0,
            center_speed,
            ring_angle: 0,
            ring_speed,
            position: Vec2 { x: 0, y: 0 },
            color: 0,
            size_boost: 0,
            center_effect: 0,
            corner_effects: [0u16, 0u16, 0u16, 0u16],
        }
    }

    /// Record the pointer's world position for this frame.
    pub fn update_mouse_position(&mut self, position: Vec2)
        requires
            v_ok(position),
        ensures
            *final(self) == (MouseDisplay { position, ..*old(self) }),
    {
        self.position = position;
    }

    /// Mirror the hit flashes of the last four plates of a ring, rear plate
    /// first; a destroyed plate shows as a full flash. A ring with fewer
    /// plates leaves the remaining corners untouched.
    pub fn set_effects_from_ring(&mut self, ring: &ArmorRing)
        ensures
            final(self).corner_effects@.len() == 4,
            forall|j: int|
                0 <= j < 4 ==> #[trigger] final(self).corner_effects[j] == (if j < ring@.armor.len() {
                    match ring@.armor[ring@.armor.len() - 1 - j] {
                        Some(a) => a.hit_effect,
                        None => 65535u16,
                    }
                } else {
                    old(self).corner_effects[j]
                }),
            *final(self) == (MouseDisplay { corner_effects: final(self).corner_effects, ..*old(
                self,
            ) }),
    {
        let n: usize = ring.armor.len();
        let mut j: usize = 0;
        while j < 4
            invariant
                j <= 4,
                n == ring@.armor.len(),
                self.corner_effects@.len() == 4,
                forall|t: int|
                    0 <= t < j ==> #[trigger] self.corner_effects[t] == (if t < n {
                        match ring@.armor[n - 1 - t] {
                            Some(a) => a.hit_effect,
                            None => 65535u16,
                        }
                    } else {
                        old(self).corner_effects[t]
                    }),
                forall|t: int|
                    j <= t < 4 ==> #[trigger] self.corner_effects[t] == old(
                        self,
                    ).corner_effects[t],
                self.radius == old(self).radius,
                self.center_angle == old(self).center_angle,
                self.center_speed == old(self).center_speed,
                self.ring_angle == old(self).ring_angle,
                self.ring_speed == old(self).ring_speed,
                self.position == old(self).position,
                self.color == old(self).color,
                self.size_boost == old(self).size_boost,
                self.center_effect == old(self).center_effect,
            decreases 4 - j,
        {
            if j < n {
                let effect: u16 = match ring.armor[n - 1 - j] {
                    Some(a) => a.hit_effect,
                    None => 65535,
                };
                self.corner_effects[j] = effect;
            }
            j += 1;
        }
    }

    /// Show every corner as a full flash, as for a ring with no plates left.
    pub fn set_effects_from_empty_ring(&mut self)
        ensures
            *final(self) == (MouseDisplay {
                corner_effects: [65535u16, 65535u16, 65535u16, 65535u16],
                ..*old(self)
            }),
    {
        self.corner_effects = [65535, 65535, 65535, 65535];
    }
}

} // verus!
