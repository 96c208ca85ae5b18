//! Player-driven motion and shooting policies.
//!
//! The collaborator polls the physical keys once per frame and hands the
//! core plain booleans and the pointer position; these policies turn them
//! into velocity, aim and fire decisions.

use vstd::prelude::*;

use crate::fixed::fx_ok;
use crate::input::InputAxis;
use crate::util::{lerp, spec_lerp, Vec2};

verus! {

/// The input snapshot of one frame: the held state of each bound direction
/// and fire control, and the pointer position in world coordinates.
#[derive(Clone, Copy, Debug)]
pub struct InputFrame {
    pub x_positive_down: bool,
    pub x_negative_down: bool,
    pub y_positive_down: bool,
    pub y_negative_down: bool,
    pub shoot_down: bool,
    pub precise_shoot_down: bool,
    pub mouse_position: Vec2,
}

/// Player motion: two debounced axes and a fixed speed; velocity is set
/// directly with no acceleration.
#[derive(Clone, Copy, Debug)]
pub struct PlayerMotionController {
    pub x_control: InputAxis,
    pub y_control: InputAxis,
    pub speed: i64,
}

/// The motion policy's scalar parameter is admissible.
pub open spec fn pmc_ok(c: PlayerMotionController) -> bool {
    fx_ok(c.speed as int)
}

/// Player shooting: a spin-up state in `[0, FX_ONE]` trading fire rate for
/// precision, a live cooldown, and the interpolation ranges for both.
#[derive(Clone, Copy, Debug)]
pub struct PlayerShootingController {
    pub cooldown: i64,
    pub state: i64,
    pub speed_start: i64,
    pub speed_end: i64,
    pub precision_start: i64,
    pub precision_end: i64,
    pub delay_start: i64,
    pub delay_end: i64,
    pub aim: Vec2,
}

/// The shooting policy's scalar parameters are admissible; the delays must
/// be positive since the spin-up state divides by them.
pub open spec fn psc_ok(c: PlayerShootingController) -> bool {
    &&& 0 <= c.cooldown <= 1_000_000
    &&& 0 <= c.state <= 1000
    &&& 0 <= c.speed_start <= 1_000_000
    &&& 0 <= c.speed_end <= 1_000_000
    &&& 0 <= c.precision_start <= 1_000_000
    &&& 0 <= c.precision_end <= 1_000_000
    &&& 1 <= c.delay_start <= 1_000_000
    &&& 1 <= c.delay_end <= 1_000_000
    &&& crate::util::v_ok(c.aim)
}

/// The input vector of the two axes after this frame's debounce step, each
/// component a signed unit in raw steps.
pub open spec fn spec_motion_input(
    c: PlayerMotionController,
    input: InputFrame,
) -> Vec2 {
    let x_axis = crate::input::spec_axis_update(
        c.x_control,
        input.x_positive_down,
        input.x_negative_down,
    );
    let y_axis = crate::input::spec_axis_update(
        c.y_control,
        input.y_positive_down,
        input.y_negative_down,
    );
    Vec2 {
        x: (crate::input::spec_axis_value(x_axis) * (crate::fixed::FX_ONE as int)) as i64,
        y: (crate::input::spec_axis_value(y_axis) * (crate::fixed::FX_ONE as int)) as i64,
    }
}

/// The velocity player motion sets: the input vector, normalized unless its
/// first component is zero (a vertical-only input is already a unit), scaled
/// by the configured speed.
pub open spec fn spec_motion_velocity(c: PlayerMotionController, input: InputFrame) -> Vec2 {
    let v = spec_motion_input(c, input);
    let dir = if v.x == 0 {
        v
    } else {
        crate::util::spec_normalize(v)
    };
    crate::collision::spec_vscale(dir, c.speed as int)
}

impl PlayerMotionController {
    /// Step the axis debouncers with this frame's keys and set the entity's
    /// velocity directly: normalized input times the configured speed.
    pub fn update(&mut self, entity: &mut crate::entity::Entity, input: &InputFrame)
        requires
            pmc_ok(*old(self)),
            crate::entity::entity_ok(old(entity)@),
        ensures
            final(self).x_control == crate::input::spec_axis_update(
                old(self).x_control,
                input.x_positive_down,
                input.x_negative_down,
            ),
            final(self).y_control == crate::input::spec_axis_update(
                old(self).y_control,
                input.y_positive_down,
                input.y_negative_down,
            ),
            final(self).speed == old(self).speed,
            final(entity)@ == (crate::entity::EntityView {
                velocity: spec_motion_velocity(*old(self), *input),
                ..old(entity)@
            }),
            crate::entity::entity_ok(final(entity)@),
    {
        self.x_control.update_state(input.x_positive_down, input.x_negative_down);
        self.y_control.update_state(input.y_positive_down, input.y_negative_down);
        let vx: i64 = (self.x_control.as_i8() as i64) * crate::fixed::FX_ONE;
        let vy: i64 = (self.y_control.as_i8() as i64) * crate::fixed::FX_ONE;
        let v: Vec2 = Vec2 { x: vx, y: vy };
        let dir: Vec2 = if v.x == 0 {
            v
        } else {
            crate::util::normalize(v)
        };
        entity.velocity = dir.vscale(self.speed);
    }
}

/// The spin-up state after one tick: it rises while any fire control
/// (normal or precise) is held and falls otherwise, at rates set by the
/// delay range, clamped to `[0, FX_ONE]`.
pub open spec fn spec_spun_state(c: PlayerShootingController, accelerate: bool, dt: int) -> int {
    let delta = if accelerate {
        crate::fixed::fx_tdiv(dt * (crate::fixed::FX_ONE as int), c.delay_start as int)
    } else {
        -crate::fixed::fx_tdiv(dt * (crate::fixed::FX_ONE as int), c.delay_end as int)
    };
    let next = c.state + delta;
    if next < 0 {
        0
    } else if next > 1000 {
        1000
    } else {
        next
    }
}

/// The hit flash mirrored onto reticle corner `j`: the rear plates of the
/// player's first ring, rear first, a destroyed plate showing as a full
/// flash; corners beyond the ring's plate count keep their old value, and
/// with no ring at all every corner shows a full flash.
pub open spec fn spec_corner_effect(
    m: crate::mouse_display::MouseDisplay,
    e: crate::entity::EntityView,
    j: int,
) -> int {
    if e.rings.len() > 0 {
        let ring = e.rings[0];
        if j < ring.armor.len() {
            match ring.armor[ring.armor.len() - 1 - j] {
                Some(a) => a.hit_effect as int,
                None => 65535,
            }
        } else {
            m.corner_effects[j] as int
        }
    } else {
        65535
    }
}

/// The reticle after the player shooting policy syncs it: rotation mirrors
/// the entity's core (and first ring), the radius scales with the spin-up
/// state and the pointer distance, the size boost with the live cooldown.
pub open spec fn spec_synced_mouse(
    m: crate::mouse_display::MouseDisplay,
    e: crate::entity::EntityView,
    state: int,
    cooldown: int,
) -> crate::mouse_display::MouseDisplay {
    let ring_angle = if e.rings.len() > 0 {
        crate::fixed::fx_clamped(e.rings[0].angle - 2356)
    } else {
        crate::fixed::fx_clamped(
            crate::fixed::fx_clamped(crate::fixed::fx_tdiv(e.center.angle * -500, 1000)) - 2356,
        )
    };
    let reach = crate::fixed::fx_clamped(
        crate::util::spec_length(crate::collision::spec_vsub(e.position, m.position)),
    );
    let scaled = crate::fixed::fx_clamped(
        crate::fixed::fx_tdiv(
            crate::fixed::fx_clamped(crate::fixed::fx_tdiv(state * reach, 1000)) * 125,
            1000,
        ),
    );
    let radius = if scaled < 0 {
        0int
    } else {
        scaled
    };
    let boost = crate::fixed::fx_tdiv(cooldown * 65535, 1000);
    let boost16 = if boost > 65535 {
        65535int
    } else if boost < 0 {
        0int
    } else {
        boost
    };
    crate::mouse_display::MouseDisplay {
        radius: radius as i64,
        center_angle: e.center.angle,
        center_speed: m.center_speed,
        ring_angle: ring_angle as i64,
        ring_speed: m.ring_speed,
        position: m.position,
        color: e.color,
        size_boost: boost16 as u16,
        center_effect: (match e.center.armor {
            Some(a) => a.hit_effect,
            None => m.center_effect,
        }),
        corner_effects: [
            spec_corner_effect(m, e, 0) as u16,
            spec_corner_effect(m, e, 1) as u16,
            spec_corner_effect(m, e, 2) as u16,
            spec_corner_effect(m, e, 3) as u16,
        ],
    }
}

impl PlayerShootingController {
    /// Track the pointer, count the cooldown down, fire on an expired
    /// cooldown while a fire control is held, and advance the spin-up
    /// state; then refresh the render-facing reticle.
    ///
    /// Aim, cooldown and spin-up state are exact. The fired projectile's
    /// direction depends on the random jitter, so only the growth of the
    /// projectile store is stated.
    pub fn update(
        &mut self,
        index: u64,
        entity: &crate::entity::Entity,
        delta_seconds: i64,
        app: &mut crate::app::App,
        input: &InputFrame,
    )
        requires
            psc_ok(*old(self)),
            crate::entity::entity_ok(entity@),
            crate::app::app_ok(*old(app)),
            0 <= delta_seconds <= 500_000,
        ensures
            psc_ok(*final(self)),
            final(self).aim == crate::util::spec_normalize(
                crate::collision::spec_vsub(old(app).mouse.position, entity.position),
            ),
            final(self).cooldown == (if (input.shoot_down || input.precise_shoot_down) && (if old(
                self,
            ).cooldown >= delta_seconds {
                old(self).cooldown - delta_seconds
            } else {
                0
            }) <= 0 {
                crate::util::spec_lerp(
                    old(self).speed_start as int,
                    old(self).speed_end as int,
                    old(self).state as int,
                )
            } else {
                if old(self).cooldown >= delta_seconds {
                    old(self).cooldown - delta_seconds
                } else {
                    0
                }
            }),
            final(self).state == spec_spun_state(
                *old(self),
                input.shoot_down || input.precise_shoot_down,
                delta_seconds as int,
            ),
            final(self).speed_start == old(self).speed_start,
            final(self).speed_end == old(self).speed_end,
            final(self).precision_start == old(self).precision_start,
            final(self).precision_end == old(self).precision_end,
            final(self).delay_start == old(self).delay_start,
            final(self).delay_end == old(self).delay_end,
            crate::app::app_ok(*final(app)),
            crate::store::entity_store(final(app).entities) == crate::store::entity_store(
                old(app).entities,
            ),
            final(app).timestep_length == old(app).timestep_length,
            final(app).update_time == old(app).update_time,
            final(app).frame_time == old(app).frame_time,
            final(app).mouse.position == old(app).mouse.position,
            crate::store::projectile_store(old(app).projectiles).submap_of(
                crate::store::projectile_store(final(app).projectiles),
            ),
            !((input.shoot_down || input.precise_shoot_down) && (if old(self).cooldown
                >= delta_seconds {
                old(self).cooldown - delta_seconds
            } else {
                0
            }) <= 0) ==> crate::store::projectile_store(final(app).projectiles)
                == crate::store::projectile_store(old(app).projectiles),
            ((input.shoot_down || input.precise_shoot_down) && (if old(self).cooldown
                >= delta_seconds {
                old(self).cooldown - delta_seconds
            } else {
                0
            }) <= 0) ==> exists|k: u64, jt: int|
                {
                    &&& !crate::store::projectile_store(old(app).projectiles).dom().contains(k)
                    &&& -crate::util::spec_lerp(
                        old(self).precision_start as int,
                        old(self).precision_end as int,
                        old(self).state as int,
                    ) <= jt <= crate::util::spec_lerp(
                        old(self).precision_start as int,
                        old(self).precision_end as int,
                        old(self).state as int,
                    )
                    &&& crate::store::projectile_store(final(app).projectiles)
                        == crate::store::projectile_store(old(app).projectiles).insert(
                        k,
                        crate::app::spec_spawned_projectile(
                            48_000,
                            3912,
                            crate::computer_controller::spec_clamp_unit(
                                crate::trig::spec_rotate(
                                    crate::util::spec_normalize(
                                        crate::collision::spec_vsub(
                                            old(app).mouse.position,
                                            entity.position,
                                        ),
                                    ),
                                    jt,
                                ),
                            ),
                            entity.position,
                            crate::fixed::fx_clamped(entity.radius + 4000) as i64,
                            entity.color,
                            entity.team,
                            index,
                        ),
                    )
                },
            final(app).mouse == spec_synced_mouse(
                old(app).mouse,
                entity@,
                final(self).state as int,
                final(self).cooldown as int,
            ),
    {
        let shoot_input: bool = input.shoot_down;
        let precise_shoot_input: bool = input.precise_shoot_down;
        let fire_held: bool = shoot_input || precise_shoot_input;
        let accelerate: bool = fire_held;

        let aim: Vec2 = crate::util::normalize(app.mouse.position.vsub(entity.position));
        self.aim = aim;

        self.cooldown = if self.cooldown >= delta_seconds {
            self.cooldown - delta_seconds
        } else {
            0
        };
        if fire_held && self.cooldown <= 0 {
            proof {
                crate::util::lemma_lerp_bounds(
                    self.speed_start as int,
                    self.speed_end as int,
                    self.state as int,
                );
            }
            self.cooldown = self.max_cooldown();
            let spread: i64 = lerp(self.precision_start, self.precision_end, self.state);
            proof {
                crate::util::lemma_lerp_bounds(
                    self.precision_start as int,
                    self.precision_end as int,
                    self.state as int,
                );
            }
            let draw: i64 = crate::random::random_jitter(1000);
            proof {
                assert(-(1000 * spread) <= draw * spread <= 1000 * spread) by (nonlinear_arith)
                    requires
                        -1000 <= draw <= 1000,
                        0 <= spread,
                ;
                crate::fixed::lemma_tdiv_magnitude(draw * spread, 1000, spread as int);
            }
            let jitter: i64 = crate::fixed::fx_mul(draw, spread);
            let nudged: Vec2 = crate::trig::rotate(aim, jitter);
            let unit: Vec2 = crate::computer_controller::clamp_unit(nudged);
            let shot: u64 = app.insert_projectile(
                48_000,
                3912,
                unit,
                entity.position,
                crate::fixed::fx_add(entity.radius, 4000),
                entity.color,
                entity.team,
                index,
            );
            proof {
                assert(-spread <= jitter <= spread);
                assert(crate::store::projectile_store(app.projectiles)
                    == crate::store::projectile_store(old(app).projectiles).insert(
                    shot,
                    crate::app::spec_spawned_projectile(
                        48_000,
                        3912,
                        crate::computer_controller::spec_clamp_unit(
                            crate::trig::spec_rotate(
                                crate::util::spec_normalize(
                                    crate::collision::spec_vsub(
                                        old(app).mouse.position,
                                        entity.position,
                                    ),
                                ),
                                jitter as int,
                            ),
                        ),
                        entity.position,
                        crate::fixed::fx_clamped(entity.radius + 4000) as i64,
                        entity.color,
                        entity.team,
                        index,
                    ),
                ));
            }
        }

        let rise: i64 = crate::fixed::fx_div_raw(delta_seconds * crate::fixed::FX_ONE, self.delay_start);
        let fall: i64 = crate::fixed::fx_div_raw(delta_seconds * crate::fixed::FX_ONE, self.delay_end);
        proof {
            crate::fixed::lemma_tdiv_magnitude(
                delta_seconds * (crate::fixed::FX_ONE as int),
                self.delay_start as int,
                500_000_000,
            );
            crate::fixed::lemma_tdiv_magnitude(
                delta_seconds * (crate::fixed::FX_ONE as int),
                self.delay_end as int,
                500_000_000,
            );
        }
        let next_state: i64 = if accelerate {
            self.state + rise
        } else {
            self.state - fall
        };
        self.state = if next_state < 0 {
            0
        } else if next_state > 1000 {
            1000
        } else {
            next_state
        };

        app.mouse.center_angle = entity.center.angle;
        match &entity.center.armor {
            Some(armor) => {
                app.mouse.center_effect = armor.hit_effect;
            },
            None => {},
        }
        if entity.rings.len() > 0 {
            proof {
                crate::entity::lemma_rings_view_index(entity.rings@, 0);
                assert(crate::components::ring_ok(entity@.rings[0]));
            }
            let ring_angle: i64 = entity.rings[0].angle;
            app.mouse.ring_angle = crate::fixed::fx_sub(ring_angle, 2356);
            app.mouse.set_effects_from_ring(&entity.rings[0]);
        } else {
            app.mouse.ring_angle = crate::fixed::fx_sub(
                crate::fixed::fx_mul(entity.center.angle, -500),
                2356,
            );
            app.mouse.set_effects_from_empty_ring();
        }
        let reach: i64 = crate::util::length(entity.position.vsub(app.mouse.position));
        let scaled_reach: i64 = crate::fixed::fx_mul(
            crate::fixed::fx_mul(self.state, crate::fixed::fx_clamp(reach)),
            125,
        );
        app.mouse.radius = if scaled_reach < 0 {
            0
        } else {
            scaled_reach
        };
        app.mouse.color = entity.color;
        let boost: i64 = crate::fixed::fx_div_raw(self.cooldown * 65535, crate::fixed::FX_ONE);
        app.mouse.size_boost = if boost > 65535 {
            65535
        } else if boost < 0 {
            0
        } else {
            boost as u16
        };
        proof {
            let sm = spec_synced_mouse(
                old(app).mouse,
                entity@,
                self.state as int,
                self.cooldown as int,
            );
            assert(app.mouse.corner_effects =~= sm.corner_effects);
            assert(app.mouse == sm);
        }
    }

    /// The cooldown a fresh shot starts from: the speed range interpolated
    /// by the spin-up state.
    pub fn max_cooldown(&self) -> (r: i64)
        requires
            fx_ok(self.speed_start as int),
            fx_ok(self.speed_end as int),
            fx_ok(self.state as int),
        ensures
            r == spec_lerp(self.speed_start as int, self.speed_end as int, self.state as int),
            fx_ok(r as int),
    {
        lerp(self.speed_start, self.speed_end, self.state)
    }
}

} // verus!
