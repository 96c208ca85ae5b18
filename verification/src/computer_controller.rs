//! Computer-driven motion and shooting policies.

use vstd::prelude::*;

use crate::controller::SightKind;
use crate::entity::{entity_ok, Entity};
use crate::fixed::{fx_clamp, fx_clamped, fx_ok, fx_sub, FX_ONE};
use crate::util::{
    length, normalize, spec_length, spec_normalize, v_ok, Vec2,
};
use crate::collision::{spec_vadd, spec_vscale};
use crate::store::{entity_store, projectile_store};

verus! {

/// The tactical mode of a computer motion policy.
#[derive(Clone, Copy, Debug)]
pub enum ComputerMotionControllerKind {
    /// Close in below `min_distance`, retreat above `max_distance`, hold
    /// position in between.
    KeepDistance { min_distance: i64, max_distance: i64 },
    /// Orbit at `distance`, blending a tangential component weighted by
    /// `tangential_weight` with a radial correction.
    Circle { distance: i64, tangential_weight: i64 },
    /// Head straight at the target at full speed.
    Charge,
}

/// A computer motion policy: a speed and a tactical mode.
#[derive(Clone, Copy, Debug)]
pub struct ComputerMotionController {
    pub speed: i64,
    pub kind: ComputerMotionControllerKind,
}

/// All scalar parameters of the policy are admissible.
pub open spec fn cmc_ok(c: ComputerMotionController) -> bool {
    &&& fx_ok(c.speed as int)
    &&& match c.kind {
        ComputerMotionControllerKind::KeepDistance { min_distance, max_distance } => fx_ok(
            min_distance as int,
        ) && fx_ok(max_distance as int),
        ComputerMotionControllerKind::Circle { distance, tangential_weight } => fx_ok(
            distance as int,
        ) && fx_ok(tangential_weight as int),
        ComputerMotionControllerKind::Charge => true,
    }
}

/// The velocity the policy picks, given the displacement from the entity to
/// its chosen target.
pub open spec fn spec_steer(c: ComputerMotionController, displacement: Vec2) -> Vec2 {
    let dist = fx_clamped(spec_length(displacement));
    let dir = spec_normalize(displacement);
    match c.kind {
        ComputerMotionControllerKind::KeepDistance { min_distance, max_distance } => {
            if dist < min_distance {
                spec_vscale(Vec2 { x: (-dir.x) as i64, y: (-dir.y) as i64 }, c.speed as int)
            } else if dist > max_distance {
                spec_vscale(dir, c.speed as int)
            } else {
                Vec2 { x: 0, y: 0 }
            }
        },
        ComputerMotionControllerKind::Circle { distance, tangential_weight } => {
            let perpendicular = spec_vscale(
                Vec2 { x: (-dir.y) as i64, y: dir.x },
                tangential_weight as int,
            );
            let radial = spec_vscale(dir, fx_clamped(dist - distance));
            spec_vscale(spec_normalize(spec_vadd(perpendicular, radial)), c.speed as int)
        },
        ComputerMotionControllerKind::Charge => spec_vscale(dir, c.speed as int),
    }
}

impl ComputerMotionController {
    /// Pick a velocity from the displacement toward the chosen target.
    pub fn steer(&self, displacement: Vec2) -> (r: Vec2)
        requires
            cmc_ok(*self),
            v_ok(displacement),
        ensures
            r == spec_steer(*self, displacement),
            v_ok(r),
    {
        let dist: i64 = fx_clamp(length(displacement));
        let dir: Vec2 = normalize(displacement);
        match self.kind {
            ComputerMotionControllerKind::KeepDistance { min_distance, max_distance } => {
                if dist < min_distance {
                    (Vec2 { x: -dir.x, y: -dir.y }).vscale(self.speed)
                } else if dist > max_distance {
                    dir.vscale(self.speed)
                } else {
                    Vec2 { x: 0, y: 0 }
                }
            },
            ComputerMotionControllerKind::Circle { distance, tangential_weight } => {
                let perpendicular: Vec2 = (Vec2 { x: -dir.y, y: dir.x }).vscale(tangential_weight);
                let radial: Vec2 = dir.vscale(fx_sub(dist, distance));
                normalize(perpendicular.vadd(radial)).vscale(self.speed)
            },
            ComputerMotionControllerKind::Charge => dir.vscale(self.speed),
        }
    }
}

/// How a computer aims: the only mode points at the (lead-corrected) target.
#[derive(Clone, Copy, Debug)]
pub enum ComputerAimKind {
    PointTowards,
}

/// When a computer fires: always, or only within a distance band.
#[derive(Clone, Copy, Debug)]
pub enum ComputerFiringKind {
    Always,
    WithinDistance { min_distance: i64, max_distance: i64 },
}

/// The parameters of a computer weapon, in fixed point: muzzle speed, the
/// natural log of the per-second speed factor, the cooldown, the shot count
/// and angular spacing of a volley, and the aim jitter scale.
#[derive(Clone, Copy, Debug)]
pub struct Weapon {
    pub initial_speed: i64,
    pub speed_decay: i64,
    pub cooldown: i64,
    pub projectiles_per_shot: usize,
    pub projectile_angle: i64,
    pub innacuracy: i64,
    pub sight_kind: SightKind,
}

/// All scalar parameters of the weapon are admissible.
pub open spec fn weapon_ok(w: Weapon) -> bool {
    &&& 0 <= w.initial_speed <= 1_000_000
    &&& -8000 <= w.speed_decay <= 8000
    &&& 0 <= w.cooldown <= 1_000_000
    &&& 1 <= w.projectiles_per_shot <= 64
    &&& fx_ok(w.projectile_angle as int)
    &&& 0 <= w.innacuracy <= FX_ONE
}

/// A computer shooting policy: a weapon, the current aim (a unit vector once
/// a target has been seen), a live cooldown, and the lead-aiming blend.
#[derive(Clone, Copy, Debug)]
pub struct ComputerShootingController {
    pub weapon: Weapon,
    pub aim: Option<Vec2>,
    pub cooldown: i64,
    /// `FX_ONE` means full leading, zero means no leading.
    pub aiming_lead: i64,
    /// Added to the muzzle distance when estimating the intercept time.
    pub lead_weight: i64,
}

/// All scalar parameters of the policy are admissible.
pub open spec fn csc_ok(c: ComputerShootingController) -> bool {
    &&& weapon_ok(c.weapon)
    &&& (c.aim matches Some(a) ==> v_ok(a))
    &&& 0 <= c.cooldown <= 1_000_000
    &&& 0 <= c.aiming_lead <= FX_ONE
    &&& 0 <= c.lead_weight <= 1_000_000
}

/// The nearest living target among the first `n` handles: its handle, the
/// displacement toward it, and the squared distance. A later target replaces
/// an earlier one only when strictly nearer, so ties go to the first.
pub open spec fn spec_closest_upto(
    targets: Seq<u64>,
    position: Vec2,
    m: Map<u64, crate::entity::Entity>,
    n: int,
) -> Option<(u64, Vec2, i64)>
    decreases n,
{
    if n <= 0 {
        None
    } else {
        let rest = spec_closest_upto(targets, position, m, n - 1);
        let k = targets[n - 1];
        if m.dom().contains(k) {
            let disp = crate::collision::spec_vsub(m[k].position, position);
            let d2 = crate::util::spec_length_squared(disp);
            match rest {
                Some(b) => if d2 < b.2 {
                    Some((k, disp, d2 as i64))
                } else {
                    Some(b)
                },
                None => Some((k, disp, d2 as i64)),
            }
        } else {
            rest
        }
    }
}

/// The nearest living target among all the handles.
pub open spec fn spec_closest_target(
    targets: Seq<u64>,
    position: Vec2,
    m: Map<u64, crate::entity::Entity>,
) -> Option<(u64, Vec2, i64)> {
    spec_closest_upto(targets, position, m, targets.len() as int)
}

/// The nearest living entity among the given handles, measured from
/// `position`: its handle, the displacement toward it, and the squared
/// distance. Stale handles are skipped; among equally near targets the
/// first in the list wins.
pub fn closest_target(targets: &Vec<u64>, position: Vec2, app: &crate::app::App) -> (r: Option<
    (u64, Vec2, i64),
>)
    requires
        v_ok(position),
        crate::app::app_ok(*app),
    ensures
        r == spec_closest_target(targets@, position, crate::store::entity_store(app.entities)),
        r matches Some(t) ==> crate::store::entity_store(app.entities).dom().contains(t.0)
            && v_ok(t.1) && 0 <= t.2,
{
    let ghost m = crate::store::entity_store(app.entities);
    let n: usize = targets.len();
    let mut best: Option<(u64, Vec2, i64)> = None;
    let mut i: usize = 0;
    while i < n
        invariant
            i <= n,
            n == targets@.len(),
            v_ok(position),
            crate::app::app_ok(*app),
            m == crate::store::entity_store(app.entities),
            best == spec_closest_upto(targets@, position, m, i as int),
            best matches Some(t) ==> m.dom().contains(t.0) && v_ok(t.1) && 0 <= t.2,
        decreases n - i,
    {
        let k: u64 = targets[i];
        match crate::store::entity_get(&app.entities, k) {
            Some(target) => {
                let disp: Vec2 = target.position.vsub(position);
                let d2: i64 = crate::util::length_squared(disp);
                match &best {
                    Some(b) => {
                        if d2 < b.2 {
                            best = Some((k, disp, d2));
                        }
                    },
                    None => {
                        best = Some((k, disp, d2));
                    },
                }
            },
            None => {},
        }
        i += 1;
    }
    best
}

impl ComputerMotionController {
    /// Drive the entity's velocity toward (or around, or away from) the
    /// nearest living target; with no living target the entity stops.
    pub fn update(
        &mut self,
        entity: &mut Entity,
        targets: &Vec<u64>,
        app: &crate::app::App,
    )
        requires
            cmc_ok(*old(self)),
            entity_ok(old(entity)@),
            crate::app::app_ok(*app),
        ensures
            *final(self) == *old(self),
            final(entity)@ == (crate::entity::EntityView {
                velocity: match spec_closest_target(
                    targets@,
                    old(entity).position,
                    crate::store::entity_store(app.entities),
                ) {
                    Some(t) => spec_steer(*old(self), t.1),
                    None => (Vec2 { x: 0, y: 0 }),
                },
                ..old(entity)@
            }),
            entity_ok(final(entity)@),
    {
        match closest_target(targets, entity.position, app) {
            Some((_, displacement, _)) => {
                entity.velocity = self.steer(displacement);
            },
            None => {
                entity.velocity = Vec2 { x: 0, y: 0 };
            },
        }
    }
}

/// The intercept-time estimate toward a target `muzzle_distance` raw steps
/// away (plus the tunable weight), for a projectile whose speed grows by
/// `e^3.912` (fifty-fold) per second from a muzzle speed of 48 units:
/// the log-base-50 of the scaled distance, clamped to a positive argument.
pub open spec fn spec_lead_time(muzzle_distance: int, lead_weight: int) -> int {
    let a = crate::fixed::fx_clamped(
        crate::fixed::fx_tdiv_s((muzzle_distance + lead_weight) * 3912, 48_000),
    );
    let a1 = if a < 1 {
        1int
    } else {
        a
    };
    crate::fixed::fx_tdiv_s(crate::fixed::spec_fx_ln(a1) * (FX_ONE as int), 3912)
}

/// The aim the computer shooting policy settles on for a chosen target `t`
/// (handle, displacement, squared distance): the displacement plus the
/// lead-blended guess of how far the target moves before intercept,
/// normalized to a unit direction.
pub open spec fn spec_computer_aim(
    c: ComputerShootingController,
    entity_radius: i64,
    t: (u64, Vec2, i64),
    m: Map<u64, crate::entity::Entity>,
) -> Vec2 {
    let target_velocity = if m.dom().contains(t.0) {
        m[t.0].velocity
    } else {
        Vec2 { x: 0, y: 0 }
    };
    let lead = if c.aiming_lead != 0 {
        let muzzle = crate::fixed::fx_clamped(entity_radius + 4000);
        let dist = crate::fixed::fx_clamped(crate::util::sqrt_floor(t.2 as int));
        let muzzle_distance = crate::fixed::fx_clamped(dist - muzzle);
        let time = spec_lead_time(muzzle_distance, c.lead_weight as int);
        spec_vscale(spec_vscale(target_velocity, time), c.aiming_lead as int)
    } else {
        Vec2 { x: 0, y: 0 }
    };
    spec_normalize(spec_vadd(t.1, lead))
}

/// The pre-jitter angular offset of volley shot `t`: the sweep of
/// `projectiles_per_shot` evenly spaced shots is centered on the aim.
pub open spec fn spec_volley_offset(w: Weapon, t: int) -> int {
    let sweep = crate::fixed::fx_clamped(
        (w.projectiles_per_shot - 1) * (w.projectile_angle as int),
    );
    let start = -crate::fixed::fx_tdiv(sweep, 2);
    crate::fixed::fx_clamped(start + crate::fixed::fx_clamped(t * (w.projectile_angle as int)))
}

/// Volley shot `t` as it lands in the world: the aim rotated by the shot's
/// sweep offset plus a jitter of `jt`, fired from the entity's muzzle.
pub open spec fn spec_volley_shot(
    c: ComputerShootingController,
    e: Entity,
    aim: Vec2,
    index: u64,
    t: int,
    jt: int,
) -> crate::projectile::Projectile {
    crate::app::spec_spawned_projectile(
        c.weapon.initial_speed,
        c.weapon.speed_decay,
        spec_clamp_unit(
            crate::trig::spec_rotate(aim, crate::fixed::fx_clamped(spec_volley_offset(c.weapon, t) + jt)),
        ),
        e.position,
        crate::fixed::fx_clamped(e.radius + 4000) as i64,
        e.color,
        e.team,
        index,
    )
}

/// Handle `k` holds volley shot `t` for some jitter within the weapon's
/// inaccuracy.
pub open spec fn spec_is_volley_entry(
    after: Map<u64, crate::projectile::Projectile>,
    c: ComputerShootingController,
    e: Entity,
    aim: Vec2,
    index: u64,
    t: int,
    k: u64,
) -> bool {
    exists|jt: int|
        {
            &&& -c.weapon.innacuracy <= jt <= c.weapon.innacuracy
            &&& after[k] == spec_volley_shot(c, e, aim, index, t, jt)
        }
}

/// What firing a volley does to the projectile store: `ks` names the fresh
/// handles, `before` is untouched under them, and each new entry is the
/// volley shot of its slot.
pub open spec fn spec_volley_outcome(
    before: Map<u64, crate::projectile::Projectile>,
    after: Map<u64, crate::projectile::Projectile>,
    c: ComputerShootingController,
    e: Entity,
    aim: Vec2,
    index: u64,
    ks: Seq<u64>,
) -> bool {
    &&& ks.no_duplicates()
    &&& ks.len() == c.weapon.projectiles_per_shot
    &&& forall|t2: int| 0 <= t2 < ks.len() ==> !before.dom().contains(#[trigger] ks[t2])
    &&& forall|k: u64|
        #[trigger] after.dom().contains(k) <==> (before.dom().contains(k) || ks.contains(k))
    &&& forall|k: u64| #[trigger] before.dom().contains(k) ==> after[k] == before[k]
    &&& forall|t2: int|
        0 <= t2 < ks.len() ==> spec_is_volley_entry(after, c, e, aim, index, t2, #[trigger] ks[t2])
}

/// A near-unit vector with its components clamped into the unit range.
pub open spec fn spec_clamp_unit(v: Vec2) -> Vec2 {
    Vec2 {
        x: (if v.x > FX_ONE {
            FX_ONE as int
        } else if v.x < -FX_ONE {
            -FX_ONE as int
        } else {
            v.x as int
        }) as i64,
        y: (if v.y > FX_ONE {
            FX_ONE as int
        } else if v.y < -FX_ONE {
            -FX_ONE as int
        } else {
            v.y as int
        }) as i64,
    }
}

/// Clamp a near-unit vector's components into the unit range; rounding in
/// the fixed-point rotation can push them one step past it.
pub fn clamp_unit(v: Vec2) -> (r: Vec2)
    requires
        v_ok(v),
    ensures
        r == spec_clamp_unit(v),
        v_ok(r),
        -(FX_ONE as int) <= r.x <= FX_ONE,
        -(FX_ONE as int) <= r.y <= FX_ONE,
{
    let x: i64 = if v.x > FX_ONE {
        FX_ONE
    } else if v.x < -FX_ONE {
        -FX_ONE
    } else {
        v.x
    };
    let y: i64 = if v.y > FX_ONE {
        FX_ONE
    } else if v.y < -FX_ONE {
        -FX_ONE
    } else {
        v.y
    };
    Vec2 { x, y }
}

impl ComputerShootingController {
    /// Count the cooldown down, track the nearest living target with
    /// lead-corrected aim, and on cooldown expiry fire a volley of evenly
    /// spaced, jittered projectiles.
    ///
    /// The cooldown and aim are exact; the volley's directions depend on
    /// the random jitter, so each spawned shot is pinned up to a jitter
    /// angle within the weapon's inaccuracy.
    #[verifier::rlimit(100)]
    pub fn update(
        &mut self,
        index: u64,
        entity: &Entity,
        targets: &Vec<u64>,
        delta_seconds: i64,
        app: &mut crate::app::App,
    )
        requires
            csc_ok(*old(self)),
            entity_ok(entity@),
            crate::app::app_ok(*old(app)),
            0 <= delta_seconds <= 500_000,
        ensures
            csc_ok(*final(self)),
            final(self).weapon == old(self).weapon,
            final(self).aiming_lead == old(self).aiming_lead,
            final(self).lead_weight == old(self).lead_weight,
            spec_closest_target(
                targets@,
                entity.position,
                crate::store::entity_store(old(app).entities),
            ) is None ==> final(self).aim is None && final(self).cooldown == (if old(self).cooldown
                >= delta_seconds {
                old(self).cooldown - delta_seconds
            } else {
                0
            }) && *final(app) == *old(app),
            spec_closest_target(
                targets@,
                entity.position,
                crate::store::entity_store(old(app).entities),
            ) matches Some(t) ==> final(self).aim == Some(
                spec_computer_aim(
                    *old(self),
                    entity.radius,
                    t,
                    crate::store::entity_store(old(app).entities),
                ),
            ),
            spec_closest_target(
                targets@,
                entity.position,
                crate::store::entity_store(old(app).entities),
            ) is Some ==> final(self).cooldown == (if (if old(self).cooldown >= delta_seconds {
                old(self).cooldown - delta_seconds
            } else {
                0
            }) <= 0 {
                old(self).weapon.cooldown as int
            } else {
                if old(self).cooldown >= delta_seconds {
                    old(self).cooldown - delta_seconds
                } else {
                    0
                }
            }),
            spec_closest_target(
                targets@,
                entity.position,
                crate::store::entity_store(old(app).entities),
            ) is Some && (if old(self).cooldown >= delta_seconds {
                old(self).cooldown - delta_seconds
            } else {
                0
            }) > 0 ==> projectile_store(final(app).projectiles) == projectile_store(
                old(app).projectiles,
            ),
            spec_closest_target(
                targets@,
                entity.position,
                crate::store::entity_store(old(app).entities),
            ) is Some && (if old(self).cooldown >= delta_seconds {
                old(self).cooldown - delta_seconds
            } else {
                0
            }) <= 0 ==> exists|ks: Seq<u64>|
                spec_volley_outcome(
                    projectile_store(old(app).projectiles),
                    projectile_store(final(app).projectiles),
                    *old(self),
                    *entity,
                    spec_computer_aim(
                        *old(self),
                        entity.radius,
                        spec_closest_target(
                            targets@,
                            entity.position,
                            crate::store::entity_store(old(app).entities),
                        )->Some_0,
                        crate::store::entity_store(old(app).entities),
                    ),
                    index,
                    ks,
                ),
            crate::app::app_ok(*final(app)),
            entity_store(final(app).entities) == entity_store(old(app).entities),
            final(app).timestep_length == old(app).timestep_length,
            final(app).update_time == old(app).update_time,
            final(app).frame_time == old(app).frame_time,
            final(app).mouse == old(app).mouse,
            projectile_store(old(app).projectiles).submap_of(
                projectile_store(final(app).projectiles),
            ),
    {
        self.cooldown = if self.cooldown >= delta_seconds {
            self.cooldown - delta_seconds
        } else {
            0
        };
        let closest: Option<(u64, Vec2, i64)> = closest_target(targets, entity.position, app);
        match closest {
            None => {
                self.aim = None;
            },
            Some((target_index, displacement, distance_squared)) => {
                let target_velocity: Vec2 = match crate::store::entity_get(
                    &app.entities,
                    target_index,
                ) {
                    Some(target) => target.velocity,
                    None => Vec2 { x: 0, y: 0 },
                };
                let lead_amount: Vec2 = if self.aiming_lead != 0 {
                    let muzzle_length: i64 = crate::fixed::fx_add(entity.radius, 4000);
                    let dist: i64 = crate::fixed::isqrt(distance_squared as u64) as i64;
                    proof {
                        crate::util::lemma_sqrt_floor_unique(distance_squared as int, dist as int);
                    }
                    let muzzle_distance: i64 = crate::fixed::fx_sub(
                        crate::fixed::fx_clamp(dist),
                        muzzle_length,
                    );
                    proof {
                        crate::fixed::lemma_mul_magnitude(
                            muzzle_distance + self.lead_weight,
                            3912,
                            2_000_000_000,
                            3912,
                        );
                    }
                    let scaled: i64 = crate::fixed::fx_clamp(
                        crate::fixed::fx_div_raw((muzzle_distance + self.lead_weight) * 3912, 48_000),
                    );
                    let arg: i64 = if scaled < 1 {
                        1
                    } else {
                        scaled
                    };
                    let expected_time: i64 = crate::fixed::fx_div_raw(
                        crate::fixed::fx_ln(arg) * FX_ONE,
                        3912,
                    );
                    target_velocity.vscale(expected_time).vscale(self.aiming_lead)
                } else {
                    Vec2 { x: 0, y: 0 }
                };
                let aim: Vec2 = normalize(displacement.vadd(lead_amount));
                self.aim = Some(aim);
                if self.cooldown <= 0 {
                    self.cooldown = self.weapon.cooldown;
                    let count: usize = self.weapon.projectiles_per_shot;
                    proof {
                        crate::fixed::lemma_mul_magnitude(
                            count as int - 1,
                            self.weapon.projectile_angle as int,
                            64,
                            1_000_000_000,
                        );
                    }
                    let sweep: i64 = crate::fixed::fx_clamp(
                        (count as i64 - 1) * self.weapon.projectile_angle,
                    );
                    let start_offset: i64 = -crate::fixed::fx_div_raw(sweep, 2);
                    proof {
                        crate::fixed::lemma_tdiv_magnitude(
                            sweep as int,
                            2,
                            1_000_000_000,
                        );
                    }
                    let ghost spec_aim = spec_computer_aim(
                        *old(self),
                        entity.radius,
                        spec_closest_target(
                            targets@,
                            entity.position,
                            entity_store(old(app).entities),
                        )->Some_0,
                        entity_store(old(app).entities),
                    );
                    let ghost mut ks: Seq<u64> = Seq::empty();
                    let mut i: usize = 0;
                    while i < count
                        invariant
                            i <= count,
                            count == old(self).weapon.projectiles_per_shot,
                            count <= 64,
                            self.weapon == old(self).weapon,
                            csc_ok(*self),
                            entity_ok(entity@),
                            v_ok(aim),
                            -(FX_ONE as int) <= aim.x <= FX_ONE,
                            -(FX_ONE as int) <= aim.y <= FX_ONE,
                            aim == spec_aim,
                            fx_ok(start_offset as int),
                            start_offset == -crate::fixed::fx_tdiv(
                                crate::fixed::fx_clamped(
                                    (count - 1) * (old(self).weapon.projectile_angle as int),
                                ),
                                2,
                            ),
                            crate::app::app_ok(*app),
                            entity_store(app.entities) == entity_store(old(app).entities),
                            app.timestep_length == old(app).timestep_length,
                            app.update_time == old(app).update_time,
                            app.frame_time == old(app).frame_time,
                            app.mouse == old(app).mouse,
                            ks.len() == i,
                            ks.no_duplicates(),
                            forall|t2: int|
                                0 <= t2 < i ==> !projectile_store(
                                    old(app).projectiles,
                                ).dom().contains(#[trigger] ks[t2]),
                            forall|k: u64|
                                #[trigger] projectile_store(app.projectiles).dom().contains(k)
                                    <==> (projectile_store(old(app).projectiles).dom().contains(k)
                                    || ks.contains(k)),
                            forall|k: u64|
                                #[trigger] projectile_store(old(app).projectiles).dom().contains(k)
                                    ==> projectile_store(app.projectiles)[k] == projectile_store(
                                    old(app).projectiles,
                                )[k],
                            forall|t2: int|
                                0 <= t2 < i ==> spec_is_volley_entry(
                                    projectile_store(app.projectiles),
                                    *old(self),
                                    *entity,
                                    spec_aim,
                                    index,
                                    t2,
                                    #[trigger] ks[t2],
                                ),
                        decreases count - i,
                    {
                        proof {
                            crate::fixed::lemma_mul_magnitude(
                                i as int,
                                self.weapon.projectile_angle as int,
                                64,
                                1_000_000_000,
                            );
                        }
                        let angle_offset: i64 = crate::fixed::fx_add(
                            start_offset,
                            crate::fixed::fx_clamp((i as i64) * self.weapon.projectile_angle),
                        );
                        proof {
                            assert(angle_offset == crate::fixed::fx_clamped(
                                spec_volley_offset(old(self).weapon, i as int) + 0,
                            ));
                        }
                        let draw: i64 = crate::random::random_jitter(1000);
                        proof {
                            assert(-(1000 * self.weapon.innacuracy) <= draw * self.weapon.innacuracy
                                <= 1000 * self.weapon.innacuracy) by (nonlinear_arith)
                                requires
                                    -1000 <= draw <= 1000,
                                    0 <= self.weapon.innacuracy,
                            ;
                            crate::fixed::lemma_tdiv_magnitude(
                                draw * self.weapon.innacuracy,
                                1000,
                                self.weapon.innacuracy as int,
                            );
                        }
                        let jitter: i64 = crate::fixed::fx_mul(draw, self.weapon.innacuracy);
                        let nudged: Vec2 = crate::trig::rotate(
                            aim,
                            crate::fixed::fx_add(angle_offset, jitter),
                        );
                        let unit: Vec2 = clamp_unit(nudged);
                        proof {
                            assert(-(FX_ONE as int) <= unit.x <= FX_ONE && -(FX_ONE as int)
                                <= unit.y <= FX_ONE);
                        }
                        let ghost pre_store = projectile_store(app.projectiles);
                        let ghost pre_ks = ks;
                        let shot: u64 = app.insert_projectile(
                            self.weapon.initial_speed,
                            self.weapon.speed_decay,
                            unit,
                            entity.position,
                            crate::fixed::fx_add(entity.radius, 4000),
                            entity.color,
                            entity.team,
                            index,
                        );
                        proof {
                            assert(!pre_ks.contains(shot));
                            ks = pre_ks.push(shot);
                            assert forall|k: u64| pre_ks.contains(k) implies ks.contains(k) by {
                                let w = choose|w: int| 0 <= w < pre_ks.len() && pre_ks[w] == k;
                                assert(ks[w] == k);
                            }
                            assert(ks[pre_ks.len() as int] == shot);
                            assert(ks.contains(shot));
                            assert forall|k: u64| ks.contains(k) implies (pre_ks.contains(k) || k
                                == shot) by {
                                let w = choose|w: int| 0 <= w < ks.len() && ks[w] == k;
                                if w < pre_ks.len() {
                                    assert(pre_ks[w] == k);
                                }
                            }
                            assert(unit == spec_clamp_unit(
                                crate::trig::spec_rotate(
                                    spec_aim,
                                    crate::fixed::fx_clamped(
                                        spec_volley_offset(old(self).weapon, i as int)
                                            + jitter,
                                    ),
                                ),
                            ));
                            assert(projectile_store(app.projectiles)[shot] == spec_volley_shot(
                                *old(self),
                                *entity,
                                spec_aim,
                                index,
                                i as int,
                                jitter as int,
                            ));
                            assert forall|t2: int| 0 <= t2 < i + 1 implies spec_is_volley_entry(
                                projectile_store(app.projectiles),
                                *old(self),
                                *entity,
                                spec_aim,
                                index,
                                t2,
                                #[trigger] ks[t2],
                            ) by {
                                if t2 < i {
                                    assert(spec_is_volley_entry(
                                        pre_store,
                                        *old(self),
                                        *entity,
                                        spec_aim,
                                        index,
                                        t2,
                                        pre_ks[t2],
                                    ));
                                    let jt0 = choose|jt0: int|
                                        {
                                            &&& -old(self).weapon.innacuracy <= jt0 <= old(
                                                self,
                                            ).weapon.innacuracy
                                            &&& pre_store[pre_ks[t2]] == spec_volley_shot(
                                                *old(self),
                                                *entity,
                                                spec_aim,
                                                index,
                                                t2,
                                                jt0,
                                            )
                                        };
                                    assert(ks[t2] == pre_ks[t2]);
                                    assert(ks[t2] != shot);
                                    assert(projectile_store(app.projectiles)[ks[t2]]
                                        == pre_store[pre_ks[t2]]);
                                    assert(projectile_store(app.projectiles)[ks[t2]]
                                        == spec_volley_shot(
                                        *old(self),
                                        *entity,
                                        spec_aim,
                                        index,
                                        t2,
                                        jt0,
                                    ));
                                } else {
                                    assert(ks[t2] == shot);
                                    assert(projectile_store(app.projectiles)[ks[t2]]
                                        == spec_volley_shot(
                                        *old(self),
                                        *entity,
                                        spec_aim,
                                        index,
                                        t2,
                                        jitter as int,
                                    ));
                                }
                            }
                        }
                        i += 1;
                    }
                    proof {
                        assert(spec_volley_outcome(
                            projectile_store(old(app).projectiles),
                            projectile_store(app.projectiles),
                            *old(self),
                            *entity,
                            spec_aim,
                            index,
                            ks,
                        ));
                    }
                }
            },
        }
    }

    /// The current aim, cooldown and sight, if a target has been seen.
    pub fn aim(&self) -> (r: Option<(Vec2, i64, SightKind)>)
        ensures
            r == match self.aim {
                Some(a) => Some((a, self.cooldown, self.weapon.sight_kind)),
                None => None::<(Vec2, i64, SightKind)>,
            },
    {
        match self.aim {
            Some(aim) => Some((aim, self.cooldown, self.weapon.sight_kind)),
            None => None,
        }
    }
}

} // verus!
