//! The world and its fixed-timestep loop.
//!
//! The collaborator's render loop measures elapsed wall time, polls input
//! once per frame and calls [`App::update`]; the core drains up to
//! `MAX_UPDATES_PER_FRAME` fixed-length ticks from the accumulated time and
//! carries the remainder over, so the simulation advances at a fixed rate
//! regardless of framerate. Each tick updates every entity (rotation,
//! control policies, motion), then every projectile (analytic motion and
//! collision), then prunes expired projectiles and dead entities — pruning
//! is deferred to the end of each pass so iteration never sees a
//! half-removed world.

use vstd::prelude::*;

use crate::controller::Team;
use crate::entity::{entity_ok, Entity};
use crate::fixed::FX_ONE;
use crate::mouse_display::{mouse_ok, MouseDisplay};
use crate::player_controller::InputFrame;
use crate::projectile::{proj_ok, Projectile};
use crate::store::{
    entity_arena_new, entity_contains, entity_get, entity_insert, entity_keys, entity_remove,
    entity_set, entity_store, projectile_arena_new, projectile_get, projectile_insert,
    projectile_keys, projectile_remove, projectile_set, projectile_store,
};
use crate::trig::FX_TAU;
use crate::util::{displacement_from_angle, v_ok, Vec2};

verus! {

/// The most simulation ticks one rendered frame may run; further due ticks
/// carry over to later frames.
pub const MAX_UPDATES_PER_FRAME: usize = 5;

/// The world: the fixed-timestep accumulator, the entity and projectile
/// stores, and the aim reticle the renderer reads.
pub struct App {
    pub timestep_length: i64,
    pub update_time: i64,
    pub frame_time: i64,
    pub entities: thunderdome::Arena<Entity>,
    pub projectiles: thunderdome::Arena<Projectile>,
    pub mouse: MouseDisplay,
}

/// World invariant: a positive bounded timestep, bounded accumulators, a
/// valid reticle, and every stored entity and projectile valid.
pub open spec fn app_ok(a: App) -> bool {
    &&& 1 <= a.timestep_length <= 500_000
    &&& 0 <= a.update_time <= 1_000_000_000
    &&& 0 <= a.frame_time <= 1_000_000_000
    &&& mouse_ok(a.mouse)
    &&& forall|k: u64|
        #[trigger] entity_store(a.entities).dom().contains(k) ==> entity_ok(
            entity_store(a.entities)[k]@,
        )
    &&& forall|k: u64|
        #[trigger] projectile_store(a.projectiles).dom().contains(k) ==> proj_ok(
            projectile_store(a.projectiles)[k],
        )
}

/// Every projectile in `after` that `before` lacked is newborn: its age is
/// zero.
pub open spec fn spec_fresh_age_zero(
    before: Map<u64, Projectile>,
    after: Map<u64, Projectile>,
) -> bool {
    forall|k: u64|
        #[trigger] after.dom().contains(k) && !before.dom().contains(k) ==> after[k].age == 0
}

/// One tick's effect on the world, exactly as `App::run_timestep`
/// guarantees it: the scheduler fields and pointer are untouched, no entity
/// appears, survivors keep their core (unless it was already gone) and
/// rotate exactly once, projectiles due to expire are gone, surviving old
/// projectiles moved one closed-form step, and tick-born survivors are one
/// timestep old.
pub open spec fn spec_tick_rel(pre: App, post: App) -> bool {
    &&& post.timestep_length == pre.timestep_length
    &&& post.update_time == pre.update_time
    &&& post.frame_time == pre.frame_time
    &&& post.mouse.position == pre.mouse.position
    &&& forall|k: u64|
        #[trigger] entity_store(post.entities).dom().contains(k) ==> entity_store(
            pre.entities,
        ).dom().contains(k)
    &&& forall|k: u64|
        #[trigger] entity_store(post.entities).dom().contains(k) ==> entity_store(
            post.entities,
        )[k]@.center.armor is Some || entity_store(pre.entities)[k]@.center.armor is None
    &&& forall|k: u64|
        #[trigger] entity_store(post.entities).dom().contains(k) ==> entity_store(
            post.entities,
        )[k]@.center.angle == crate::components::spec_center_advanced(
            entity_store(pre.entities)[k]@.center,
            pre.timestep_length as int,
        ).angle && entity_store(post.entities)[k]@.center.speed == entity_store(
            pre.entities,
        )[k]@.center.speed
    &&& forall|k: u64|
        #[trigger] projectile_store(pre.projectiles).dom().contains(k) && spec_due_to_expire(
            projectile_store(pre.projectiles)[k],
            pre.timestep_length as int,
        ) ==> !projectile_store(post.projectiles).dom().contains(k)
    &&& forall|k: u64|
        #[trigger] projectile_store(pre.projectiles).dom().contains(k) && projectile_store(
            post.projectiles,
        ).dom().contains(k) ==> projectile_store(post.projectiles)[k]
            == crate::projectile::spec_after_motion(
            projectile_store(pre.projectiles)[k],
            pre.timestep_length as int,
        )
    &&& forall|k: u64|
        #[trigger] projectile_store(post.projectiles).dom().contains(k) && !projectile_store(
            pre.projectiles,
        ).dom().contains(k) ==> projectile_store(post.projectiles)[k].age == pre.timestep_length
}

/// `chain` witnesses `n` consecutive ticks from `pre`'s world to `post`'s:
/// its ends carry their stores, and each adjacent pair is one tick.
pub open spec fn spec_tick_chain(chain: Seq<App>, pre: App, post: App, n: int) -> bool {
    &&& 0 <= n
    &&& chain.len() == n + 1
    &&& chain[0].timestep_length == pre.timestep_length
    &&& entity_store(chain[0].entities) == entity_store(pre.entities)
    &&& projectile_store(chain[0].projectiles) == projectile_store(pre.projectiles)
    &&& entity_store(chain[n].entities) == entity_store(post.entities)
    &&& projectile_store(chain[n].projectiles) == projectile_store(post.projectiles)
    &&& forall|i: int| 0 <= i < n ==> spec_tick_rel(#[trigger] chain[i], chain[i + 1])
}

/// The fate of the tick's projectiles: `struck` names the ones consumed by
/// hitting an entity, and a projectile of `before` stands in `after` if and
/// only if it neither expired nor struck. Which projectiles strike depends
/// on collision geometry and the store's iteration order, so `struck` is
/// existentially bound by the tick contract.
pub open spec fn spec_pass_disposition(
    before: Map<u64, Projectile>,
    after: Map<u64, Projectile>,
    dt: int,
    struck: Seq<u64>,
) -> bool {
    &&& forall|k: u64|
        #[trigger] struck.contains(k) ==> !after.dom().contains(k) && (before.dom().contains(k)
            ==> !spec_due_to_expire(before[k], dt))
    &&& forall|k: u64|
        #[trigger] before.dom().contains(k) ==> (after.dom().contains(k) <==> (
        !spec_due_to_expire(before[k], dt) && !struck.contains(k)))
}

/// This tick's aging pushes the projectile to (or past) its lifetime.
pub open spec fn spec_due_to_expire(p: Projectile, dt: int) -> bool {
    p.age + dt >= p.lifetime
}

impl App {
    /// An empty world running `updates_per_second` (fixed point) ticks per
    /// second. At least two updates per second are required: that keeps
    /// every tick within the half-second cap the fixed-point update
    /// contracts assume.
    pub fn from_ups(updates_per_second: i64) -> (r: App)
        requires
            2000 <= updates_per_second <= 1_000_000,
        ensures
            r.timestep_length == (FX_ONE as int) * (FX_ONE as int) / (updates_per_second as int),
            r.update_time == 0,
            r.frame_time == 0,
            forall|k: u64| !entity_store(r.entities).dom().contains(k),
            forall|k: u64| !projectile_store(r.projectiles).dom().contains(k),
            app_ok(r),
    {
        let timestep_length: i64 = ((1_000_000u64) / (updates_per_second as u64)) as i64;
        proof {
            assert(1 <= 1_000_000 as int / (updates_per_second as int) <= 500) by (nonlinear_arith)
                requires
                    2000 <= updates_per_second <= 1_000_000,
            ;
        }
        App {
            timestep_length,
            update_time: 0,
            frame_time: 0,
            entities: entity_arena_new(),
            projectiles: projectile_arena_new(),
            mouse: MouseDisplay::from_speed(-(FX_TAU / 6), FX_TAU / 12),
        }
    }

    /// Add an entity to the world, returning its handle.
    pub fn insert_entity(&mut self, e: Entity) -> (k: u64)
        requires
            app_ok(*old(self)),
            entity_ok(e@),
        ensures
            !entity_store(old(self).entities).dom().contains(k),
            entity_store(final(self).entities) == entity_store(old(self).entities).insert(k, e),
            projectile_store(final(self).projectiles) == projectile_store(old(self).projectiles),
            final(self).timestep_length == old(self).timestep_length,
            final(self).update_time == old(self).update_time,
            final(self).frame_time == old(self).frame_time,
            final(self).mouse == old(self).mouse,
            app_ok(*final(self)),
    {
        entity_insert(&mut self.entities, e)
    }

    /// Look up an entity by handle; a stale handle yields nothing.
    pub fn get_entity<'a>(&'a self, k: u64) -> (r: Option<&'a Entity>)
        ensures
            r is Some <==> entity_store(self.entities).dom().contains(k),
            r matches Some(e) ==> *e == entity_store(self.entities)[k],
    {
        entity_get(&self.entities, k)
    }

    /// Whether a handle still refers to a live entity.
    pub fn contains_entity(&self, k: u64) -> (r: bool)
        ensures
            r == entity_store(self.entities).dom().contains(k),
    {
        entity_contains(&self.entities, k)
    }

    /// Look up a projectile by handle; a stale handle yields nothing.
    pub fn get_projectile<'a>(&'a self, k: u64) -> (r: Option<&'a Projectile>)
        ensures
            r is Some <==> projectile_store(self.projectiles).dom().contains(k),
            r matches Some(p) ==> *p == projectile_store(self.projectiles)[k],
    {
        projectile_get(&self.projectiles, k)
    }

    /// The handles of all live projectiles, in no particular order.
    pub fn projectile_handles(&self) -> (r: Vec<u64>)
        ensures
            r@.no_duplicates(),
            forall|k: u64| r@.contains(k) <==> projectile_store(self.projectiles).dom().contains(
                k,
            ),
    {
        projectile_keys(&self.projectiles)
    }

    /// The handles of all live entities, in no particular order.
    pub fn entity_handles(&self) -> (r: Vec<u64>)
        ensures
            r@.no_duplicates(),
            forall|k: u64| r@.contains(k) <==> entity_store(self.entities).dom().contains(k),
    {
        entity_keys(&self.entities)
    }

    /// Spawn a projectile fired by `sender`: it starts `offset_radius` ahead
    /// of `position` along the unit direction `aim`, with the standard bolt
    /// shape and a one-second lifetime.
    pub fn insert_projectile(
        &mut self,
        initial_speed: i64,
        speed_decay: i64,
        aim: Vec2,
        position: Vec2,
        offset_radius: i64,
        color: u32,
        team: Team,
        sender: u64,
    ) -> (k: u64)
        requires
            app_ok(*old(self)),
            0 <= initial_speed <= 1_000_000,
            -8000 <= speed_decay <= 8000,
            v_ok(aim),
            -(FX_ONE as int) <= aim.x <= FX_ONE,
            -(FX_ONE as int) <= aim.y <= FX_ONE,
            v_ok(position),
            0 <= offset_radius <= 10_000_000,
        ensures
            !projectile_store(old(self).projectiles).dom().contains(k),
            projectile_store(final(self).projectiles) == projectile_store(
                old(self).projectiles,
            ).insert(k, spec_spawned_projectile(initial_speed, speed_decay, aim, position,
                offset_radius, color, team, sender)),
            entity_store(final(self).entities) == entity_store(old(self).entities),
            final(self).timestep_length == old(self).timestep_length,
            final(self).update_time == old(self).update_time,
            final(self).frame_time == old(self).frame_time,
            final(self).mouse == old(self).mouse,
            app_ok(*final(self)),
    {
        let start: Vec2 = position.vadd(displacement_from_angle(aim, offset_radius));
        let p: Projectile = Projectile::from_speed(
            initial_speed,
            speed_decay,
            aim,
            start,
            Vec2 { x: 1000, y: 4000 },
            1000,
            color,
            sender,
            Some(team),
        );
        projectile_insert(&mut self.projectiles, p)
    }

    /// Accumulate `elapsed` raw seconds of wall time and drain up to
    /// `MAX_UPDATES_PER_FRAME` fixed ticks from it, returning how many ran.
    /// Time for ticks beyond the cap stays in the accumulator for later
    /// frames; it is never discarded.
    pub fn update(&mut self, elapsed: i64, input: &InputFrame) -> (ticks: usize)
        requires
            app_ok(*old(self)),
            0 <= elapsed,
            old(self).update_time + elapsed <= 1_000_000_000,
            crate::util::v_ok(input.mouse_position),
        ensures
            ticks as int == (if (old(self).update_time + elapsed) / (
            old(self).timestep_length as int) < MAX_UPDATES_PER_FRAME {
                (old(self).update_time + elapsed) / (old(self).timestep_length as int)
            } else {
                MAX_UPDATES_PER_FRAME as int
            }),
            final(self).update_time == old(self).update_time + elapsed - ticks * old(
                self,
            ).timestep_length,
            final(self).frame_time == elapsed,
            final(self).timestep_length == old(self).timestep_length,
            final(self).mouse.position == input.mouse_position,
            ticks == 0 ==> entity_store(final(self).entities) == entity_store(old(self).entities)
                && projectile_store(final(self).projectiles) == projectile_store(
                old(self).projectiles,
            ),
            exists|chain: Seq<App>|
                spec_tick_chain(chain, *old(self), *final(self), ticks as int),
            app_ok(*final(self)),
    {
        self.frame_time = elapsed;
        self.update_time = self.update_time + elapsed;
        self.mouse.update_mouse_position(input.mouse_position);
        let due: u64 = (self.update_time as u64) / (self.timestep_length as u64);
        let ticks: usize = if due < (MAX_UPDATES_PER_FRAME as u64) {
            due as usize
        } else {
            MAX_UPDATES_PER_FRAME
        };
        proof {
            assert((ticks as int) * (self.timestep_length as int) <= self.update_time)
                by (nonlinear_arith)
                requires
                    1 <= self.timestep_length,
                    0 <= self.update_time,
                    ticks as int <= (self.update_time as int) / (self.timestep_length as int),
                    ticks as int >= 0,
            ;
            assert((ticks as int) * (self.timestep_length as int) >= 0) by (nonlinear_arith)
                requires
                    1 <= self.timestep_length,
                    0 <= ticks,
            ;
        }
        let ghost mut chain: Seq<App> = seq![*self];
        let mut t: usize = 0;
        while t < ticks
            invariant
                t <= ticks,
                ticks <= MAX_UPDATES_PER_FRAME,
                app_ok(*self),
                self.timestep_length == old(self).timestep_length,
                self.update_time == old(self).update_time + elapsed,
                self.frame_time == elapsed,
                self.mouse.position == input.mouse_position,
                chain.len() == t + 1,
                chain[0].timestep_length == old(self).timestep_length,
                entity_store(chain[0].entities) == entity_store(old(self).entities),
                projectile_store(chain[0].projectiles) == projectile_store(old(self).projectiles),
                chain[t as int] == *self,
                forall|i: int| 0 <= i < t ==> spec_tick_rel(#[trigger] chain[i], chain[i + 1]),
            decreases ticks - t,
        {
            let ghost pre = *self;
            self.run_timestep(input);
            proof {
                chain = chain.push(*self);
                assert(spec_tick_rel(pre, *self));
                assert(chain[t + 1] == *self);
                assert forall|i: int| 0 <= i < t + 1 implies spec_tick_rel(
                    #[trigger] chain[i],
                    chain[i + 1],
                ) by {
                    if i < t as int {
                        assert(chain[i] == chain.drop_last()[i]);
                        assert(chain[i + 1] == chain.drop_last()[i + 1]);
                    }
                }
            }
            t += 1;
        }
        let consumed: i64 = (ticks as i64) * self.timestep_length;
        self.update_time = self.update_time - consumed;
        proof {
            assert(spec_tick_chain(chain, *old(self), *self, ticks as int));
        }
        ticks
    }

    /// Run one fixed simulation tick.
    ///
    /// First every entity updates (rotation and flash decay, control
    /// policies, position integration), then every projectile moves along
    /// its analytic trajectory and resolves collisions, damaging at most one
    /// entity; expired and spent projectiles, and entities whose core armor
    /// is gone, are pruned only after their pass completes. No entity is
    /// ever created by a tick; a surviving entity's core rotates exactly
    /// once (hits touch armor, never the rotation) and keeps its armor
    /// unless it already had none — so an entity whose core armor reaches
    /// zero is removed; every surviving projectile has moved exactly one
    /// step along its closed-form trajectory (tick-born ones are one
    /// timestep old); every projectile whose age reaches its lifetime this
    /// tick is gone; and a projectile of the old store survives if and only
    /// if it neither expired nor was consumed striking an entity.
    #[verifier::rlimit(100)]
    pub fn run_timestep(&mut self, input: &InputFrame)
        requires
            app_ok(*old(self)),
        ensures
            app_ok(*final(self)),
            final(self).timestep_length == old(self).timestep_length,
            final(self).update_time == old(self).update_time,
            final(self).frame_time == old(self).frame_time,
            final(self).mouse.position == old(self).mouse.position,
            forall|k: u64|
                #[trigger] entity_store(final(self).entities).dom().contains(k) ==> entity_store(
                    old(self).entities,
                ).dom().contains(k),
            forall|k: u64|
                #[trigger] entity_store(final(self).entities).dom().contains(k) ==> entity_store(
                    final(self).entities,
                )[k]@.center.armor is Some || entity_store(
                    old(self).entities,
                )[k]@.center.armor is None,
            forall|k: u64|
                #[trigger] entity_store(final(self).entities).dom().contains(k) ==> entity_store(
                    final(self).entities,
                )[k]@.center.angle == crate::components::spec_center_advanced(
                    entity_store(old(self).entities)[k]@.center,
                    old(self).timestep_length as int,
                ).angle && entity_store(final(self).entities)[k]@.center.speed == entity_store(
                    old(self).entities,
                )[k]@.center.speed,
            forall|k: u64|
                #[trigger] projectile_store(old(self).projectiles).dom().contains(k)
                    && spec_due_to_expire(
                    projectile_store(old(self).projectiles)[k],
                    old(self).timestep_length as int,
                ) ==> !projectile_store(final(self).projectiles).dom().contains(k),
            forall|k: u64|
                #[trigger] projectile_store(old(self).projectiles).dom().contains(k)
                    && projectile_store(final(self).projectiles).dom().contains(k)
                    ==> projectile_store(final(self).projectiles)[k]
                    == crate::projectile::spec_after_motion(
                    projectile_store(old(self).projectiles)[k],
                    old(self).timestep_length as int,
                ),
            forall|k: u64|
                #[trigger] projectile_store(final(self).projectiles).dom().contains(k)
                    && !projectile_store(old(self).projectiles).dom().contains(k)
                    ==> projectile_store(final(self).projectiles)[k].age == old(
                    self,
                ).timestep_length,
            spec_tick_rel(*old(self), *final(self)),
            exists|struck: Seq<u64>|
                spec_pass_disposition(
                    projectile_store(old(self).projectiles),
                    projectile_store(final(self).projectiles),
                    old(self).timestep_length as int,
                    struck,
                ),
    {
        let dt: i64 = self.timestep_length;
        let ghost opstore = projectile_store(old(self).projectiles);
        let ghost oestore = entity_store(old(self).entities);
        let ghost oedom = entity_store(old(self).entities).dom();

        let keys: Vec<u64> = entity_keys(&self.entities);
        let n: usize = keys.len();
        let mut i: usize = 0;
        while i < n
            invariant
                i <= n,
                n == keys@.len(),
                keys@.no_duplicates(),
                app_ok(*self),
                1 <= dt <= 500_000,
                opstore == projectile_store(old(self).projectiles),
                oestore == entity_store(old(self).entities),
                oedom == entity_store(old(self).entities).dom(),
                self.timestep_length == old(self).timestep_length,
                self.update_time == old(self).update_time,
                self.frame_time == old(self).frame_time,
                self.mouse.position == old(self).mouse.position,
                forall|j: u64|
                    #[trigger] entity_store(self.entities).dom().contains(j) <==> oedom.contains(
                        j,
                    ),
                forall|j: u64| oedom.contains(j) <==> keys@.contains(j),
                forall|t: int|
                    i <= t < n ==> #[trigger] entity_store(self.entities)[keys@[t]]
                        == oestore[keys@[t]],
                forall|t: int|
                    0 <= t < i ==> (#[trigger] entity_store(self.entities)[keys@[t]])@.center
                        == crate::components::spec_center_advanced(
                        oestore[keys@[t]]@.center,
                        dt as int,
                    ),
                forall|k: u64|
                    #[trigger] opstore.dom().contains(k) ==> projectile_store(
                        self.projectiles,
                    ).dom().contains(k) && projectile_store(self.projectiles)[k] == opstore[k],
                spec_fresh_age_zero(opstore, projectile_store(self.projectiles)),
            decreases n - i,
        {
            let k: u64 = keys[i];
            let copied: Option<Entity> = match entity_get(&self.entities, k) {
                Some(e) => Some(e.duplicate()),
                None => None,
            };
            match copied {
                Some(mut ent) => {
                    proof {
                        assert(entity_store(self.entities).dom().contains(k));
                        assert(entity_ok(ent@));
                    }
                    let ghost pre_proj = projectile_store(self.projectiles);
                    ent.update(k, dt, self, input);
                    entity_set(&mut self.entities, k, ent);
                    proof {
                        assert forall|k2: u64| #[trigger] opstore.dom().contains(
                            k2,
                        ) implies projectile_store(self.projectiles).dom().contains(k2) by {
                            assert(pre_proj.dom().contains(k2));
                            assert(pre_proj.submap_of(projectile_store(self.projectiles)));
                        }
                        assert forall|k2: u64| #[trigger] opstore.dom().contains(
                            k2,
                        ) implies projectile_store(self.projectiles)[k2] == opstore[k2] by {
                            assert(pre_proj.dom().contains(k2) && pre_proj[k2] == opstore[k2]);
                            assert(pre_proj.submap_of(projectile_store(self.projectiles)));
                        }
                        assert forall|k2: u64|
                            #[trigger] projectile_store(self.projectiles).dom().contains(k2)
                                && !opstore.dom().contains(k2) implies projectile_store(
                            self.projectiles,
                        )[k2].age == 0 by {
                            if pre_proj.dom().contains(k2) {
                                assert(pre_proj[k2].age == 0);
                                assert(pre_proj.submap_of(projectile_store(self.projectiles)));
                            } else {
                                assert(spec_fresh_age_zero(
                                    pre_proj,
                                    projectile_store(self.projectiles),
                                ));
                            }
                        }
                    }
                },
                None => {},
            }
            i += 1;
        }

        proof {
            assert forall|j: u64| #[trigger] entity_store(self.entities).dom().contains(
                j,
            ) implies entity_store(self.entities)[j]@.center
                == crate::components::spec_center_advanced(oestore[j]@.center, dt as int) by {
                assert(keys@.contains(j));
                let t = choose|t: int| 0 <= t < keys@.len() && keys@[t] == j;
                assert(entity_store(self.entities)[keys@[t]]@.center
                    == crate::components::spec_center_advanced(oestore[keys@[t]]@.center, dt as int));
            }
        }

        let pkeys: Vec<u64> = projectile_keys(&self.projectiles);
        let ghost pass_dom = projectile_store(self.projectiles).dom();
        let pn: usize = pkeys.len();
        proof {
            assert forall|t: int|
                0 <= t < pn && !opstore.dom().contains(#[trigger] pkeys@[t]) implies
            projectile_store(self.projectiles)[pkeys@[t]].age == 0 by {
                assert(pkeys@.contains(pkeys@[t]));
                assert(projectile_store(self.projectiles).dom().contains(pkeys@[t]));
            }
        }
        let mut dead_projectiles: Vec<u64> = Vec::new();
        let mut dead_entities: Vec<u64> = Vec::new();
        let ghost mut struck: Seq<u64> = Seq::empty();
        let mut i: usize = 0;
        while i < pn
            invariant
                i <= pn,
                pn == pkeys@.len(),
                pkeys@.no_duplicates(),
                app_ok(*self),
                1 <= dt <= 500_000,
                opstore == projectile_store(old(self).projectiles),
                oedom == entity_store(old(self).entities).dom(),
                self.timestep_length == old(self).timestep_length,
                self.update_time == old(self).update_time,
                self.frame_time == old(self).frame_time,
                self.mouse.position == old(self).mouse.position,
                forall|j: u64|
                    #[trigger] entity_store(self.entities).dom().contains(j) <==> oedom.contains(
                        j,
                    ),
                forall|j: u64|
                    #[trigger] entity_store(self.entities).dom().contains(j) ==> entity_store(
                        self.entities,
                    )[j]@.center.armor is Some || oestore[j]@.center.armor is None
                        || dead_entities@.contains(j),
                forall|j: u64|
                    #[trigger] entity_store(self.entities).dom().contains(j) ==> entity_store(
                        self.entities,
                    )[j]@.center.angle == crate::components::spec_center_advanced(
                        oestore[j]@.center,
                        dt as int,
                    ).angle && entity_store(self.entities)[j]@.center.speed
                        == oestore[j]@.center.speed,
                forall|k: u64| #[trigger] opstore.dom().contains(k) ==> pkeys@.contains(k),
                forall|t: int|
                    i <= t < pn && opstore.dom().contains(#[trigger] pkeys@[t])
                        ==> projectile_store(self.projectiles).dom().contains(pkeys@[t])
                        && projectile_store(self.projectiles)[pkeys@[t]] == opstore[pkeys@[t]],
                forall|t: int|
                    0 <= t < i && opstore.dom().contains(#[trigger] pkeys@[t])
                        && spec_due_to_expire(opstore[pkeys@[t]], dt as int)
                        ==> dead_projectiles@.contains(pkeys@[t]),
                forall|t: int|
                    0 <= t < i && opstore.dom().contains(#[trigger] pkeys@[t])
                        ==> dead_projectiles@.contains(pkeys@[t]) || (projectile_store(
                        self.projectiles,
                    ).dom().contains(pkeys@[t]) && projectile_store(self.projectiles)[pkeys@[t]]
                        == crate::projectile::spec_after_motion(opstore[pkeys@[t]], dt as int)),
                forall|k: u64|
                    #[trigger] projectile_store(self.projectiles).dom().contains(k)
                        <==> pass_dom.contains(k),
                forall|k: u64| pkeys@.contains(k) <==> pass_dom.contains(k),
                forall|t: int|
                    i <= t < pn && !opstore.dom().contains(#[trigger] pkeys@[t])
                        ==> projectile_store(self.projectiles)[pkeys@[t]].age == 0,
                forall|t: int|
                    0 <= t < i && !opstore.dom().contains(#[trigger] pkeys@[t])
                        ==> dead_projectiles@.contains(pkeys@[t]) || (projectile_store(
                        self.projectiles,
                    ).dom().contains(pkeys@[t]) && projectile_store(self.projectiles)[pkeys@[t]].age
                        == dt),
                forall|x: u64|
                    #[trigger] dead_projectiles@.contains(x) ==> struck.contains(x)
                        || !opstore.dom().contains(x) || spec_due_to_expire(opstore[x], dt as int),
                forall|x: u64|
                    #[trigger] struck.contains(x) ==> dead_projectiles@.contains(x) && (
                    opstore.dom().contains(x) ==> !spec_due_to_expire(opstore[x], dt as int)),
                forall|t: int|
                    0 <= t < i && opstore.dom().contains(#[trigger] pkeys@[t])
                        && !spec_due_to_expire(opstore[pkeys@[t]], dt as int)
                        && !struck.contains(pkeys@[t]) ==> projectile_store(
                        self.projectiles,
                    ).dom().contains(pkeys@[t]),
            decreases pn - i,
        {
            let k: u64 = pkeys[i];
            let copied: Option<Projectile> = match projectile_get(&self.projectiles, k) {
                Some(p) => Some(*p),
                None => None,
            };
            match copied {
                Some(mut p) => {
                    proof {
                        assert(projectile_store(self.projectiles).dom().contains(k));
                        assert(proj_ok(p));
                        if opstore.dom().contains(k) {
                            assert(opstore.dom().contains(pkeys@[i as int]));
                            assert(p == opstore[k]);
                        }
                    }
                    let expired: bool = p.update(dt);
                    if expired {
                        let ghost pre_dead = dead_projectiles@;
                        dead_projectiles.push(k);
                        proof {
                            assert forall|x: u64| pre_dead.contains(
                                x,
                            ) implies dead_projectiles@.contains(x) by {
                                let w = choose|w: int| 0 <= w < pre_dead.len() && pre_dead[w] == x;
                                assert(dead_projectiles@[w] == x);
                            }
                            assert(dead_projectiles@[pre_dead.len() as int] == k);
                            assert(dead_projectiles@.contains(k));
                            assert forall|x: u64| dead_projectiles@.contains(x) implies (
                            pre_dead.contains(x) || x == k) by {
                                let w = choose|w: int|
                                    0 <= w < dead_projectiles@.len() && dead_projectiles@[w] == x;
                                if w < pre_dead.len() {
                                    assert(pre_dead[w] == x);
                                }
                            }
                        }
                    } else {
                        let collider: crate::collision::Rectangle = p.get_collider();
                        let ghost proj_snapshot = projectile_store(self.projectiles);
                        let ekeys: Vec<u64> = entity_keys(&self.entities);
                        let en: usize = ekeys.len();
                        let mut hit: bool = false;
                        let mut j: usize = 0;
                        while j < en && !hit
                            invariant
                                j <= en,
                                en == ekeys@.len(),
                                app_ok(*self),
                                proj_ok(p),
                                crate::collision::rect_ok(collider),
                                collider == crate::projectile::spec_proj_collider(p),
                                projectile_store(self.projectiles) == proj_snapshot,
                                oedom == entity_store(old(self).entities).dom(),
                                forall|j2: u64|
                                    #[trigger] entity_store(self.entities).dom().contains(j2)
                                        <==> oedom.contains(j2),
                                forall|j2: u64|
                                    #[trigger] entity_store(self.entities).dom().contains(j2)
                                        ==> entity_store(self.entities)[j2]@.center.armor is Some
                                        || oestore[j2]@.center.armor is None
                                        || dead_entities@.contains(j2),
                                forall|j2: u64|
                                    #[trigger] entity_store(self.entities).dom().contains(j2)
                                        ==> entity_store(self.entities)[j2]@.center.angle
                                        == crate::components::spec_center_advanced(
                                        oestore[j2]@.center,
                                        dt as int,
                                    ).angle && entity_store(self.entities)[j2]@.center.speed
                                        == oestore[j2]@.center.speed,
                                self.timestep_length == old(self).timestep_length,
                                self.update_time == old(self).update_time,
                                self.frame_time == old(self).frame_time,
                                self.mouse.position == old(self).mouse.position,
                            decreases en - j,
                        {
                            let ek: u64 = ekeys[j];
                            let target: Option<Entity> = match entity_get(&self.entities, ek) {
                                Some(other) => {
                                    let same_team: bool = match p.team {
                                        Some(t) => other.team == t,
                                        None => false,
                                    };
                                    if same_team {
                                        None
                                    } else {
                                        proof {
                                            assert(entity_store(
                                                self.entities,
                                            ).dom().contains(ek));
                                        }
                                        Some(other.duplicate())
                                    }
                                },
                                None => None,
                            };
                            match target {
                                Some(mut ent) => {
                                    proof {
                                        assert(entity_ok(ent@));
                                    }
                                    match p.check_collisions_with_entity(
                                        &collider,
                                        &mut ent,
                                        p.angle,
                                    ) {
                                        Some(_) => {
                                            let ghost pre_dead_e = dead_entities@;
                                            let deletion: Option<()> = ent.check_deletion();
                                            match deletion {
                                                Some(_) => {},
                                                None => {
                                                    dead_entities.push(ek);
                                                },
                                            }
                                            proof {
                                                assert forall|x: u64| pre_dead_e.contains(
                                                    x,
                                                ) implies dead_entities@.contains(x) by {
                                                    let w = choose|w: int|
                                                        0 <= w < pre_dead_e.len() && pre_dead_e[w]
                                                            == x;
                                                    assert(dead_entities@[w] == x);
                                                }
                                                if deletion is None {
                                                    assert(dead_entities@[pre_dead_e.len() as int]
                                                        == ek);
                                                    assert(dead_entities@.contains(ek));
                                                }
                                            }
                                            entity_set(&mut self.entities, ek, ent);
                                            hit = true;
                                        },
                                        None => {},
                                    }
                                },
                                None => {},
                            }
                            j += 1;
                        }
                        if hit {
                            let ghost pre_dead = dead_projectiles@;
                            let ghost pre_struck = struck;
                            dead_projectiles.push(k);
                            proof {
                                assert forall|x: u64| pre_dead.contains(
                                    x,
                                ) implies dead_projectiles@.contains(x) by {
                                    let w = choose|w: int|
                                        0 <= w < pre_dead.len() && pre_dead[w] == x;
                                    assert(dead_projectiles@[w] == x);
                                }
                                assert(dead_projectiles@[pre_dead.len() as int] == k);
                                assert(dead_projectiles@.contains(k));
                                assert forall|x: u64| dead_projectiles@.contains(x) implies (
                                pre_dead.contains(x) || x == k) by {
                                    let w = choose|w: int|
                                        0 <= w < dead_projectiles@.len() && dead_projectiles@[w]
                                            == x;
                                    if w < pre_dead.len() {
                                        assert(pre_dead[w] == x);
                                    }
                                }
                                struck = pre_struck.push(k);
                                assert forall|x: u64| pre_struck.contains(x) implies struck.contains(
                                    x,
                                ) by {
                                    let w = choose|w: int|
                                        0 <= w < pre_struck.len() && pre_struck[w] == x;
                                    assert(struck[w] == x);
                                }
                                assert(struck[pre_struck.len() as int] == k);
                                assert(struck.contains(k));
                                assert forall|x: u64| struck.contains(x) implies (
                                pre_struck.contains(x) || x == k) by {
                                    let w = choose|w: int| 0 <= w < struck.len() && struck[w] == x;
                                    if w < pre_struck.len() {
                                        assert(pre_struck[w] == x);
                                    }
                                }
                            }
                        } else {
                            projectile_set(&mut self.projectiles, k, p);
                        }
                    }
                },
                None => {
                    proof {
                        assert(pkeys@.contains(pkeys@[i as int]));
                        assert(pass_dom.contains(pkeys@[i as int]));
                        assert(false);
                    }
                },
            }
            proof {
                assert forall|x: u64| #[trigger] dead_projectiles@.contains(x) implies (
                struck.contains(x) || !opstore.dom().contains(x) || spec_due_to_expire(
                    opstore[x],
                    dt as int,
                )) by {}
                assert forall|x: u64| #[trigger] struck.contains(x) implies (
                dead_projectiles@.contains(x) && (opstore.dom().contains(x)
                    ==> !spec_due_to_expire(opstore[x], dt as int))) by {}
            }
            i += 1;
        }
        proof {
            assert forall|k: u64| #[trigger] opstore.dom().contains(
                k,
            ) implies dead_projectiles@.contains(k) || (projectile_store(
                self.projectiles,
            ).dom().contains(k) && projectile_store(self.projectiles)[k]
                == crate::projectile::spec_after_motion(opstore[k], dt as int)) by {
                assert(pkeys@.contains(k));
                let t0 = choose|t0: int| 0 <= t0 < pkeys@.len() && pkeys@[t0] == k;
                assert(opstore.dom().contains(pkeys@[t0]));
            }
            assert forall|k: u64|
                #[trigger] projectile_store(self.projectiles).dom().contains(k)
                    && !opstore.dom().contains(k) implies dead_projectiles@.contains(k) || (
            projectile_store(self.projectiles).dom().contains(k) && projectile_store(
                self.projectiles,
            )[k].age == dt) by {
                assert(pass_dom.contains(k));
                assert(pkeys@.contains(k));
                let t0 = choose|t0: int| 0 <= t0 < pkeys@.len() && pkeys@[t0] == k;
                assert(!opstore.dom().contains(pkeys@[t0]));
            }
            assert forall|k: u64|
                #[trigger] opstore.dom().contains(k) && !spec_due_to_expire(opstore[k], dt as int)
                    && !struck.contains(k) implies projectile_store(
                self.projectiles,
            ).dom().contains(k) by {
                assert(pkeys@.contains(k));
                let t0 = choose|t0: int| 0 <= t0 < pkeys@.len() && pkeys@[t0] == k;
                assert(opstore.dom().contains(pkeys@[t0]));
            }
        }

        let mut i: usize = 0;
        while i < dead_projectiles.len()
            invariant
                i <= dead_projectiles@.len(),
                app_ok(*self),
                opstore == projectile_store(old(self).projectiles),
                oedom == entity_store(old(self).entities).dom(),
                self.timestep_length == old(self).timestep_length,
                self.update_time == old(self).update_time,
                self.frame_time == old(self).frame_time,
                self.mouse.position == old(self).mouse.position,
                forall|j2: u64|
                    #[trigger] entity_store(self.entities).dom().contains(j2) <==> oedom.contains(
                        j2,
                    ),
                forall|j2: u64|
                    #[trigger] entity_store(self.entities).dom().contains(j2) ==> entity_store(
                        self.entities,
                    )[j2]@.center.armor is Some || oestore[j2]@.center.armor is None
                        || dead_entities@.contains(j2),
                forall|j2: u64|
                    #[trigger] entity_store(self.entities).dom().contains(j2) ==> entity_store(
                        self.entities,
                    )[j2]@.center.angle == crate::components::spec_center_advanced(
                        oestore[j2]@.center,
                        dt as int,
                    ).angle && entity_store(self.entities)[j2]@.center.speed
                        == oestore[j2]@.center.speed,
                forall|t: int|
                    0 <= t < i ==> !projectile_store(self.projectiles).dom().contains(
                        #[trigger] dead_projectiles@[t],
                    ),
                forall|k: u64|
                    #[trigger] opstore.dom().contains(k) ==> dead_projectiles@.contains(k) || (
                    projectile_store(self.projectiles).dom().contains(k) && projectile_store(
                        self.projectiles,
                    )[k] == crate::projectile::spec_after_motion(opstore[k], dt as int)),
                forall|k: u64|
                    #[trigger] projectile_store(self.projectiles).dom().contains(k)
                        && !opstore.dom().contains(k) ==> dead_projectiles@.contains(k)
                        || projectile_store(self.projectiles)[k].age == dt,
                forall|x: u64|
                    #[trigger] dead_projectiles@.contains(x) ==> struck.contains(x)
                        || !opstore.dom().contains(x) || spec_due_to_expire(opstore[x], dt as int),
                forall|x: u64|
                    #[trigger] struck.contains(x) ==> dead_projectiles@.contains(x) && (
                    opstore.dom().contains(x) ==> !spec_due_to_expire(opstore[x], dt as int)),
                forall|k: u64|
                    #[trigger] opstore.dom().contains(k) && !spec_due_to_expire(
                        opstore[k],
                        dt as int,
                    ) && !struck.contains(k) ==> projectile_store(self.projectiles).dom().contains(
                        k,
                    ),
            decreases dead_projectiles@.len() - i,
        {
            proof {
                assert(dead_projectiles@.contains(dead_projectiles@[i as int]));
            }
            projectile_remove(&mut self.projectiles, dead_projectiles[i]);
            i += 1;
        }
        let ghost pruned = projectile_store(self.projectiles);
        let mut i: usize = 0;
        while i < dead_entities.len()
            invariant
                i <= dead_entities@.len(),
                app_ok(*self),
                projectile_store(self.projectiles) == pruned,
                oedom == entity_store(old(self).entities).dom(),
                self.timestep_length == old(self).timestep_length,
                self.update_time == old(self).update_time,
                self.frame_time == old(self).frame_time,
                self.mouse.position == old(self).mouse.position,
                forall|j2: u64|
                    #[trigger] entity_store(self.entities).dom().contains(j2) ==> oedom.contains(
                        j2,
                    ),
                forall|t: int|
                    0 <= t < i ==> !entity_store(self.entities).dom().contains(
                        #[trigger] dead_entities@[t],
                    ),
                forall|j2: u64|
                    #[trigger] entity_store(self.entities).dom().contains(j2) ==> entity_store(
                        self.entities,
                    )[j2]@.center.armor is Some || oestore[j2]@.center.armor is None
                        || dead_entities@.contains(j2),
                forall|j2: u64|
                    #[trigger] entity_store(self.entities).dom().contains(j2) ==> entity_store(
                        self.entities,
                    )[j2]@.center.angle == crate::components::spec_center_advanced(
                        oestore[j2]@.center,
                        dt as int,
                    ).angle && entity_store(self.entities)[j2]@.center.speed
                        == oestore[j2]@.center.speed,
            decreases dead_entities@.len() - i,
        {
            entity_remove(&mut self.entities, dead_entities[i]);
            i += 1;
        }
        proof {
            assert forall|k: u64|
                #[trigger] opstore.dom().contains(k) && spec_due_to_expire(
                    opstore[k],
                    dt as int,
                ) implies !projectile_store(self.projectiles).dom().contains(k) by {
                assert(pkeys@.contains(k));
                let t0 = choose|t0: int| 0 <= t0 < pkeys@.len() && pkeys@[t0] == k;
                assert(opstore.dom().contains(pkeys@[t0]));
                assert(dead_projectiles@.contains(k));
                let t1 = choose|t1: int|
                    0 <= t1 < dead_projectiles@.len() && dead_projectiles@[t1] == k;
                assert(!pruned.dom().contains(dead_projectiles@[t1]));
            }
            assert forall|k: u64|
                #[trigger] entity_store(self.entities).dom().contains(k) implies entity_store(
                    self.entities,
                )[k]@.center.armor is Some || oestore[k]@.center.armor is None by {
                if dead_entities@.contains(k) {
                    let t1 = choose|t1: int|
                        0 <= t1 < dead_entities@.len() && dead_entities@[t1] == k;
                    assert(!entity_store(self.entities).dom().contains(dead_entities@[t1]));
                }
            }
            assert forall|k: u64|
                #[trigger] opstore.dom().contains(k) && projectile_store(
                    self.projectiles,
                ).dom().contains(k) implies projectile_store(self.projectiles)[k]
                == crate::projectile::spec_after_motion(opstore[k], dt as int) by {
                if dead_projectiles@.contains(k) {
                    let t1 = choose|t1: int|
                        0 <= t1 < dead_projectiles@.len() && dead_projectiles@[t1] == k;
                    assert(!pruned.dom().contains(dead_projectiles@[t1]));
                }
            }
            assert forall|k: u64|
                #[trigger] projectile_store(self.projectiles).dom().contains(k)
                    && !opstore.dom().contains(k) implies projectile_store(self.projectiles)[k].age
                == dt by {
                if dead_projectiles@.contains(k) {
                    let t1 = choose|t1: int|
                        0 <= t1 < dead_projectiles@.len() && dead_projectiles@[t1] == k;
                    assert(!pruned.dom().contains(dead_projectiles@[t1]));
                }
            }
            assert forall|k: u64| #[trigger] struck.contains(k) implies !projectile_store(
                self.projectiles,
            ).dom().contains(k) by {
                assert(dead_projectiles@.contains(k));
                let t1 = choose|t1: int|
                    0 <= t1 < dead_projectiles@.len() && dead_projectiles@[t1] == k;
                assert(!pruned.dom().contains(dead_projectiles@[t1]));
            }
            assert forall|k: u64|
                #[trigger] opstore.dom().contains(k) && projectile_store(
                    self.projectiles,
                ).dom().contains(k) implies !spec_due_to_expire(opstore[k], dt as int)
                && !struck.contains(k) by {
                if struck.contains(k) {
                    assert(dead_projectiles@.contains(k));
                    let t1 = choose|t1: int|
                        0 <= t1 < dead_projectiles@.len() && dead_projectiles@[t1] == k;
                    assert(!pruned.dom().contains(dead_projectiles@[t1]));
                }
            }
            assert(spec_pass_disposition(
                opstore,
                projectile_store(self.projectiles),
                dt as int,
                struck,
            ));
        }
    }
}

/// The projectile `App::insert_projectile` spawns.
pub open spec fn spec_spawned_projectile(
    initial_speed: i64,
    speed_decay: i64,
    aim: Vec2,
    position: Vec2,
    offset_radius: i64,
    color: u32,
    team: Team,
    sender: u64,
) -> Projectile {
    let start = crate::collision::spec_vadd(
        position,
        crate::collision::spec_vscale(aim, offset_radius as int),
    );
    Projectile {
        position: start,
        start_position: start,
        angle: aim,
        initial_speed,
        speed_decay,
        lifetime: 1000,
        age: 0,
        size: Vec2 { x: 1000, y: 4000 },
        color,
        sender,
        team: Some(team),
        previous_displacement: 0,
    }
}

} // verus!
