//! Entity control: teams, the target list, and the controller dispatch
//! types shared by player- and computer-driven policies.

use vstd::prelude::*;

use crate::computer_controller::{ComputerMotionController, ComputerShootingController};
use crate::fixed::{fx_div, fx_clamped, fx_ok, fx_tdiv, FX_ONE};
use crate::player_controller::{PlayerMotionController, PlayerShootingController};
use crate::util::Vec2;

verus! {

/// How far a hostile entity notices player-team entities, in raw steps.
pub const AGGRO_DISTANCE: i64 = 100_000;

/// The allegiance of an entity; projectiles never hurt their own team.
#[derive(Clone, Copy, Debug, PartialEq, Eq, Structural)]
pub enum Team {
    Player,
    Neutral,
    Hostile,
}

/// The shape drawn for a controller's aim reticle.
#[derive(Clone, Copy, Debug, PartialEq, Eq, Structural)]
pub enum SightKind {
    Arrow,
    Cross,
}

/// The motion policy driving an entity's velocity.
#[derive(Clone, Copy, Debug)]
pub enum MotionController {
    Player(PlayerMotionController),
    Computer(ComputerMotionController),
}

/// The shooting policy driving an entity's aim and fire.
#[derive(Clone, Copy, Debug)]
pub enum ShootingController {
    Player(PlayerShootingController),
    Computer(ComputerShootingController),
}

/// An entity's brain: the handles it is alerted to, and optional motion and
/// shooting policies.
#[derive(Debug)]
pub struct EntityController {
    pub targets: Vec<u64>,
    pub motion: Option<MotionController>,
    pub shooting: Option<ShootingController>,
}

/// The mathematical value of an `EntityController`.
pub ghost struct ControllerView {
    pub targets: Seq<u64>,
    pub motion: Option<MotionController>,
    pub shooting: Option<ShootingController>,
}

impl View for EntityController {
    type V = ControllerView;

    open spec fn view(&self) -> ControllerView {
        ControllerView { targets: self.targets@, motion: self.motion, shooting: self.shooting }
    }
}

/// The motion policy's parameters are admissible.
pub open spec fn motion_ok(m: MotionController) -> bool {
    match m {
        MotionController::Player(p) => crate::player_controller::pmc_ok(p),
        MotionController::Computer(c) => crate::computer_controller::cmc_ok(c),
    }
}

/// The shooting policy's parameters are admissible.
pub open spec fn shooting_ok(s: ShootingController) -> bool {
    match s {
        ShootingController::Player(p) => crate::player_controller::psc_ok(p),
        ShootingController::Computer(c) => crate::computer_controller::csc_ok(c),
    }
}

/// The controller's policies are admissible.
pub open spec fn controller_ok(c: ControllerView) -> bool {
    &&& (c.motion matches Some(m) ==> motion_ok(m))
    &&& (c.shooting matches Some(s) ==> shooting_ok(s))
}

/// The hostile aggro scan notices handle `k`: the scanning entity is
/// hostile, `k` is another live entity on the player team, and it sits
/// strictly inside the aggro radius.
pub open spec fn spec_aggro_candidate(
    e: crate::entity::EntityView,
    index: u64,
    m: Map<u64, crate::entity::Entity>,
    k: u64,
) -> bool {
    &&& e.team == Team::Hostile
    &&& k != index
    &&& m.dom().contains(k)
    &&& m[k].team == Team::Player
    &&& crate::util::spec_length_squared(crate::collision::spec_vsub(e.position, m[k].position))
        < (AGGRO_DISTANCE as int) * (AGGRO_DISTANCE as int)
}

/// The first `n` handles of `s` whose referents are live in `m`, keeping
/// their relative order.
pub open spec fn spec_live_targets_upto(
    s: Seq<u64>,
    m: Map<u64, crate::entity::Entity>,
    n: int,
) -> Seq<u64>
    decreases n,
{
    if n <= 0 {
        Seq::empty()
    } else {
        let rest = spec_live_targets_upto(s, m, n - 1);
        if m.dom().contains(s[n - 1]) {
            rest.push(s[n - 1])
        } else {
            rest
        }
    }
}

/// The handles of `s` whose referents are live in `m`, in order.
pub open spec fn spec_live_targets(s: Seq<u64>, m: Map<u64, crate::entity::Entity>) -> Seq<u64> {
    spec_live_targets_upto(s, m, s.len() as int)
}

/// The liveness filter reads only the first `n` handles.
pub proof fn lemma_live_targets_prefix(
    s1: Seq<u64>,
    s2: Seq<u64>,
    m: Map<u64, crate::entity::Entity>,
    n: int,
)
    requires
        0 <= n <= s1.len(),
        n <= s2.len(),
        forall|i: int| 0 <= i < n ==> s1[i] == s2[i],
    ensures
        spec_live_targets_upto(s1, m, n) == spec_live_targets_upto(s2, m, n),
    decreases n,
{
    if n > 0 {
        lemma_live_targets_prefix(s1, s2, m, n - 1);
    }
}

/// The liveness filter distributes over concatenation.
pub proof fn lemma_live_targets_append(
    a: Seq<u64>,
    b: Seq<u64>,
    m: Map<u64, crate::entity::Entity>,
)
    ensures
        spec_live_targets(a + b, m) == spec_live_targets(a, m) + spec_live_targets(b, m),
    decreases b.len(),
{
    if b.len() == 0 {
        assert(a + b =~= a);
        assert(spec_live_targets(b, m) =~= Seq::<u64>::empty());
        assert(spec_live_targets(a, m) + spec_live_targets(b, m) =~= spec_live_targets(a, m));
    } else {
        let b0 = b.drop_last();
        lemma_live_targets_append(a, b0, m);
        lemma_live_targets_prefix(a + b, a + b0, m, a.len() + b.len() - 1);
        lemma_live_targets_prefix(b, b0, m, b.len() - 1);
        assert((a + b)[a.len() + b.len() - 1] == b[b.len() - 1]);
        if m.dom().contains(b[b.len() - 1]) {
            assert(spec_live_targets(a, m) + spec_live_targets(b0, m).push(b[b.len() - 1])
                =~= (spec_live_targets(a, m) + spec_live_targets(b0, m)).push(b[b.len() - 1]));
        }
    }
}

/// The liveness filter leaves a sequence of live handles unchanged.
pub proof fn lemma_live_targets_all_live(s: Seq<u64>, m: Map<u64, crate::entity::Entity>)
    requires
        forall|i: int| 0 <= i < s.len() ==> m.dom().contains(#[trigger] s[i]),
    ensures
        spec_live_targets(s, m) == s,
    decreases s.len(),
{
    if s.len() > 0 {
        let s0 = s.drop_last();
        lemma_live_targets_all_live(s0, m);
        lemma_live_targets_prefix(s, s0, m, s.len() - 1);
        assert(m.dom().contains(s[s.len() - 1]));
        assert(s0.push(s[s.len() - 1]) =~= s);
    }
}

/// The final target list of a control tick, in order: the old targets with
/// stale handles dropped (survivors keep their relative order), then the
/// handles the aggro scan appended — distinct candidates not already
/// targeted.
pub open spec fn spec_targets_outcome(
    ts: Seq<u64>,
    before: Seq<u64>,
    m: Map<u64, crate::entity::Entity>,
    e: crate::entity::EntityView,
    index: u64,
    extra: Seq<u64>,
) -> bool {
    &&& ts == spec_live_targets(before, m) + extra
    &&& extra.no_duplicates()
    &&& forall|x: u64|
        #[trigger] extra.contains(x) ==> spec_aggro_candidate(e, index, m, x) && !before.contains(
            x,
        )
}

/// Pushing a value a sequence does not hold keeps it duplicate-free.
proof fn lemma_push_no_dup(s: Seq<u64>, x: u64)
    requires
        s.no_duplicates(),
        !s.contains(x),
    ensures
        s.push(x).no_duplicates(),
{
    let t = s.push(x);
    assert forall|i: int, j: int| 0 <= i < j < t.len() implies t[i] != t[j] by {
        if j < s.len() {
            assert(t[i] == s[i] && t[j] == s[j]);
        } else {
            assert(t[j] == x);
            assert(t[i] == s[i]);
            assert(s.contains(s[i]));
        }
    }
}

/// Removing an element keeps a sequence duplicate-free.
proof fn lemma_remove_no_dup(s: Seq<u64>, i: int)
    requires
        s.no_duplicates(),
        0 <= i < s.len(),
    ensures
        s.remove(i).no_duplicates(),
{
    s.remove_ensures(i);
    let t = s.remove(i);
    assert forall|a: int, b: int| 0 <= a < b < t.len() implies t[a] != t[b] by {
        let a0 = if a < i {
            a
        } else {
            a + 1
        };
        let b0 = if b < i {
            b
        } else {
            b + 1
        };
        assert(t[a] == s[a0] && t[b] == s[b0]);
    }
}

impl EntityController {
    /// Run one control tick for `entity`: hostile entities scan for player
    /// entities inside the aggro radius, stale targets are pruned, and the
    /// motion and shooting policies run in turn.
    ///
    /// The final target list is pinned exactly as a set: the old targets
    /// plus (for hostile entities) every player-team entity inside the
    /// aggro radius, minus every stale handle; and the velocity equals the
    /// motion policy's stated result over that list. The entity keeps its
    /// armor, position and identity, and the world's entity store is
    /// untouched (shooting may add projectiles, all newborn).
    pub fn update(
        entity: &mut crate::entity::Entity,
        index: u64,
        delta_seconds: i64,
        app: &mut crate::app::App,
        input: &crate::player_controller::InputFrame,
    )
        requires
            crate::entity::entity_ok(old(entity)@),
            crate::app::app_ok(*old(app)),
            0 <= delta_seconds <= 500_000,
        ensures
            crate::entity::entity_ok(final(entity)@),
            final(entity)@.rings == old(entity)@.rings,
            final(entity)@.center == old(entity)@.center,
            final(entity)@.position == old(entity)@.position,
            final(entity)@.radius == old(entity)@.radius,
            final(entity)@.color == old(entity)@.color,
            final(entity)@.team == old(entity)@.team,
            old(entity)@.controller is None ==> *final(entity) == *old(entity),
            old(entity)@.controller is Some ==> final(entity)@.controller is Some,
            old(entity)@.controller is Some ==> {
                let c = old(entity)@.controller->Some_0;
                let m = crate::store::entity_store(old(app).entities);
                let ts = final(entity)@.controller->Some_0.targets;
                &&& forall|k: u64|
                    #[trigger] ts.contains(k) <==> (m.dom().contains(k) && (c.targets.contains(k)
                        || spec_aggro_candidate(old(entity)@, index, m, k)))
                &&& (c.targets.no_duplicates() ==> ts.no_duplicates())
                &&& exists|extra: Seq<u64>|
                    spec_targets_outcome(ts, c.targets, m, old(entity)@, index, extra)
                &&& final(entity)@.controller->Some_0.motion is Some <==> c.motion is Some
                &&& final(entity)@.controller->Some_0.shooting is Some <==> c.shooting is Some
                &&& match c.motion {
                    None => final(entity)@.velocity == old(entity)@.velocity,
                    Some(MotionController::Player(p)) => final(entity)@.velocity
                        == crate::player_controller::spec_motion_velocity(p, *input),
                    Some(MotionController::Computer(cm)) => final(entity)@.velocity == (
                    match crate::computer_controller::spec_closest_target(
                        ts,
                        old(entity)@.position,
                        m,
                    ) {
                        Some(t) => crate::computer_controller::spec_steer(cm, t.1),
                        None => (Vec2 { x: 0, y: 0 }),
                    }),
                }
            },
            crate::app::app_ok(*final(app)),
            crate::store::entity_store(final(app).entities) == crate::store::entity_store(
                old(app).entities,
            ),
            final(app).timestep_length == old(app).timestep_length,
            final(app).update_time == old(app).update_time,
            final(app).frame_time == old(app).frame_time,
            final(app).mouse.position == old(app).mouse.position,
            crate::store::projectile_store(old(app).projectiles).submap_of(
                crate::store::projectile_store(final(app).projectiles),
            ),
            forall|k: u64|
                #[trigger] crate::store::projectile_store(final(app).projectiles).dom().contains(k)
                    && !crate::store::projectile_store(old(app).projectiles).dom().contains(k)
                    ==> crate::store::projectile_store(final(app).projectiles)[k].age == 0,
    {
        let taken: Option<EntityController> = entity.controller.take();
        proof {
            assert(entity.rings == old(entity).rings);
            assert(entity@.rings == old(entity)@.rings);
            assert(entity.controller is None);
            assert(entity@.controller is None);
            assert(crate::entity::entity_ok(entity@));
        }
        let mut controller: EntityController = match taken {
            Some(c) => c,
            None => {
                return ;
            },
        };
        let ghost c0 = old(entity)@.controller->Some_0;
        let ghost m = crate::store::entity_store(old(app).entities);
        let ghost mut appended: Seq<u64> = Seq::empty();

        if entity.team == Team::Hostile {
            let keys: Vec<u64> = crate::store::entity_keys(&app.entities);
            let n: usize = keys.len();
            let mut i: usize = 0;
            while i < n
                invariant
                    i <= n,
                    n == keys@.len(),
                    crate::app::app_ok(*app),
                    crate::entity::entity_ok(entity@),
                    entity.rings == old(entity).rings,
                    entity.center == old(entity).center,
                    entity.position == old(entity).position,
                    entity.velocity == old(entity).velocity,
                    entity.radius == old(entity).radius,
                    entity.color == old(entity).color,
                    entity.team == old(entity).team,
                    entity.team == Team::Hostile,
                    entity.controller is None,
                    m == crate::store::entity_store(app.entities),
                    controller.motion == c0.motion,
                    controller.shooting == c0.shooting,
                    forall|k: u64|
                        keys@.contains(k) <==> crate::store::entity_store(
                            app.entities,
                        ).dom().contains(k),
                    forall|k: u64|
                        #[trigger] controller.targets@.contains(k) <==> (c0.targets.contains(k)
                            || (spec_aggro_candidate(old(entity)@, index, m, k) && exists|t: int|
                            0 <= t < i && keys@[t] == k)),
                    c0.targets.no_duplicates() ==> controller.targets@.no_duplicates(),
                    controller.targets@ == c0.targets + appended,
                    appended.no_duplicates(),
                    forall|x: u64|
                        #[trigger] appended.contains(x) ==> spec_aggro_candidate(
                            old(entity)@,
                            index,
                            m,
                            x,
                        ) && !c0.targets.contains(x),
                decreases n - i,
            {
                let k: u64 = keys[i];
                let ghost pre_targets = controller.targets@;
                if k != index {
                    match crate::store::entity_get(&app.entities, k) {
                        Some(other) => {
                            if other.team == Team::Player {
                                proof {
                                    assert(crate::store::entity_store(
                                        app.entities,
                                    ).dom().contains(k));
                                    assert(crate::entity::entity_ok(other@));
                                }
                                let d: crate::util::Vec2 = entity.position.vsub(other.position);
                                let d2: i64 = crate::util::length_squared(d);
                                if d2 < 10_000_000_000 {
                                    proof {
                                        assert(spec_aggro_candidate(old(entity)@, index, m, k));
                                        if c0.targets.no_duplicates()
                                            && !pre_targets.contains(k) {
                                            lemma_push_no_dup(pre_targets, k);
                                        }
                                    }
                                    let ghost pre_appended = appended;
                                    controller.alert(k);
                                    proof {
                                        if !pre_targets.contains(k) {
                                            assert forall|x: u64| pre_appended.contains(
                                                x,
                                            ) implies pre_targets.contains(x) by {
                                                let w = choose|w: int|
                                                    0 <= w < pre_appended.len() && pre_appended[w]
                                                        == x;
                                                assert(pre_targets[c0.targets.len() + w] == x);
                                            }
                                            assert(!pre_appended.contains(k));
                                            lemma_push_no_dup(pre_appended, k);
                                            appended = pre_appended.push(k);
                                            assert(controller.targets@ =~= c0.targets + appended);
                                            assert forall|x: u64| appended.contains(
                                                x,
                                            ) implies spec_aggro_candidate(
                                                old(entity)@,
                                                index,
                                                m,
                                                x,
                                            ) && !c0.targets.contains(x) by {
                                                let w = choose|w: int|
                                                    0 <= w < appended.len() && appended[w] == x;
                                                if w < pre_appended.len() {
                                                    assert(pre_appended[w] == x);
                                                    assert(pre_appended.contains(x));
                                                } else {
                                                    assert(x == k);
                                                    assert(!c0.targets.contains(k)) by {
                                                        if c0.targets.contains(k) {
                                                            let w2 = choose|w2: int|
                                                                0 <= w2 < c0.targets.len()
                                                                    && c0.targets[w2] == k;
                                                            assert(pre_targets[w2] == k);
                                                        }
                                                    }
                                                }
                                            }
                                        }
                                    }
                                }
                            }
                        },
                        None => {},
                    }
                }
                proof {
                    assert(keys@[i as int] == k);
                    assert forall|k2: u64| #[trigger] controller.targets@.contains(k2) implies (
                    c0.targets.contains(k2) || (spec_aggro_candidate(old(entity)@, index, m, k2)
                        && exists|t: int| 0 <= t < i + 1 && keys@[t] == k2)) by {
                        if !pre_targets.contains(k2) {
                            assert(k2 == k);
                        }
                    }
                    assert forall|k2: u64|
                        c0.targets.contains(k2) || (spec_aggro_candidate(
                            old(entity)@,
                            index,
                            m,
                            k2,
                        ) && exists|t: int| 0 <= t < i + 1 && keys@[t] == k2) implies #[trigger]
                    controller.targets@.contains(k2) by {
                        if c0.targets.contains(k2) {
                            assert(pre_targets.contains(k2));
                            let w = choose|w: int|
                                0 <= w < pre_targets.len() && pre_targets[w] == k2;
                            assert(controller.targets@[w] == k2);
                        } else {
                            let t = choose|t: int| 0 <= t < i + 1 && keys@[t] == k2;
                            if t < i {
                                assert(pre_targets.contains(k2));
                                let w = choose|w: int|
                                    0 <= w < pre_targets.len() && pre_targets[w] == k2;
                                assert(controller.targets@[w] == k2);
                            } else {
                                assert(k2 == k);
                                if pre_targets.contains(k2) {
                                    let w = choose|w: int|
                                        0 <= w < pre_targets.len() && pre_targets[w] == k2;
                                    assert(controller.targets@[w] == k2);
                                } else {
                                    assert(controller.targets@ == pre_targets.push(k2));
                                    assert(controller.targets@[pre_targets.len() as int] == k2);
                                }
                            }
                        }
                    }
                }
                i += 1;
            }
            proof {
                assert forall|k2: u64| spec_aggro_candidate(old(entity)@, index, m, k2)
                    && !c0.targets.contains(k2) implies exists|t: int|
                    0 <= t < n && keys@[t] == k2 by {
                    assert(m.dom().contains(k2));
                    assert(keys@.contains(k2));
                }
            }
        }
        proof {
            assert forall|k: u64| #[trigger] controller.targets@.contains(k) implies (
            c0.targets.contains(k) || spec_aggro_candidate(old(entity)@, index, m, k)) by {}
            assert forall|k: u64|
                c0.targets.contains(k) || spec_aggro_candidate(
                    old(entity)@,
                    index,
                    m,
                    k,
                ) implies #[trigger] controller.targets@.contains(k) by {}
        }

        proof {
            assert(controller.targets@ =~= c0.targets + appended);
        }
        let ghost pre_prune = controller.targets@;
        let ghost mut pj: int = 0;
        let mut i: usize = 0;
        while i < controller.targets.len()
            invariant
                i <= controller.targets@.len(),
                0 <= pj <= pre_prune.len(),
                controller.targets@ == spec_live_targets_upto(pre_prune, m, pj)
                    + pre_prune.skip(pj),
                i as int == spec_live_targets_upto(pre_prune, m, pj).len(),
                crate::app::app_ok(*app),
                crate::entity::entity_ok(entity@),
                entity.rings == old(entity).rings,
                entity.center == old(entity).center,
                entity.position == old(entity).position,
                entity.velocity == old(entity).velocity,
                entity.radius == old(entity).radius,
                entity.color == old(entity).color,
                entity.team == old(entity).team,
                entity.controller is None,
                m == crate::store::entity_store(app.entities),
                controller.motion == c0.motion,
                controller.shooting == c0.shooting,
                forall|t: int|
                    0 <= t < i ==> m.dom().contains(#[trigger] controller.targets@[t]),
                forall|k: u64| #[trigger] controller.targets@.contains(k) ==> pre_prune.contains(
                    k,
                ),
                forall|k: u64|
                    pre_prune.contains(k) && m.dom().contains(k)
                        ==> #[trigger] controller.targets@.contains(k),
                pre_prune.no_duplicates() ==> controller.targets@.no_duplicates(),
            decreases controller.targets@.len() - i,
        {
            let t: u64 = controller.targets[i];
            proof {
                assert(controller.targets@[i as int] == pre_prune.skip(pj)[0]);
                assert(pre_prune.skip(pj)[0] == pre_prune[pj]);
            }
            if crate::store::entity_contains(&app.entities, t) {
                proof {
                    assert(spec_live_targets_upto(pre_prune, m, pj + 1)
                        == spec_live_targets_upto(pre_prune, m, pj).push(pre_prune[pj]));
                    assert(controller.targets@ =~= spec_live_targets_upto(pre_prune, m, pj + 1)
                        + pre_prune.skip(pj + 1));
                    pj = pj + 1;
                }
                i += 1;
            } else {
                let ghost pre = controller.targets@;
                controller.targets.remove(i);
                proof {
                    pre.remove_ensures(i as int);
                    assert(controller.targets@ =~= spec_live_targets_upto(pre_prune, m, pj + 1)
                        + pre_prune.skip(pj + 1));
                    pj = pj + 1;
                    if pre.no_duplicates() {
                        lemma_remove_no_dup(pre, i as int);
                    }
                    assert forall|k: u64| #[trigger] controller.targets@.contains(
                        k,
                    ) implies pre.contains(k) by {
                        let w = choose|w: int|
                            0 <= w < controller.targets@.len() && controller.targets@[w] == k;
                        if w < i {
                            assert(pre[w] == k);
                        } else {
                            assert(pre[w + 1] == k);
                        }
                    }
                    assert forall|k: u64|
                        pre.contains(k) && m.dom().contains(k) implies #[trigger]
                    controller.targets@.contains(k) by {
                        let w = choose|w: int| 0 <= w < pre.len() && pre[w] == k;
                        if w < i {
                            assert(controller.targets@[w] == k);
                        } else if w > i {
                            assert(controller.targets@[w - 1] == k);
                        }
                    }
                }
            }
        }
        proof {
            assert forall|k: u64| #[trigger] controller.targets@.contains(k) implies m.dom(
            ).contains(k) by {
                let w = choose|w: int|
                    0 <= w < controller.targets@.len() && controller.targets@[w] == k;
            }
            assert forall|k: u64| #[trigger] controller.targets@.contains(k) implies (
            m.dom().contains(k) && (c0.targets.contains(k) || spec_aggro_candidate(
                old(entity)@,
                index,
                m,
                k,
            ))) by {}
            assert forall|k: u64|
                m.dom().contains(k) && (c0.targets.contains(k) || spec_aggro_candidate(
                    old(entity)@,
                    index,
                    m,
                    k,
                )) implies #[trigger] controller.targets@.contains(k) by {}
            assert(pre_prune.skip(pj).len() == 0);
            assert(pj == pre_prune.len());
            assert(controller.targets@ =~= spec_live_targets(pre_prune, m));
            lemma_live_targets_append(c0.targets, appended, m);
            assert forall|w: int| 0 <= w < appended.len() implies m.dom().contains(
                #[trigger] appended[w],
            ) by {
                assert(appended.contains(appended[w]));
                assert(spec_aggro_candidate(old(entity)@, index, m, appended[w]));
            }
            lemma_live_targets_all_live(appended, m);
            assert(controller.targets@ == spec_live_targets(c0.targets, m) + appended);
            assert(spec_targets_outcome(
                controller.targets@,
                c0.targets,
                m,
                old(entity)@,
                index,
                appended,
            ));
        }

        let ghost pruned_targets = controller.targets@;
        match &mut controller.motion {
            Some(motion) => {
                match motion {
                    MotionController::Player(mc) => {
                        mc.update(entity, input);
                    },
                    MotionController::Computer(mc) => {
                        mc.update(entity, &controller.targets, app);
                    },
                }
            },
            None => {},
        }
        proof {
            assert(controller.targets@ == pruned_targets);
        }

        let ghost pre_shot = crate::store::projectile_store(app.projectiles);
        let ghost pre_mouse = app.mouse.position;
        match &mut controller.shooting {
            Some(shooting) => {
                match shooting {
                    ShootingController::Player(sc) => {
                        let ghost pre_sc = *sc;
                        sc.update(index, entity, delta_seconds, app, input);
                        proof {
                            let now = crate::store::projectile_store(app.projectiles);
                            assert forall|k: u64| #[trigger] now.dom().contains(k)
                                && !pre_shot.dom().contains(k) implies now[k].age == 0 by {
                                if (input.shoot_down || input.precise_shoot_down) && (if
                                pre_sc.cooldown >= delta_seconds {
                                    pre_sc.cooldown - delta_seconds
                                } else {
                                    0
                                }) <= 0 {
                                    let (k0, jt) = choose|k0: u64, jt: int|
                                        {
                                            &&& !pre_shot.dom().contains(k0)
                                            &&& -crate::util::spec_lerp(
                                                pre_sc.precision_start as int,
                                                pre_sc.precision_end as int,
                                                pre_sc.state as int,
                                            ) <= jt <= crate::util::spec_lerp(
                                                pre_sc.precision_start as int,
                                                pre_sc.precision_end as int,
                                                pre_sc.state as int,
                                            )
                                            &&& now == pre_shot.insert(
                                                k0,
                                                crate::app::spec_spawned_projectile(
                                                    48_000,
                                                    3912,
                                                    crate::computer_controller::spec_clamp_unit(
                                                        crate::trig::spec_rotate(
                                                            crate::util::spec_normalize(
                                                                crate::collision::spec_vsub(
                                                                    pre_mouse,
                                                                    entity.position,
                                                                ),
                                                            ),
                                                            jt,
                                                        ),
                                                    ),
                                                    entity.position,
                                                    crate::fixed::fx_clamped(
                                                        entity.radius + 4000,
                                                    ) as i64,
                                                    entity.color,
                                                    entity.team,
                                                    index,
                                                ),
                                            )
                                        };
                                    assert(k == k0);
                                    assert(now[k].age == 0);
                                }
                            }
                        }
                    },
                    ShootingController::Computer(sc) => {
                        let ghost pre_sc = *sc;
                        sc.update(index, entity, &controller.targets, delta_seconds, app);
                        proof {
                            let now = crate::store::projectile_store(app.projectiles);
                            let m = crate::store::entity_store(old(app).entities);
                            assert forall|k: u64| #[trigger] now.dom().contains(k)
                                && !pre_shot.dom().contains(k) implies now[k].age == 0 by {
                                let closest =
                                    crate::computer_controller::spec_closest_target(
                                    controller.targets@,
                                    entity.position,
                                    m,
                                );
                                if closest is Some && (if pre_sc.cooldown >= delta_seconds {
                                    pre_sc.cooldown - delta_seconds
                                } else {
                                    0
                                }) <= 0 {
                                    let spec_aim =
                                        crate::computer_controller::spec_computer_aim(
                                        pre_sc,
                                        entity.radius,
                                        closest->Some_0,
                                        m,
                                    );
                                    let ks = choose|ks: Seq<u64>|
                                        crate::computer_controller::spec_volley_outcome(
                                            pre_shot,
                                            now,
                                            pre_sc,
                                            *entity,
                                            spec_aim,
                                            index,
                                            ks,
                                        );
                                    assert(ks.contains(k));
                                    let t2 = choose|t2: int| 0 <= t2 < ks.len() && ks[t2] == k;
                                    assert(crate::computer_controller::spec_is_volley_entry(
                                        now,
                                        pre_sc,
                                        *entity,
                                        spec_aim,
                                        index,
                                        t2,
                                        ks[t2],
                                    ));
                                    let jt = choose|jt: int|
                                        {
                                            &&& -pre_sc.weapon.innacuracy <= jt
                                                <= pre_sc.weapon.innacuracy
                                            &&& now[k]
                                                == crate::computer_controller::spec_volley_shot(
                                                pre_sc,
                                                *entity,
                                                spec_aim,
                                                index,
                                                t2,
                                                jt,
                                            )
                                        };
                                    assert(now[k].age == 0);
                                }
                            }
                        }
                    },
                }
            },
            None => {},
        }
        proof {
            assert(crate::app::spec_fresh_age_zero(
                pre_shot,
                crate::store::projectile_store(app.projectiles),
            ));
            assert(pre_shot == crate::store::projectile_store(old(app).projectiles));
            assert(spec_targets_outcome(
                controller.targets@,
                c0.targets,
                m,
                old(entity)@,
                index,
                appended,
            ));
        }

        entity.controller = Some(controller);
    }

    /// Add `sender` to the target list unless it is already there.
    pub fn alert(&mut self, sender: u64)
        ensures
            old(self).targets@.contains(sender) ==> *final(self) == *old(self),
            !old(self).targets@.contains(sender) ==> final(self).targets@
                == old(self).targets@.push(sender) && final(self).motion == old(self).motion
                && final(self).shooting == old(self).shooting,
    {
        let n: usize = self.targets.len();
        let mut i: usize = 0;
        while i < n
            invariant
                i <= n,
                n == self.targets@.len(),
                forall|j: int| 0 <= j < i ==> self.targets@[j] != sender,
            decreases n - i,
        {
            if self.targets[i] == sender {
                proof {
                    assert(old(self).targets@.contains(sender));
                }
                return ;
            }
            i += 1;
        }
        self.targets.push(sender);
    }

    /// An exact copy of this controller.
    pub fn duplicate(&self) -> (r: EntityController)
        ensures
            r.targets@ == self.targets@,
            r.motion == self.motion,
            r.shooting == self.shooting,
    {
        let mut targets: Vec<u64> = Vec::new();
        let n: usize = self.targets.len();
        let mut i: usize = 0;
        while i < n
            invariant
                i <= n,
                n == self.targets@.len(),
                targets@ == self.targets@.take(i as int),
            decreases n - i,
        {
            targets.push(self.targets[i]);
            proof {
                assert(targets@ =~= self.targets@.take(i + 1));
            }
            i += 1;
        }
        proof {
            assert(targets@ =~= self.targets@);
        }
        EntityController { targets, motion: self.motion, shooting: self.shooting }
    }
}

impl ShootingController {
    /// The current aim, the cooldown fraction, and the sight to draw, if the
    /// policy is aiming anywhere.
    pub fn aim(&self) -> (r: Option<(Vec2, i64, SightKind)>)
        requires
            self matches ShootingController::Player(p) ==> fx_ok(p.cooldown as int) && fx_ok(
                p.state as int,
            ) && fx_ok(p.speed_start as int) && fx_ok(p.speed_end as int),
        ensures
            r == spec_shooting_aim(*self),
    {
        match self {
            ShootingController::Player(controller) => {
                let mc: i64 = controller.max_cooldown();
                let fraction: i64 = if mc >= 1 {
                    fx_div(controller.cooldown, mc)
                } else {
                    0
                };
                Some((controller.aim, fraction, SightKind::Arrow))
            },
            ShootingController::Computer(controller) => controller.aim(),
        }
    }
}

/// What `ShootingController::aim` reports for each policy.
pub open spec fn spec_shooting_aim(s: ShootingController) -> Option<(Vec2, i64, SightKind)> {
    match s {
        ShootingController::Player(p) => {
            let mc = crate::util::spec_lerp(p.speed_start as int, p.speed_end as int, p.state as int);
            let fraction = if mc >= 1 {
                fx_clamped(fx_tdiv(p.cooldown * (FX_ONE as int), mc))
            } else {
                0
            };
            Some((p.aim, fraction as i64, SightKind::Arrow))
        },
        ShootingController::Computer(c) => {
            match c.aim {
                Some(aim) => Some((aim, c.cooldown, c.weapon.sight_kind)),
                None => None,
            }
        },
    }
}

} // verus!
