//! Combat entities: a core, rotating armor rings, motion state and an
//! optional controller.

use vstd::prelude::*;

use crate::components::{
    center_ok, ring_ok, spec_center_radius_squared, spec_ring_full_radius_sq, ArmorRing, Center,
    RingView,
};
use crate::controller::{controller_ok, ControllerView, EntityController, Team};
use crate::util::{is_sqrt_floor, lemma_sqrt_floor_unique, sqrt_floor, v_ok, Vec2};
use crate::fixed::isqrt;

verus! {

/// A combat unit: its armor, motion state, cached bounding radius, color,
/// team, and an optional controller.
#[derive(Debug)]
pub struct Entity {
    pub rings: Vec<ArmorRing>,
    pub center: Center,
    pub position: Vec2,
    pub velocity: Vec2,
    pub radius: i64,
    pub color: u32,
    pub controller: Option<EntityController>,
    pub team: Team,
}

/// The mathematical value of an `Entity`.
pub ghost struct EntityView {
    pub rings: Seq<RingView>,
    pub center: Center,
    pub position: Vec2,
    pub velocity: Vec2,
    pub radius: i64,
    pub color: u32,
    pub controller: Option<ControllerView>,
    pub team: Team,
}

/// The views of a sequence of rings.
pub open spec fn rings_view(s: Seq<ArmorRing>) -> Seq<RingView> {
    s.map_values(|r: ArmorRing| r@)
}

/// The view of an optional controller.
pub open spec fn opt_controller_view(c: Option<EntityController>) -> Option<ControllerView> {
    match c {
        Some(ec) => Some(ec@),
        None => None,
    }
}

impl View for Entity {
    type V = EntityView;

    open spec fn view(&self) -> EntityView {
        EntityView {
            rings: rings_view(self.rings@),
            center: self.center,
            position: self.position,
            velocity: self.velocity,
            radius: self.radius,
            color: self.color,
            controller: opt_controller_view(self.controller),
            team: self.team,
        }
    }
}

/// `rings_view` maps indices through.
pub proof fn lemma_rings_view_index(s: Seq<ArmorRing>, i: int)
    requires
        0 <= i < s.len(),
    ensures
        rings_view(s).len() == s.len(),
        rings_view(s)[i] == s[i]@,
{
}

/// `rings_view` commutes with `push`.
pub proof fn lemma_rings_view_push(s: Seq<ArmorRing>, r: ArmorRing)
    ensures
        rings_view(s.push(r)) == rings_view(s).push(r@),
{
    assert(rings_view(s.push(r)) =~= rings_view(s).push(r@));
}

/// `rings_view` commutes with `remove`.
pub proof fn lemma_rings_view_remove(s: Seq<ArmorRing>, i: int)
    requires
        0 <= i < s.len(),
    ensures
        rings_view(s.remove(i)) == rings_view(s).remove(i),
{
    s.remove_ensures(i);
    rings_view(s).remove_ensures(i);
    assert(rings_view(s.remove(i)) =~= rings_view(s).remove(i));
}

/// Entity invariant: admissible motion state, a bounded cached radius, a
/// valid core and rings, and admissible controller parameters.
pub open spec fn entity_ok(e: EntityView) -> bool {
    &&& v_ok(e.position)
    &&& v_ok(e.velocity)
    &&& 0 <= e.radius <= 3_000_000
    &&& center_ok(e.center)
    &&& forall|i: int| 0 <= i < e.rings.len() ==> ring_ok(#[trigger] e.rings[i])
    &&& (e.controller matches Some(c) ==> controller_ok(c))
}

/// The largest squared bounding radius over the surviving plates of the
/// first `n` rings, `None` when none of them has a plate left.
pub open spec fn spec_rings_max_r2_upto(rings: Seq<RingView>, n: int) -> Option<int>
    decreases n,
{
    if n <= 0 {
        None
    } else {
        let rest = spec_rings_max_r2_upto(rings, n - 1);
        match spec_ring_full_radius_sq(rings[n - 1]) {
            Some(v) => match rest {
                Some(m) => if v > m {
                    Some(v)
                } else {
                    Some(m)
                },
                None => Some(v),
            },
            None => rest,
        }
    }
}

/// The squared bounding radius of a fresh entity: the largest surviving
/// ring plate's, or the core's own radius when no ring plate survives (or
/// there are no rings at all).
pub open spec fn spec_entity_radius_sq(rings: Seq<RingView>, center: Center) -> int {
    match spec_rings_max_r2_upto(rings, rings.len() as int) {
        Some(m) => m,
        None => spec_center_radius_squared(center),
    }
}

/// The first `n` rings with the fully destroyed ones dropped, in order.
pub open spec fn spec_live_rings_upto(rings: Seq<RingView>, n: int) -> Seq<RingView>
    decreases n,
{
    if n <= 0 {
        Seq::empty()
    } else {
        let rest = spec_live_rings_upto(rings, n - 1);
        if spec_ring_full_radius_sq(rings[n - 1]) is Some {
            rest.push(rings[n - 1])
        } else {
            rest
        }
    }
}

/// Every ring the pruning keeps is one of the original rings, and no more
/// than `n` of them are kept.
pub proof fn lemma_live_rings_members(rings: Seq<RingView>, n: int)
    requires
        0 <= n <= rings.len(),
    ensures
        spec_live_rings_upto(rings, n).len() <= n,
        forall|t: int|
            0 <= t < spec_live_rings_upto(rings, n).len() ==> exists|s: int|
                0 <= s < n && #[trigger] spec_live_rings_upto(rings, n)[t] == rings[s],
    decreases n,
{
    if n > 0 {
        lemma_live_rings_members(rings, n - 1);
        let prev = spec_live_rings_upto(rings, n - 1);
        let cur = spec_live_rings_upto(rings, n);
        assert forall|t: int| 0 <= t < cur.len() implies exists|s: int|
            0 <= s < n && #[trigger] cur[t] == rings[s] by {
            if t < prev.len() {
                let s = choose|s: int| 0 <= s < n - 1 && prev[t] == rings[s];
                assert(cur[t] == rings[s]);
            } else {
                assert(cur[t] == rings[n - 1]);
            }
        }
    }
}

/// The squared bounding radius after pruning: the core's radius or any
/// surviving ring's, whichever is largest.
pub open spec fn spec_pruned_r2_upto(rings: Seq<RingView>, center: Center, n: int) -> int
    decreases n,
{
    if n <= 0 {
        spec_center_radius_squared(center)
    } else {
        let rest = spec_pruned_r2_upto(rings, center, n - 1);
        match spec_ring_full_radius_sq(rings[n - 1]) {
            Some(v) => if v > rest {
                v
            } else {
                rest
            },
            None => rest,
        }
    }
}

impl Entity {
    /// Build an entity from its parts, at rest, with the cached radius
    /// computed from the rings (or, with no rings, from the core).
    pub fn from_rings(
        position: Vec2,
        color: u32,
        center: Center,
        rings: Vec<ArmorRing>,
        controller: Option<EntityController>,
        team: Team,
    ) -> (r: Entity)
        requires
            v_ok(position),
            center_ok(center),
            center.armor is Some,
            forall|i: int| 0 <= i < rings@.len() ==> ring_ok(#[trigger] rings@[i]@),
            opt_controller_view(controller) matches Some(c) ==> controller_ok(c),
        ensures
            r@.rings == rings_view(rings@),
            r@.center == center,
            r@.position == position,
            r@.velocity == (Vec2 { x: 0, y: 0 }),
            r@.radius == sqrt_floor(spec_entity_radius_sq(rings_view(rings@), center)),
            r@.color == color,
            r@.controller == opt_controller_view(controller),
            r@.team == team,
            entity_ok(r@),
    {
        let rs: i64 = Self::get_radius_squared(&rings, &center);
        let radius: i64 = isqrt(rs as u64) as i64;
        proof {
            lemma_sqrt_floor_unique(rs as int, radius as int);
            assert(radius <= 3_000_000) by (nonlinear_arith)
                requires
                    is_sqrt_floor(rs as int, radius as int),
                    rs <= 9_000_000_000_000,
            ;
        }
        let r = Entity {
            rings,
            center,
            position,
            velocity: Vec2 { x: 0, y: 0 },
            radius,
            color,
            controller,
            team,
        };
        proof {
            assert forall|i: int| 0 <= i < r@.rings.len() implies ring_ok(
                #[trigger] r@.rings[i],
            ) by {
                lemma_rings_view_index(r.rings@, i);
            }
        }
        r
    }

    /// The squared bounding radius from a set of rings and a core.
    fn get_radius_squared(rings: &Vec<ArmorRing>, center: &Center) -> (r: i64)
        requires
            forall|i: int| 0 <= i < rings@.len() ==> ring_ok(#[trigger] rings@[i]@),
            center_ok(*center),
            center.armor is Some,
        ensures
            r == spec_entity_radius_sq(rings_view(rings@), *center),
            0 <= r <= 5_000_000_000_000,
    {
        let n: usize = rings.len();
        let mut best: Option<i64> = None;
        let mut j: usize = 0;
        while j < n
            invariant
                j <= n,
                n == rings@.len(),
                forall|i: int| 0 <= i < rings@.len() ==> ring_ok(#[trigger] rings@[i]@),
                best is Some <==> spec_rings_max_r2_upto(rings_view(rings@), j as int) is Some,
                best matches Some(m) ==> spec_rings_max_r2_upto(rings_view(rings@), j as int)
                    == Some(m as int),
                best matches Some(m) ==> 0 <= m <= 5_000_000_000_000,
            decreases n - j,
        {
            proof {
                lemma_rings_view_index(rings@, j as int);
            }
            match rings[j].get_full_radius_squared() {
                Some(r2) => {
                    match best {
                        Some(m) => {
                            if r2 > m {
                                best = Some(r2);
                            }
                        },
                        None => {
                            best = Some(r2);
                        },
                    }
                },
                None => {},
            }
            j += 1;
        }
        match best {
            Some(rs) => rs,
            None => center.get_radius_squared(),
        }
    }

    /// The current full bounding radius, recomputed from the rings and core.
    pub fn get_full_radius(&self) -> (r: i64)
        requires
            entity_ok(self@),
            self.center.armor is Some,
        ensures
            r == sqrt_floor(spec_entity_radius_sq(self@.rings, self@.center)),
            0 <= r <= 3_000_000,
    {
        proof {
            assert forall|i: int| 0 <= i < self.rings@.len() implies ring_ok(
                #[trigger] self.rings@[i]@,
            ) by {
                lemma_rings_view_index(self.rings@, i);
                assert(ring_ok(self@.rings[i]));
            }
        }
        let rs: i64 = Self::get_radius_squared(&self.rings, &self.center);
        let radius: i64 = isqrt(rs as u64) as i64;
        proof {
            lemma_sqrt_floor_unique(rs as int, radius as int);
            assert(radius <= 3_000_000) by (nonlinear_arith)
                requires
                    is_sqrt_floor(rs as int, radius as int),
                    rs <= 9_000_000_000_000,
            ;
        }
        radius
    }

    /// Decide whether the entity must be removed, pruning dead rings and
    /// refreshing the cached radius if it survives.
    ///
    /// Returns `None` (a deletion request, with the entity untouched) when
    /// the core armor is gone; otherwise drops every fully destroyed ring,
    /// recomputes the bounding radius, and returns `Some(())`.
    pub fn check_deletion(&mut self) -> (r: Option<()>)
        requires
            entity_ok(old(self)@),
        ensures
            r is Some <==> old(self).center.armor is Some,
            r is None ==> *final(self) == *old(self),
            r is Some ==> final(self)@ == (EntityView {
                rings: spec_live_rings_upto(old(self)@.rings, old(self)@.rings.len() as int),
                radius: sqrt_floor(
                    spec_pruned_r2_upto(
                        old(self)@.rings,
                        old(self).center,
                        old(self)@.rings.len() as int,
                    ),
                ) as i64,
                ..old(self)@
            }),
            entity_ok(final(self)@),
    {
        match &self.center.armor {
            Some(_) => {},
            None => {
                return None;
            },
        }
        let ghost orig = old(self)@.rings;
        let mut rs: i64 = self.center.get_radius_squared();
        let mut i: usize = 0;
        let ghost mut k: int = 0;
        while i < self.rings.len()
            invariant
                entity_ok(old(self)@),
                old(self).center.armor is Some,
                0 <= k <= orig.len(),
                orig == old(self)@.rings,
                rings_view(self.rings@) == spec_live_rings_upto(orig, k) + orig.skip(k),
                i as int == spec_live_rings_upto(orig, k).len(),
                i <= self.rings@.len(),
                rs == spec_pruned_r2_upto(orig, old(self).center, k),
                0 <= rs <= 5_000_000_000_000,
                self.center == old(self).center,
                self.position == old(self).position,
                self.velocity == old(self).velocity,
                self.radius == old(self).radius,
                self.color == old(self).color,
                self.controller == old(self).controller,
                self.team == old(self).team,
            decreases self.rings@.len() - i,
        {
            proof {
                lemma_rings_view_index(self.rings@, i as int);
                assert(rings_view(self.rings@)[i as int] == orig[k]);
                assert(self.rings@[i as int]@ == orig[k]);
                assert(ring_ok(orig[k]));
            }
            let full: Option<i64> = self.rings[i].get_full_radius_squared();
            match full {
                Some(r2) => {
                    if r2 > rs {
                        rs = r2;
                    }
                    proof {
                        assert(spec_live_rings_upto(orig, k + 1) == spec_live_rings_upto(
                            orig,
                            k,
                        ).push(orig[k]));
                        assert(rings_view(self.rings@) =~= spec_live_rings_upto(orig, k + 1)
                            + orig.skip(k + 1));
                        k = k + 1;
                    }
                    i += 1;
                },
                None => {
                    let ghost pre = self.rings@;
                    self.rings.remove(i);
                    proof {
                        lemma_rings_view_remove(pre, i as int);
                        rings_view(pre).remove_ensures(i as int);
                        assert(rings_view(self.rings@) =~= spec_live_rings_upto(orig, k + 1)
                            + orig.skip(k + 1));
                        k = k + 1;
                    }
                },
            }
        }
        proof {
            assert(k == orig.len());
            assert(orig.skip(k) =~= Seq::<RingView>::empty());
            assert(rings_view(self.rings@) =~= spec_live_rings_upto(orig, orig.len() as int));
        }
        let radius: i64 = isqrt(rs as u64) as i64;
        proof {
            lemma_sqrt_floor_unique(rs as int, radius as int);
            assert(radius <= 3_000_000) by (nonlinear_arith)
                requires
                    is_sqrt_floor(rs as int, radius as int),
                    rs <= 9_000_000_000_000,
            ;
        }
        self.radius = radius;
        proof {
            lemma_live_rings_members(orig, orig.len() as int);
            assert forall|t: int| 0 <= t < final(self)@.rings.len() implies ring_ok(
                #[trigger] final(self)@.rings[t],
            ) by {
                let s = choose|s: int|
                    0 <= s < orig.len() && spec_live_rings_upto(orig, orig.len() as int)[t]
                        == orig[s];
                assert(ring_ok(orig[s]));
            }
        }
        Some(())
    }

    /// Advance the entity by one tick: rotate the core and every ring and
    /// decay their hit flashes, run the controller (motion, shooting,
    /// targeting), then integrate the position by the resulting velocity.
    pub fn update(
        &mut self,
        index: u64,
        delta_seconds: i64,
        app: &mut crate::app::App,
        input: &crate::player_controller::InputFrame,
    )
        requires
            entity_ok(old(self)@),
            crate::app::app_ok(*old(app)),
            0 <= delta_seconds <= 500_000,
        ensures
            entity_ok(final(self)@),
            final(self)@.center == crate::components::spec_center_advanced(
                old(self)@.center,
                delta_seconds as int,
            ),
            final(self)@.rings.len() == old(self)@.rings.len(),
            forall|i: int|
                0 <= i < old(self)@.rings.len() ==> #[trigger] final(self)@.rings[i]
                    == crate::components::spec_ring_advanced(
                    old(self)@.rings[i],
                    delta_seconds as int,
                ),
            final(self)@.position == crate::collision::spec_vadd(
                old(self)@.position,
                crate::collision::spec_vscale(final(self)@.velocity, delta_seconds as int),
            ),
            final(self)@.radius == old(self)@.radius,
            final(self)@.color == old(self)@.color,
            final(self)@.team == old(self)@.team,
            old(self)@.controller is None ==> final(self)@.velocity == old(self)@.velocity
                && final(self)@.controller is None,
            crate::app::app_ok(*final(app)),
            crate::store::entity_store(final(app).entities) == crate::store::entity_store(
                old(app).entities,
            ),
            final(app).timestep_length == old(app).timestep_length,
            final(app).update_time == old(app).update_time,
            final(app).frame_time == old(app).frame_time,
            final(app).mouse.position == old(app).mouse.position,
            crate::store::projectile_store(old(app).projectiles).submap_of(
                crate::store::projectile_store(final(app).projectiles),
            ),
            crate::app::spec_fresh_age_zero(
                crate::store::projectile_store(old(app).projectiles),
                crate::store::projectile_store(final(app).projectiles),
            ),
    {
        self.center.update(delta_seconds);
        proof {
            assert(self.center == crate::components::spec_center_advanced(
                old(self).center,
                delta_seconds as int,
            ));
        }
        let n: usize = self.rings.len();
        proof {
            assert forall|t: int| 0 <= t < n implies ring_ok(#[trigger] self.rings@[t]@) by {
                lemma_rings_view_index(self.rings@, t);
                assert(ring_ok(old(self)@.rings[t]));
            }
            assert forall|t: int| 0 <= t < n implies #[trigger] self.rings@[t]@ == old(
                self,
            )@.rings[t] by {
                lemma_rings_view_index(self.rings@, t);
            }
        }
        let mut i: usize = 0;
        while i < n
            invariant
                i <= n,
                n == self.rings@.len(),
                n == old(self)@.rings.len(),
                entity_ok(old(self)@),
                0 <= delta_seconds <= 500_000,
                self.center == crate::components::spec_center_advanced(
                    old(self).center,
                    delta_seconds as int,
                ),
                center_ok(self.center),
                self.position == old(self).position,
                self.velocity == old(self).velocity,
                self.radius == old(self).radius,
                self.color == old(self).color,
                self.controller == old(self).controller,
                self.team == old(self).team,
                forall|t: int|
                    i <= t < n ==> #[trigger] self.rings@[t]@ == old(self)@.rings[t],
                forall|t: int|
                    0 <= t < i ==> #[trigger] self.rings@[t]@
                        == crate::components::spec_ring_advanced(
                        old(self)@.rings[t],
                        delta_seconds as int,
                    ),
                forall|t: int| 0 <= t < n ==> ring_ok(#[trigger] self.rings@[t]@),
            decreases n - i,
        {
            proof {
                lemma_rings_view_index(old(self).rings@, i as int);
            }
            let ghost pre = self.rings@;
            let mut ring: ArmorRing = self.rings.remove(i);
            ring.update(delta_seconds);
            self.rings.insert(i, ring);
            proof {
                pre.remove_ensures(i as int);
                pre.remove(i as int).insert_ensures(i as int, ring);
                assert(self.rings@ == pre.remove(i as int).insert(i as int, ring));
                assert forall|t: int| 0 <= t < n implies #[trigger] self.rings@[t]
                    == (if t == i as int {
                    ring
                } else {
                    pre[t]
                }) by {
                    if t < i as int {
                        assert(self.rings@[t] == pre.remove(i as int)[t]);
                    } else if t > i as int {
                        assert(self.rings@[t] == pre.remove(i as int)[t - 1]);
                        assert(pre.remove(i as int)[t - 1] == pre[t]);
                    }
                }
                assert(pre[i as int]@ == old(self)@.rings[i as int]);
                assert(ring@.armor =~= crate::components::spec_ring_advanced(
                    old(self)@.rings[i as int],
                    delta_seconds as int,
                ).armor);
                assert(ring@ == crate::components::spec_ring_advanced(
                    old(self)@.rings[i as int],
                    delta_seconds as int,
                ));
            }
            i += 1;
        }
        proof {
            assert(entity_ok(self@)) by {
                assert forall|t: int| 0 <= t < self@.rings.len() implies ring_ok(
                    #[trigger] self@.rings[t],
                ) by {
                    lemma_rings_view_index(self.rings@, t);
                }
            }
        }
        crate::controller::EntityController::update(self, index, delta_seconds, app, input);
        let motion: Vec2 = self.velocity.vscale(delta_seconds);
        self.position = self.position.vadd(motion);
        proof {
            assert forall|t: int|
                0 <= t < self@.rings.len() implies #[trigger] self@.rings[t]
                == crate::components::spec_ring_advanced(
                old(self)@.rings[t],
                delta_seconds as int,
            ) by {
                lemma_rings_view_index(self.rings@, t);
            }
        }
    }

    /// An exact copy of this entity.
    pub fn duplicate(&self) -> (r: Entity)
        ensures
            r@ == self@,
    {
        let mut rings: Vec<ArmorRing> = Vec::new();
        let n: usize = self.rings.len();
        let mut j: usize = 0;
        while j < n
            invariant
                j <= n,
                n == self.rings@.len(),
                rings_view(rings@) == rings_view(self.rings@).take(j as int),
            decreases n - j,
        {
            let ghost pre = rings@;
            let copy: ArmorRing = self.rings[j].duplicate();
            rings.push(copy);
            proof {
                lemma_rings_view_push(pre, copy);
                lemma_rings_view_index(self.rings@, j as int);
                assert(rings_view(rings@) =~= rings_view(self.rings@).take(j + 1));
            }
            j += 1;
        }
        let controller: Option<EntityController> = match &self.controller {
            Some(c) => Some(c.duplicate()),
            None => None,
        };
        let r = Entity {
            rings,
            center: self.center,
            position: self.position,
            velocity: self.velocity,
            radius: self.radius,
            color: self.color,
            controller,
            team: self.team,
        };
        proof {
            assert(rings_view(r.rings@) =~= rings_view(self.rings@));
        }
        r
    }
}

} // verus!
