//! Projectiles: analytic motion along an exponential speed curve, lifetime,
//! and collision resolution against an entity's armor.

use vstd::prelude::*;

use crate::collision::{
    rect_ok, spec_colliding, spec_from_dimensions, spec_radius_squared, Rectangle,
};
use crate::components::{
    armor_ok, ring_ok, spec_center_collider, spec_ring_collider, Armor, ArmorRing,
};
use crate::controller::Team;
use crate::entity::{entity_ok, rings_view, Entity, EntityView};
use crate::fixed::{
    fx_add, fx_clamp, fx_clamped, fx_exp, fx_ok, fx_sub, fx_tdiv, fx_tdiv_s, spec_fx_exp,
    fx_div_raw, lemma_mul_magnitude, lemma_tdiv_magnitude, FX_ONE,
};
use crate::util::{sqrt_floor, spec_length_squared, v_ok, Vec2};

verus! {

/// A projectile in flight.
///
/// The speed decays (or grows) exponentially: the instantaneous speed after
/// `t` seconds is `initial_speed * e^(speed_decay * t)` (all fixed point),
/// and the position is always computed in closed form from `start_position`
/// and `age`, so the trajectory does not depend on how the elapsed time is
/// cut into ticks. `speed_decay` is the natural log of the per-second speed
/// factor; zero means constant speed.
#[derive(Clone, Copy, Debug)]
pub struct Projectile {
    pub position: Vec2,
    pub start_position: Vec2,
    /// The unit direction of travel (`(cos, sin)` of the firing angle).
    pub angle: Vec2,
    pub initial_speed: i64,
    pub speed_decay: i64,
    pub lifetime: i64,
    pub age: i64,
    pub size: Vec2,
    pub color: u32,
    pub sender: u64,
    pub team: Option<Team>,
    pub previous_displacement: i64,
}

/// Projectile invariant: admissible vectors, a nonnegative bounded speed, a
/// decay and lifetime small enough that the exponent stays in the domain of
/// the fixed-point exponential, and an age within the lifetime.
pub open spec fn proj_ok(p: Projectile) -> bool {
    &&& v_ok(p.position)
    &&& v_ok(p.start_position)
    &&& v_ok(p.angle)
    &&& -(FX_ONE as int) <= p.angle.x <= FX_ONE
    &&& -(FX_ONE as int) <= p.angle.y <= FX_ONE
    &&& 0 <= p.initial_speed <= 1_000_000
    &&& -8000 <= p.speed_decay <= 8000
    &&& 0 <= p.lifetime <= 600_000
    &&& -15_000_000 <= p.speed_decay * p.lifetime <= 8_000_000
    &&& 0 <= p.age <= p.lifetime
    &&& 0 <= p.size.x <= 1_000_000
    &&& 0 <= p.size.y <= 1_000_000
    &&& fx_ok(p.previous_displacement as int)
}

/// The total distance travelled after `age` raw seconds: `speed * age` for
/// constant speed, else the closed-form integral of the exponential curve,
/// saturated into the admissible range.
pub open spec fn spec_disp_total(initial_speed: int, decay: int, age: int) -> int {
    if decay == 0 {
        fx_clamped(fx_tdiv(initial_speed * age, FX_ONE as int))
    } else {
        let e = spec_fx_exp(fx_tdiv(decay * age, FX_ONE as int));
        fx_clamped(fx_tdiv_s(initial_speed * (e - FX_ONE), decay))
    }
}

/// The position after `age` raw seconds: the start plus the travelled
/// distance along the unit direction.
pub open spec fn spec_position_at(p: Projectile, age: int) -> Vec2 {
    let d = spec_disp_total(p.initial_speed as int, p.speed_decay as int, age);
    Vec2 {
        x: fx_clamped(p.start_position.x + fx_clamped(fx_tdiv(p.angle.x * d, FX_ONE as int)))
            as i64,
        y: fx_clamped(p.start_position.y + fx_clamped(fx_tdiv(p.angle.y * d, FX_ONE as int)))
            as i64,
    }
}

/// The projectile after one tick of motion that does not expire it: the age
/// advances, the position is recomputed from the closed form, and the tick's
/// displacement is cached for the swept collider.
pub open spec fn spec_after_motion(p: Projectile, dt: int) -> Projectile {
    let new_age = p.age + dt;
    let d_old = spec_disp_total(p.initial_speed as int, p.speed_decay as int, p.age as int);
    let d_new = spec_disp_total(p.initial_speed as int, p.speed_decay as int, new_age);
    Projectile {
        position: spec_position_at(p, new_age),
        age: new_age as i64,
        previous_displacement: fx_clamped(d_new - d_old) as i64,
        ..p
    }
}

/// Exponential motion is tick-size independent: advancing a projectile by
/// `dt1` and then `dt2` puts it exactly where advancing it once by
/// `dt1 + dt2` does, and at the same age.
pub proof fn lemma_motion_tick_independent(p: Projectile, dt1: int, dt2: int)
    requires
        0 <= p.age,
        0 <= dt1,
        0 <= dt2,
        p.age + dt1 + dt2 <= 600_000,
    ensures
        spec_after_motion(spec_after_motion(p, dt1), dt2).position == spec_after_motion(
            p,
            dt1 + dt2,
        ).position,
        spec_after_motion(spec_after_motion(p, dt1), dt2).age == spec_after_motion(
            p,
            dt1 + dt2,
        ).age,
{
}

impl Projectile {
    /// A fresh projectile at `position`, aged zero.
    pub fn from_speed(
        initial_speed: i64,
        speed_decay: i64,
        angle: Vec2,
        position: Vec2,
        size: Vec2,
        lifetime: i64,
        color: u32,
        sender: u64,
        team: Option<Team>,
    ) -> (r: Projectile)
        requires
            0 <= initial_speed <= 1_000_000,
            -8000 <= speed_decay <= 8000,
            v_ok(angle),
            -(FX_ONE as int) <= angle.x <= FX_ONE,
            -(FX_ONE as int) <= angle.y <= FX_ONE,
            v_ok(position),
            0 <= size.x <= 1_000_000,
            0 <= size.y <= 1_000_000,
            0 <= lifetime <= 600_000,
            -15_000_000 <= speed_decay * lifetime <= 8_000_000,
        ensures
            r == (Projectile {
                position,
                start_position: position,
                angle,
                initial_speed,
                speed_decay,
                lifetime,
                age: 0,
                size,
                color,
                sender,
                team,
                previous_displacement: 0,
            }),
            proj_ok(r),
    {
        Projectile {
            position,
            start_position: position,
            angle,
            initial_speed,
            speed_decay,
            lifetime,
            age: 0,
            size,
            color,
            sender,
            team,
            previous_displacement: 0,
        }
    }

    /// The initial velocity vector: the unit direction scaled by the muzzle
    /// speed.
    pub fn velocity(&self) -> (r: Vec2)
        requires
            proj_ok(*self),
        ensures
            r.x == fx_clamped(fx_tdiv(self.angle.x * self.initial_speed, FX_ONE as int)),
            r.y == fx_clamped(fx_tdiv(self.angle.y * self.initial_speed, FX_ONE as int)),
            v_ok(r),
    {
        self.distance_ahead(self.initial_speed)
    }

    /// A displacement of `distance` along the direction of travel.
    pub fn distance_ahead(&self, distance: i64) -> (r: Vec2)
        requires
            v_ok(self.angle),
            fx_ok(distance as int),
        ensures
            r.x == fx_clamped(fx_tdiv(self.angle.x * distance, FX_ONE as int)),
            r.y == fx_clamped(fx_tdiv(self.angle.y * distance, FX_ONE as int)),
            v_ok(r),
    {
        self.angle.vscale(distance)
    }

    /// Advance the projectile by one tick.
    ///
    /// The age always advances by `dt`; the projectile expires (and `true`
    /// is returned with nothing else changed) exactly when the new age
    /// reaches the lifetime. Otherwise the position moves along the closed
    /// form and the tick's displacement is cached.
    pub fn update(&mut self, dt: i64) -> (expired: bool)
        requires
            proj_ok(*old(self)),
            0 <= dt <= 600_000,
        ensures
            expired <==> old(self).age + dt >= old(self).lifetime,
            final(self).age == old(self).age + dt,
            expired ==> *final(self) == (Projectile { age: (old(self).age + dt) as i64, ..*old(
                self,
            ) }),
            !expired ==> *final(self) == spec_after_motion(*old(self), dt as int),
            !expired ==> proj_ok(*final(self)),
    {
        let previous_age: i64 = self.age;
        self.age = self.age + dt;
        if self.age >= self.lifetime {
            return true;
        }
        let d_old: i64 = self.disp_total_at(previous_age);
        let d_new: i64 = self.disp_total_at(self.age);
        let motion: Vec2 = self.distance_ahead(d_new);
        self.position = self.start_position.vadd(motion);
        self.previous_displacement = fx_sub(d_new, d_old);
        false
    }

    /// The total distance travelled at the given age; it depends only on
    /// the speed parameters, not on the projectile's own age field.
    fn disp_total_at(&self, age: i64) -> (r: i64)
        requires
            v_ok(self.angle),
            0 <= self.initial_speed <= 1_000_000,
            -8000 <= self.speed_decay <= 8000,
            0 <= self.lifetime <= 600_000,
            -15_000_000 <= self.speed_decay * self.lifetime <= 8_000_000,
            0 <= age <= self.lifetime,
        ensures
            r == spec_disp_total(self.initial_speed as int, self.speed_decay as int, age as int),
            fx_ok(r as int),
    {
        if self.speed_decay == 0 {
            proof {
                lemma_mul_magnitude(self.initial_speed as int, age as int, 1_000_000, 600_000);
            }
            fx_clamp(fx_div_raw(self.initial_speed * age, FX_ONE))
        } else {
            proof {
                lemma_mul_magnitude(self.speed_decay as int, age as int, 8000, 600_000);
                assert(self.speed_decay * age <= 8_000_000 && self.speed_decay * age
                    >= -15_000_000) by (nonlinear_arith)
                    requires
                        -15_000_000 <= self.speed_decay * self.lifetime <= 8_000_000,
                        0 <= age <= self.lifetime,
                        -8000 <= self.speed_decay <= 8000,
                ;
            }
            let arg: i64 = fx_div_raw(self.speed_decay * age, FX_ONE);
            proof {
                assert(-15_000 <= fx_tdiv(self.speed_decay * age, FX_ONE as int) <= 8000) by {
                    if self.speed_decay * age >= 0 {
                        lemma_tdiv_magnitude(self.speed_decay * age, FX_ONE as int, 8000);
                    } else {
                        lemma_tdiv_magnitude(self.speed_decay * age, FX_ONE as int, 15_000);
                    }
                }
            }
            let e: i64 = fx_exp(arg);
            proof {
                lemma_mul_magnitude(
                    self.initial_speed as int,
                    e - FX_ONE,
                    1_000_000,
                    700_000,
                );
            }
            let num: i64 = self.initial_speed * (e - FX_ONE);
            let q: i64 = if self.speed_decay >= 1 {
                fx_div_raw(num, self.speed_decay)
            } else {
                fx_div_raw(-num, -self.speed_decay)
            };
            fx_clamp(q)
        }
    }

    /// The swept collider: the projectile's box extended backward along the
    /// travel direction by the previous tick's displacement, anchored at the
    /// nose.
    pub fn get_collider(&self) -> (r: Rectangle)
        requires
            proj_ok(*self),
        ensures
            rect_ok(r),
            r == spec_proj_collider(*self),
    {
        Rectangle::from_dimensions(
            self.position,
            Vec2 { x: fx_add(self.size.y, self.previous_displacement), y: self.size.x },
            Vec2 { x: 1000, y: 500 },
            self.angle,
        )
    }
}

/// The swept collider of a projectile.
pub open spec fn spec_proj_collider(p: Projectile) -> Rectangle {
    spec_from_dimensions(
        p.position,
        Vec2 { x: fx_clamped(p.size.y + p.previous_displacement) as i64, y: p.size.x },
        Vec2 { x: 1000, y: 500 },
        p.angle,
    )
}

/// Where a projectile struck an entity: one ring slot, or the core.
#[derive(Clone, Copy, Debug, PartialEq, Eq, Structural)]
pub struct HitLoc {
    pub is_center: bool,
    pub ring: usize,
    pub slot: usize,
}

/// The armor collider at a location: the core's (while its armor survives),
/// or a ring slot's; `None` for destroyed or out-of-range locations.
pub open spec fn spec_loc_collider(e: EntityView, loc: HitLoc) -> Option<Rectangle> {
    if loc.is_center {
        if e.center.armor is Some {
            Some(spec_center_collider(e.center, e.position))
        } else {
            None
        }
    } else {
        if 0 <= loc.ring < e.rings.len() && 0 <= loc.slot < e.rings[loc.ring as int].armor.len() {
            spec_ring_collider(e.rings[loc.ring as int], e.position, loc.slot as int)
        } else {
            None
        }
    }
}

/// The projectile collider overlaps the armor collider at this location.
pub open spec fn spec_loc_colliding(e: EntityView, pc: Rectangle, loc: HitLoc) -> bool {
    match spec_loc_collider(e, loc) {
        Some(rect) => spec_colliding(pc, rect),
        None => false,
    }
}

/// The proximity key of a rectangle: the smallest dot product of any of its
/// corners (relative to `origin`) with the travel direction.
pub open spec fn spec_corner_key(rect: Rectangle, origin: Vec2, dir: Vec2) -> int {
    let s0 = crate::collision::spec_side(rect.corners[0], origin, dir);
    let s1 = crate::collision::spec_side(rect.corners[1], origin, dir);
    let s2 = crate::collision::spec_side(rect.corners[2], origin, dir);
    let s3 = crate::collision::spec_side(rect.corners[3], origin, dir);
    let m01 = if s1 < s0 {
        s1
    } else {
        s0
    };
    let m23 = if s3 < s2 {
        s3
    } else {
        s2
    };
    if m23 < m01 {
        m23
    } else {
        m01
    }
}

/// The proximity key of the armor collider at a location.
pub open spec fn spec_loc_key(e: EntityView, loc: HitLoc, origin: Vec2, dir: Vec2) -> int {
    spec_corner_key(spec_loc_collider(e, loc)->Some_0, origin, dir)
}

/// Iteration order over candidate locations: ring slots in ring-major
/// order, the core last.
pub open spec fn spec_loc_lt(a: HitLoc, b: HitLoc) -> bool {
    if b.is_center {
        !a.is_center
    } else if a.is_center {
        false
    } else {
        a.ring < b.ring || (a.ring == b.ring && a.slot < b.slot)
    }
}

/// `loc` is the location the narrow phase picks: it collides, its key is
/// minimal, and no earlier colliding location ties with it.
pub open spec fn spec_is_chosen(
    e: EntityView,
    pc: Rectangle,
    origin: Vec2,
    dir: Vec2,
    loc: HitLoc,
) -> bool {
    &&& spec_loc_colliding(e, pc, loc)
    &&& forall|l2: HitLoc|
        #[trigger] spec_loc_colliding(e, pc, l2) ==> spec_loc_key(e, loc, origin, dir)
            <= spec_loc_key(e, l2, origin, dir)
    &&& forall|l2: HitLoc|
        #[trigger] spec_loc_colliding(e, pc, l2) && spec_loc_lt(l2, loc) ==> spec_loc_key(
            e,
            l2,
            origin,
            dir,
        ) > spec_loc_key(e, loc, origin, dir)
}

/// The controller after an alert, if there is one.
pub open spec fn spec_alerted(
    c: Option<crate::controller::ControllerView>,
    sender: u64,
) -> Option<crate::controller::ControllerView> {
    match c {
        None => None,
        Some(cv) => Some(
            crate::controller::ControllerView {
                targets: if cv.targets.contains(sender) {
                    cv.targets
                } else {
                    cv.targets.push(sender)
                },
                ..cv
            },
        ),
    }
}

/// The entity after a hit at `loc`: one point of damage on that armor slot,
/// and its controller alerted to the sender.
pub open spec fn spec_apply_hit(e: EntityView, loc: HitLoc, sender: u64) -> EntityView {
    let damaged = if loc.is_center {
        EntityView {
            center: crate::components::Center {
                armor: crate::components::spec_damaged(e.center.armor, 1),
                ..e.center
            },
            ..e
        }
    } else {
        let ring = e.rings[loc.ring as int];
        EntityView {
            rings: e.rings.update(
                loc.ring as int,
                crate::components::RingView {
                    armor: ring.armor.update(
                        loc.slot as int,
                        crate::components::spec_damaged(ring.armor[loc.slot as int], 1),
                    ),
                    ..ring
                },
            ),
            ..e
        }
    };
    EntityView { controller: spec_alerted(damaged.controller, sender), ..damaged }
}

/// The broad phase rejects the entity: the squared distance between the
/// collider's center and the entity exceeds the squared sum of their
/// bounding radii.
pub open spec fn spec_broad_miss(collider: Rectangle, e: EntityView) -> bool {
    let cc = Vec2 {
        x: fx_tdiv(collider.corners[0].x + collider.corners[2].x, 2) as i64,
        y: fx_tdiv(collider.corners[0].y + collider.corners[2].y, 2) as i64,
    };
    let d2 = spec_length_squared(crate::collision::spec_vsub(cc, e.position));
    let reach = sqrt_floor(spec_radius_squared(collider)) + e.radius;
    d2 > reach * reach
}

impl Projectile {
    /// The proximity key of one armor collider.
    fn corner_key(rect: &Rectangle, origin: Vec2, dir: Vec2) -> (r: i64)
        requires
            rect_ok(*rect),
            v_ok(origin),
            v_ok(dir),
        ensures
            r == spec_corner_key(*rect, origin, dir),
    {
        let s0: i64 = rect.corners[0].vsub(origin).vdot(dir);
        let s1: i64 = rect.corners[1].vsub(origin).vdot(dir);
        let s2: i64 = rect.corners[2].vsub(origin).vdot(dir);
        let s3: i64 = rect.corners[3].vsub(origin).vdot(dir);
        let m01: i64 = if s1 < s0 {
            s1
        } else {
            s0
        };
        let m23: i64 = if s3 < s2 {
            s3
        } else {
            s2
        };
        if m23 < m01 {
            m23
        } else {
            m01
        }
    }

    /// The narrow phase: the first colliding armor slot closest along the
    /// travel direction, ring slots first, the core last.
    fn find_hit_slot(&self, collider: &Rectangle, origin: Vec2, entity: &Entity) -> (r: Option<
        HitLoc,
    >)
        requires
            proj_ok(*self),
            rect_ok(*collider),
            v_ok(origin),
            entity_ok(entity@),
        ensures
            r is None ==> forall|l2: HitLoc| !spec_loc_colliding(entity@, *collider, l2),
            r matches Some(loc) ==> spec_is_chosen(entity@, *collider, origin, self.angle, loc),
    {
        let dir: Vec2 = self.angle;
        let mut best: Option<(i64, HitLoc)> = None;
        let nrings: usize = entity.rings.len();
        let mut ri: usize = 0;
        while ri < nrings
            invariant
                ri <= nrings,
                nrings == entity.rings@.len(),
                proj_ok(*self),
                rect_ok(*collider),
                v_ok(origin),
                entity_ok(entity@),
                dir == self.angle,
                best is None ==> forall|l2: HitLoc|
                    !l2.is_center && l2.ring < ri ==> !spec_loc_colliding(entity@, *collider, l2),
                best matches Some((k, loc)) ==> {
                    &&& !loc.is_center
                    &&& loc.ring < ri
                    &&& spec_loc_colliding(entity@, *collider, loc)
                    &&& k == spec_loc_key(entity@, loc, origin, dir)
                    &&& forall|l2: HitLoc|
                        (!l2.is_center && l2.ring < ri && spec_loc_colliding(
                            entity@,
                            *collider,
                            l2,
                        )) ==> k <= spec_loc_key(entity@, l2, origin, dir)
                    &&& forall|l2: HitLoc|
                        (!l2.is_center && l2.ring < ri && spec_loc_colliding(entity@, *collider, l2)
                            && spec_loc_lt(l2, loc)) ==> spec_loc_key(entity@, l2, origin, dir) > k
                },
            decreases nrings - ri,
        {
            proof {
                crate::entity::lemma_rings_view_index(entity.rings@, ri as int);
            }
            let colliders: Vec<Option<Rectangle>> = entity.rings[ri].get_colliders(entity.position);
            let nslots: usize = colliders.len();
            let mut si: usize = 0;
            while si < nslots
                invariant
                    si <= nslots,
                    ri < nrings,
                    nrings == entity.rings@.len(),
                    nslots == entity@.rings[ri as int].armor.len(),
                    proj_ok(*self),
                    rect_ok(*collider),
                    v_ok(origin),
                    entity_ok(entity@),
                    dir == self.angle,
                    colliders@.len() == nslots,
                    forall|j: int|
                        0 <= j < nslots ==> #[trigger] colliders@[j] == spec_ring_collider(
                            entity@.rings[ri as int],
                            entity.position,
                            j,
                        ),
                    forall|j: int|
                        0 <= j < nslots ==> ((#[trigger] colliders@[j]) matches Some(rect)
                            ==> rect_ok(rect)),
                    entity.position == entity@.position,
                    best is None ==> forall|l2: HitLoc|
                        (!l2.is_center && (l2.ring < ri || (l2.ring == ri && l2.slot < si)))
                            ==> !spec_loc_colliding(entity@, *collider, l2),
                    best matches Some((k, loc)) ==> {
                        &&& !loc.is_center
                        &&& (loc.ring < ri || (loc.ring == ri && loc.slot < si))
                        &&& spec_loc_colliding(entity@, *collider, loc)
                        &&& k == spec_loc_key(entity@, loc, origin, dir)
                        &&& forall|l2: HitLoc|
                            (!l2.is_center && (l2.ring < ri || (l2.ring == ri && l2.slot < si))
                                && spec_loc_colliding(entity@, *collider, l2)) ==> k
                                <= spec_loc_key(entity@, l2, origin, dir)
                        &&& forall|l2: HitLoc|
                            (!l2.is_center && (l2.ring < ri || (l2.ring == ri && l2.slot < si))
                                && spec_loc_colliding(entity@, *collider, l2) && spec_loc_lt(
                                l2,
                                loc,
                            )) ==> spec_loc_key(entity@, l2, origin, dir) > k
                    },
                decreases nslots - si,
            {
                let cand: HitLoc = HitLoc { is_center: false, ring: ri, slot: si };
                match &colliders[si] {
                    Some(rect) => {
                        if collider.is_colliding(rect) {
                            let key: i64 = Self::corner_key(rect, origin, dir);
                            proof {
                                assert(spec_loc_collider(entity@, cand) == Some(*rect));
                                assert(spec_loc_colliding(entity@, *collider, cand));
                                assert(key == spec_loc_key(entity@, cand, origin, dir));
                            }
                            match &best {
                                Some((bk, _)) => {
                                    if key < *bk {
                                        best = Some((key, cand));
                                    }
                                },
                                None => {
                                    best = Some((key, cand));
                                },
                            }
                        } else {
                            proof {
                                assert(spec_loc_collider(entity@, cand) == Some(*rect));
                                assert(!spec_loc_colliding(entity@, *collider, cand));
                            }
                        }
                    },
                    None => {
                        proof {
                            assert(spec_loc_collider(entity@, cand) is None);
                            assert(!spec_loc_colliding(entity@, *collider, cand));
                        }
                    },
                }
                proof {
                    assert forall|l2: HitLoc|
                        !l2.is_center && (l2.ring < ri || (l2.ring == ri && l2.slot < si + 1))
                            && spec_loc_colliding(entity@, *collider, l2) implies (l2 == cand || (
                        l2.ring < ri || (l2.ring == ri && l2.slot < si))) by {
                        if l2.ring == ri && l2.slot == si {
                            assert(l2 == cand);
                        }
                    }
                }
                si += 1;
            }
            ri += 1;
        }
        let center_loc: HitLoc = HitLoc { is_center: true, ring: 0, slot: 0 };
        let mut center_hit: bool = false;
        let mut center_key: i64 = 0;
        match &entity.center.armor {
            Some(_) => {
                let rect: Rectangle = entity.center.get_collider(entity.position);
                if collider.is_colliding(&rect) {
                    center_hit = true;
                    center_key = Self::corner_key(&rect, origin, dir);
                    proof {
                        assert(spec_loc_collider(entity@, center_loc) == Some(rect));
                        assert(spec_loc_colliding(entity@, *collider, center_loc));
                        assert(center_key == spec_loc_key(entity@, center_loc, origin, dir));
                    }
                } else {
                    proof {
                        assert(!spec_loc_colliding(entity@, *collider, center_loc));
                    }
                }
            },
            None => {
                proof {
                    assert(spec_loc_collider(entity@, center_loc) is None);
                    assert(!spec_loc_colliding(entity@, *collider, center_loc));
                }
            },
        }
        proof {
            assert forall|l2: HitLoc| l2.is_center implies (spec_loc_collider(entity@, l2)
                == spec_loc_collider(entity@, center_loc) && spec_loc_key(entity@, l2, origin, dir)
                == spec_loc_key(entity@, center_loc, origin, dir)) by {}
            assert forall|l2: HitLoc|
                !l2.is_center && spec_loc_colliding(entity@, *collider, l2) implies l2.ring
                < nrings by {}
        }
        match best {
            Some((bk, loc)) => {
                if center_hit && center_key < bk {
                    Some(center_loc)
                } else {
                    Some(loc)
                }
            },
            None => {
                if center_hit {
                    Some(center_loc)
                } else {
                    None
                }
            },
        }
    }

    /// Resolve this projectile against one entity.
    ///
    /// A broad-phase circle test may reject the entity outright. Otherwise
    /// every surviving armor collider (ring slots, then the core) that
    /// overlaps `collider` competes, and the one whose nearest corner along
    /// `direction` is smallest wins; on exactly tied corner keys the
    /// earliest candidate is kept — a deliberate choice where nothing else
    /// fixes the tie. The winner takes one point of damage, the entity's
    /// controller is alerted to the projectile's sender, and `Some(())`
    /// reports the hit.
    pub fn check_collisions_with_entity(
        &self,
        collider: &Rectangle,
        entity: &mut Entity,
        direction: Vec2,
    ) -> (r: Option<()>)
        requires
            proj_ok(*self),
            rect_ok(*collider),
            entity_ok(old(entity)@),
            direction == self.angle,
        ensures
            r is None ==> *final(entity) == *old(entity),
            r is Some <==> !spec_broad_miss(*collider, old(entity)@) && exists|loc: HitLoc|
                spec_loc_colliding(old(entity)@, *collider, loc),
            r is Some ==> exists|loc: HitLoc|
                spec_is_chosen(
                    old(entity)@,
                    *collider,
                    spec_rect_center(*collider),
                    self.angle,
                    loc,
                ) && final(entity)@ == spec_apply_hit(old(entity)@, loc, self.sender),
            entity_ok(final(entity)@),
    {
        let center: Vec2 = collider.center();
        let d2: i64 = crate::util::length_squared(center.vsub(entity.position));
        let rp: i64 = crate::fixed::isqrt(collider.radius_squared() as u64) as i64;
        proof {
            crate::util::lemma_sqrt_floor_unique(spec_radius_squared(*collider), rp as int);
            assert(rp <= 0xFFFF_FFFFi64);
        }
        let reach: i64 = rp + entity.radius;
        proof {
            assert(0 <= (reach as int) * (reach as int) <= 30_000_000_000_000_000_000)
                by (nonlinear_arith)
                requires
                    0 <= reach <= 5_000_000_000,
            ;
        }
        if (d2 as i128) > (reach as i128) * (reach as i128) {
            proof {
                assert(spec_broad_miss(*collider, entity@));
            }
            return None;
        }
        match self.find_hit_slot(collider, center, entity) {
            Some(loc) => {
                let ghost pre = entity@;
                proof {
                    assert(spec_loc_colliding(pre, *collider, loc));
                    assert(loc.is_center || (loc.ring < pre.rings.len() && loc.slot
                        < pre.rings[loc.ring as int].armor.len()));
                }
                if loc.is_center {
                    Armor::damage(&mut entity.center.armor, 1);
                } else {
                    proof {
                        crate::entity::lemma_rings_view_index(entity.rings@, loc.ring as int);
                    }
                    let ghost pre_rings = entity.rings@;
                    let mut ring: ArmorRing = entity.rings.remove(loc.ring);
                    ring.damage_slot(loc.slot, 1);
                    entity.rings.insert(loc.ring, ring);
                    proof {
                        lemma_rings_restored(pre_rings, entity.rings@, loc.ring as int);
                    }
                }
                match &mut entity.controller {
                    Some(c) => c.alert(self.sender),
                    None => {},
                }
                proof {
                    assert(final(entity)@ == spec_apply_hit(pre, loc, self.sender)) by {
                        assert(final(entity)@.rings =~= spec_apply_hit(
                            pre,
                            loc,
                            self.sender,
                        ).rings);
                    }
                    lemma_apply_hit_ok(pre, loc, self.sender);
                }
                Some(())
            },
            None => None,
        }
    }
}

/// The center of a rectangle, as `Rectangle::center` computes it.
pub open spec fn spec_rect_center(r: Rectangle) -> Vec2 {
    Vec2 {
        x: fx_tdiv(r.corners[0].x + r.corners[2].x, 2) as i64,
        y: fx_tdiv(r.corners[0].y + r.corners[2].y, 2) as i64,
    }
}

/// Removing a ring, damaging one of its slots and reinserting it updates
/// just that ring in the sequence of views.
proof fn lemma_rings_restored(pre: Seq<ArmorRing>, post: Seq<ArmorRing>, i: int)
    requires
        0 <= i < pre.len(),
        post.len() == pre.len(),
        post == pre.remove(i).insert(i, post[i]),
    ensures
        rings_view(post) == rings_view(pre).update(i, post[i]@),
{
    pre.remove_ensures(i);
    assert(rings_view(post) =~= rings_view(pre).update(i, post[i]@));
}

/// A hit preserves the entity invariant: the damaged slot stays valid or
/// empties, and the alert only grows the target list.
proof fn lemma_apply_hit_ok(e: EntityView, loc: HitLoc, sender: u64)
    requires
        entity_ok(e),
        loc.is_center || (loc.ring < e.rings.len() && loc.slot < e.rings[loc.ring as int].armor.len()),
    ensures
        entity_ok(spec_apply_hit(e, loc, sender)),
{
    let h = spec_apply_hit(e, loc, sender);
    assert forall|i: int| 0 <= i < h.rings.len() implies ring_ok(#[trigger] h.rings[i]) by {
        assert(ring_ok(e.rings[i]));
        if !loc.is_center && i == loc.ring as int && 0 <= loc.ring < e.rings.len() {
            let old_ring = e.rings[i];
            let new_ring = h.rings[i];
            assert forall|j: int| 0 <= j < new_ring.armor.len() implies ((
            #[trigger] new_ring.armor[j]) matches Some(a) ==> armor_ok(a)) by {
                assert(old_ring.armor[j] == new_ring.armor[j] || new_ring.armor[j]
                    == crate::components::spec_damaged(old_ring.armor[j], 1));
            }
        }
    }
}

} // verus!
