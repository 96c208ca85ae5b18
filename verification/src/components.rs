//! Destructible armor: single plates, the central hub, and rotating rings.

use vstd::prelude::*;

use crate::collision::{
    rect_ok, spec_from_dimensions, spec_vadd, spec_vscale, Rectangle,
};
use crate::fixed::{
    fx_add, fx_clamped, fx_mul, fx_ok, fx_tdiv, lemma_mul_magnitude, FX_ONE,
};
use crate::trig::{spec_cos, spec_sin, unit_from_angle, wrap_angle, FX_TAU};
use crate::util::{v_ok, Vec2};

verus! {

/// Largest admissible armor extent and ring radius, in raw steps.
pub const SIZE_MAX: i64 = 1_000_000;

/// Most armor slots a single ring may carry.
pub const RING_MAX_SLOTS: usize = 1024;

/// The hit-effect level set when a plate takes non-destroying damage:
/// three quarters of the `u16` range.
pub const HIT_EFFECT_ON_DAMAGE: u16 = 49149;

/// Smallest collider height a damaged plate keeps, in raw steps.
pub const MIN_PLATE_HEIGHT: i64 = 125;

/// One destructible armor plate.
///
/// `size.x` is the tangential extent (width), `size.y` the radial extent
/// (height). `hit_effect` is a cosmetic countdown that decays each tick.
#[derive(Clone, Copy, Debug)]
pub struct Armor {
    pub size: Vec2,
    pub health: u8,
    pub max_health: u8,
    pub hit_effect: u16,
}

/// Plate invariant: health is positive and within its maximum, and the
/// extents are admissible and nonnegative.
pub open spec fn armor_ok(a: Armor) -> bool {
    &&& 1 <= a.health <= a.max_health
    &&& 0 <= a.size.x <= SIZE_MAX
    &&& 0 <= a.size.y <= SIZE_MAX
}

/// The health-scaled collider height of a plate: its radial extent scaled by
/// the current health ratio, but never below `MIN_PLATE_HEIGHT`.
pub open spec fn spec_plate_height(a: Armor) -> int {
    let scaled = fx_clamped(
        fx_tdiv(fx_tdiv(a.health * (FX_ONE as int), a.max_health as int) * a.size.y, FX_ONE as int),
    );
    if scaled < MIN_PLATE_HEIGHT {
        MIN_PLATE_HEIGHT as int
    } else {
        scaled
    }
}

/// The hit-effect level after `dt` raw seconds of decay.
pub open spec fn spec_hit_effect_decayed(h: u16, dt: int) -> int {
    let dec = fx_tdiv(131070 * dt, FX_ONE as int);
    let dec16 = if dec > 65535 {
        65535int
    } else {
        dec
    };
    if h < dec16 {
        0
    } else {
        h - dec16
    }
}

/// The slot contents after `Armor::damage`: damage below the current health
/// saturating-subtracts and sets the hit flash; damage at or above it clears
/// the slot.
pub open spec fn spec_damaged(slot: Option<Armor>, damage: u8) -> Option<Armor> {
    match slot {
        None => None,
        Some(a) => {
            if a.health > damage {
                Some(
                    Armor {
                        size: a.size,
                        health: (a.health - damage) as u8,
                        max_health: a.max_health,
                        hit_effect: HIT_EFFECT_ON_DAMAGE,
                    },
                )
            } else {
                None
            }
        },
    }
}

impl Armor {
    /// A fresh plate at full health with no hit effect.
    pub fn from_size(size: Vec2, health: u8) -> (r: Armor)
        requires
            1 <= health,
            0 <= size.x <= SIZE_MAX,
            0 <= size.y <= SIZE_MAX,
        ensures
            r == (Armor { size, health, max_health: health, hit_effect: 0 }),
            armor_ok(r),
    {
        Armor { size, health, max_health: health, hit_effect: 0 }
    }

    /// Apply `damage` points to the plate behind `reference`.
    ///
    /// Damage below the current health saturating-subtracts and triggers the
    /// hit flash; damage at or above the current health destroys the plate,
    /// clearing the slot to `None` with no flash.
    pub fn damage(reference: &mut Option<Armor>, damage: u8)
        requires
            (*old(reference)) matches Some(a) ==> armor_ok(a),
        ensures
            *old(reference) is None ==> *final(reference) == *old(reference),
            *old(reference) is Some && (*old(reference))->Some_0.health > damage
                ==> *final(reference) == Some(
                Armor {
                    size: (*old(reference))->Some_0.size,
                    health: ((*old(reference))->Some_0.health - damage) as u8,
                    max_health: (*old(reference))->Some_0.max_health,
                    hit_effect: HIT_EFFECT_ON_DAMAGE,
                },
            ),
            *old(reference) is Some && (*old(reference))->Some_0.health <= damage
                ==> *final(reference) is None,
            (*final(reference)) matches Some(a) ==> armor_ok(a),
    {
        match *reference {
            Some(armor) => {
                if armor.health > damage {
                    *reference = Some(
                        Armor {
                            size: armor.size,
                            health: armor.health - damage,
                            max_health: armor.max_health,
                            hit_effect: HIT_EFFECT_ON_DAMAGE,
                        },
                    );
                } else {
                    *reference = None;
                }
            },
            None => {},
        }
    }

    /// The squared bounding radius of this plate when mounted on a ring of
    /// the given radius: `(size.y + radius)^2 + size.x^2 / 4`.
    pub fn get_radius_squared(&self, radius: i64) -> (r: i64)
        requires
            armor_ok(*self),
            0 <= radius <= SIZE_MAX,
        ensures
            r == (self.size.y + radius) * (self.size.y + radius) + fx_tdiv(
                self.size.x * self.size.x,
                4,
            ),
            0 <= r <= 5_000_000_000_000,
    {
        let height: i64 = self.size.y + radius;
        proof {
            lemma_mul_magnitude(height as int, height as int, 2_000_000, 2_000_000);
            lemma_mul_magnitude(self.size.x as int, self.size.x as int, 1_000_000, 1_000_000);
            assert(height * height >= 0) by (nonlinear_arith);
            assert(self.size.x * self.size.x >= 0) by (nonlinear_arith);
        }
        let h2: i64 = height * height;
        let w2: i64 = self.size.x * self.size.x;
        h2 + w2 / 4
    }

    /// Decay the cosmetic hit flash by `dt` raw seconds' worth of steps.
    pub fn update_hit_effect(&mut self, dt: i64)
        requires
            0 <= dt <= 1_000_000,
        ensures
            *final(self) == (Armor {
                size: old(self).size,
                health: old(self).health,
                max_health: old(self).max_health,
                hit_effect: spec_hit_effect_decayed(old(self).hit_effect, dt as int) as u16,
            }),
    {
        let dec: i64 = (131070 * dt) / FX_ONE;
        let dec16: u16 = if dec > 65535 {
            65535
        } else {
            dec as u16
        };
        self.hit_effect = if self.hit_effect < dec16 {
            0
        } else {
            self.hit_effect - dec16
        };
    }

    /// The current health as a fixed-point ratio of the maximum, in
    /// `[0, FX_ONE]`.
    pub fn get_health_ratio(&self) -> (r: i64)
        requires
            armor_ok(*self),
        ensures
            r == fx_tdiv(self.health * (FX_ONE as int), self.max_health as int),
            0 <= r <= FX_ONE,
    {
        proof {
            assert(self.health * 1000 / (self.max_health as int) <= 1000) by (nonlinear_arith)
                requires
                    1 <= self.health <= self.max_health,
            ;
        }
        ((self.health as u64) * 1000 / (self.max_health as u64)) as i64
    }

    /// Darken a packed `0xRRGGBB` color by the current hit flash: each
    /// channel is scaled by `(65535 - hit_effect) / 65535`.
    pub fn modify_color(&self, color: u32) -> (r: u32)
        ensures
            r == spec_modified_color(*self, color),
    {
        let m: u32 = 65535 - (self.hit_effect as u32);
        let red: u32 = (color / 65536) % 256;
        let green: u32 = (color / 256) % 256;
        let blue: u32 = color % 256;
        proof {
            assert(red * m <= 255 * 65535 && green * m <= 255 * 65535 && blue * m <= 255 * 65535)
                by (nonlinear_arith)
                requires
                    red < 256,
                    green < 256,
                    blue < 256,
                    m <= 65535,
            ;
            assert(red * m / 65535 <= 255 && green * m / 65535 <= 255 && blue * m / 65535 <= 255)
                by (nonlinear_arith)
                requires
                    red * m <= 255 * 65535,
                    green * m <= 255 * 65535,
                    blue * m <= 255 * 65535,
                    red * m >= 0,
                    green * m >= 0,
                    blue * m >= 0,
            ;
        }
        (red * m / 65535) * 65536 + (green * m / 65535) * 256 + blue * m / 65535
    }
}

/// The darkened color produced by `Armor::modify_color`.
pub open spec fn spec_modified_color(a: Armor, color: u32) -> int {
    let m = 65535 - a.hit_effect;
    let red = (color / 65536) % 256;
    let green = (color / 256) % 256;
    let blue = color % 256;
    (red * m / 65535) * 65536 + (green * m / 65535) * 256 + blue * m / 65535
}

/// The entity's core: one plate that, once destroyed, kills the entity.
#[derive(Clone, Copy, Debug)]
pub struct Center {
    pub armor: Option<Armor>,
    pub angle: i64,
    pub speed: i64,
}

/// Core invariant: the angle is wrapped, the angular speed admissible, and
/// the plate (while present) valid.
pub open spec fn center_ok(c: Center) -> bool {
    &&& 0 <= c.angle < FX_TAU
    &&& fx_ok(c.speed as int)
    &&& c.armor matches Some(a) ==> armor_ok(a)
}

/// The wrapped angle advanced by `speed * dt`.
pub open spec fn spec_advanced_angle(angle: int, speed: int, dt: int) -> int {
    fx_clamped(angle + fx_clamped(fx_tdiv(speed * dt, FX_ONE as int))) % (FX_TAU as int)
}

impl Center {
    /// A fresh core at angle zero.
    pub fn from_size(size: Vec2, health: u8, speed: i64) -> (r: Center)
        requires
            1 <= health,
            0 <= size.x <= SIZE_MAX,
            0 <= size.y <= SIZE_MAX,
            fx_ok(speed as int),
        ensures
            r == (Center {
                armor: Some(Armor { size, health, max_health: health, hit_effect: 0 }),
                angle: 0,
                speed,
            }),
            center_ok(r),
    {
        Center { armor: Some(Armor::from_size(size, health)), angle: 0, speed }
    }

    /// Advance the rotation by one tick and decay the hit flash.
    pub fn update(&mut self, dt: i64)
        requires
            center_ok(*old(self)),
            0 <= dt <= 1_000_000,
        ensures
            center_ok(*final(self)),
            final(self).angle == spec_advanced_angle(
                old(self).angle as int,
                old(self).speed as int,
                dt as int,
            ),
            final(self).speed == old(self).speed,
            old(self).armor is None ==> final(self).armor is None,
            (old(self).armor) matches Some(a) ==> final(self).armor == Some(
                Armor {
                    size: a.size,
                    health: a.health,
                    max_health: a.max_health,
                    hit_effect: spec_hit_effect_decayed(a.hit_effect, dt as int) as u16,
                },
            ),
    {
        self.angle = wrap_angle(fx_add(self.angle, fx_mul(self.speed, dt)));
        match &mut self.armor {
            Some(armor) => {
                armor.update_hit_effect(dt);
            },
            None => {},
        }
    }

    /// The squared bounding radius of the core plate.
    pub fn get_radius_squared(&self) -> (r: i64)
        requires
            center_ok(*self),
            self.armor is Some,
        ensures
            r == spec_center_radius_squared(*self),
            0 <= r <= 5_000_000_000_000,
    {
        let armor: &Armor = match &self.armor {
            Some(a) => a,
            None => unreached(),
        };
        proof {
            lemma_mul_magnitude(armor.size.x as int, armor.size.x as int, 1_000_000, 1_000_000);
            lemma_mul_magnitude(armor.size.y as int, armor.size.y as int, 1_000_000, 1_000_000);
            assert(armor.size.x * armor.size.x >= 0 && armor.size.y * armor.size.y >= 0)
                by (nonlinear_arith);
        }
        let x2: i64 = armor.size.x * armor.size.x;
        let y2: i64 = armor.size.y * armor.size.y;
        (x2 + y2) / 4
    }

    /// The core's collider: its plate centered on `position`, rotated to the
    /// core's angle.
    pub fn get_collider(&self, position: Vec2) -> (r: Rectangle)
        requires
            center_ok(*self),
            self.armor is Some,
            v_ok(position),
        ensures
            rect_ok(r),
            r == spec_center_collider(*self, position),
    {
        let armor: &Armor = match &self.armor {
            Some(a) => a,
            None => unreached(),
        };
        Rectangle::from_dimensions(
            position,
            armor.size,
            Vec2 { x: 500, y: 500 },
            unit_from_angle(self.angle),
        )
    }
}

/// The squared bounding radius of the core plate:
/// `(size.x^2 + size.y^2) / 4`.
pub open spec fn spec_center_radius_squared(c: Center) -> int {
    let a = c.armor->Some_0;
    (a.size.x * a.size.x + a.size.y * a.size.y) / 4
}

/// The collider rectangle of the core.
pub open spec fn spec_center_collider(c: Center, position: Vec2) -> Rectangle {
    let a = c.armor->Some_0;
    spec_from_dimensions(
        position,
        a.size,
        Vec2 { x: 500, y: 500 },
        Vec2 { x: spec_cos(c.angle as int) as i64, y: spec_sin(c.angle as int) as i64 },
    )
}

/// A ring of plates spaced evenly around the parent at a fixed radius,
/// sharing one rotation angle and angular speed. A destroyed plate leaves a
/// permanent gap (`None`).
#[derive(Debug)]
pub struct ArmorRing {
    pub armor: Vec<Option<Armor>>,
    pub radius: i64,
    pub angle: i64,
    pub speed: i64,
}

/// The mathematical value of an `ArmorRing`: its slots as a sequence, and
/// its scalar fields.
pub ghost struct RingView {
    pub armor: Seq<Option<Armor>>,
    pub radius: i64,
    pub angle: i64,
    pub speed: i64,
}

impl View for ArmorRing {
    type V = RingView;

    open spec fn view(&self) -> RingView {
        RingView { armor: self.armor@, radius: self.radius, angle: self.angle, speed: self.speed }
    }
}

/// Ring invariant: at least one slot, a bounded slot count and radius, a
/// wrapped angle, and valid plates in every occupied slot.
pub open spec fn ring_ok(r: RingView) -> bool {
    &&& 1 <= r.armor.len() <= RING_MAX_SLOTS
    &&& 0 <= r.radius <= SIZE_MAX
    &&& 0 <= r.angle < FX_TAU
    &&& fx_ok(r.speed as int)
    &&& forall|i: int|
        0 <= i < r.armor.len() ==> ((#[trigger] r.armor[i]) matches Some(a) ==> armor_ok(a))
}

/// The angular spacing between adjacent slots: a full turn over the count.
pub open spec fn spec_ring_increment(r: RingView) -> int {
    (FX_TAU as int) / (r.armor.len() as int)
}

/// The wrapped angle at which slot `i` currently sits.
pub open spec fn spec_slot_angle(r: RingView, i: int) -> int {
    fx_clamped(r.angle + spec_ring_increment(r) * i) % (FX_TAU as int)
}

/// The collider of slot `i`: `None` for a destroyed slot, otherwise the
/// plate's rectangle sitting on the ring circle, extending outward, with the
/// health-scaled height as its first extent.
pub open spec fn spec_ring_collider(r: RingView, position: Vec2, i: int) -> Option<Rectangle> {
    match r.armor[i] {
        Some(a) => {
            let angle = spec_slot_angle(r, i);
            let rot = Vec2 { x: spec_cos(angle) as i64, y: spec_sin(angle) as i64 };
            Some(
                spec_from_dimensions(
                    spec_vadd(position, spec_vscale(rot, r.radius as int)),
                    Vec2 { x: spec_plate_height(a) as i64, y: a.size.x },
                    Vec2 { x: 0, y: 500 },
                    rot,
                ),
            )
        },
        None => None,
    }
}

/// The squared bounding radius of the plate in slot `i` of `r`.
pub open spec fn spec_slot_radius_squared(r: RingView, i: int) -> int {
    let a = r.armor[i]->Some_0;
    (a.size.y + r.radius) * (a.size.y + r.radius) + fx_tdiv(a.size.x * a.size.x, 4)
}

/// The largest squared bounding radius over the surviving plates among the
/// first `n` slots, `None` if they are all destroyed. Later equal maxima do
/// not replace earlier ones.
pub open spec fn spec_ring_max_r2_upto(r: RingView, n: int) -> Option<int>
    decreases n,
{
    if n <= 0 {
        None
    } else {
        let rest = spec_ring_max_r2_upto(r, n - 1);
        match r.armor[n - 1] {
            Some(_) => {
                let v = spec_slot_radius_squared(r, n - 1);
                match rest {
                    Some(m) => if v > m {
                        Some(v)
                    } else {
                        Some(m)
                    },
                    None => Some(v),
                }
            },
            None => rest,
        }
    }
}

/// The largest squared bounding radius over all surviving plates.
pub open spec fn spec_ring_full_radius_sq(r: RingView) -> Option<int> {
    spec_ring_max_r2_upto(r, r.armor.len() as int)
}

/// A ring after one tick of rotation and flash decay.
pub open spec fn spec_ring_advanced(r: RingView, dt: int) -> RingView {
    RingView {
        armor: Seq::new(
            r.armor.len(),
            |i: int|
                match r.armor[i] {
                    Some(a) => Some(
                        Armor {
                            size: a.size,
                            health: a.health,
                            max_health: a.max_health,
                            hit_effect: spec_hit_effect_decayed(a.hit_effect, dt) as u16,
                        },
                    ),
                    None => None,
                },
        ),
        radius: r.radius,
        angle: spec_advanced_angle(r.angle as int, r.speed as int, dt) as i64,
        speed: r.speed,
    }
}

/// A core after one tick of rotation and flash decay.
pub open spec fn spec_center_advanced(c: Center, dt: int) -> Center {
    Center {
        armor: match c.armor {
            Some(a) => Some(
                Armor {
                    size: a.size,
                    health: a.health,
                    max_health: a.max_health,
                    hit_effect: spec_hit_effect_decayed(a.hit_effect, dt) as u16,
                },
            ),
            None => None,
        },
        angle: spec_advanced_angle(c.angle as int, c.speed as int, dt) as i64,
        speed: c.speed,
    }
}

impl ArmorRing {
    /// A fresh ring of `count` identical plates at angle zero.
    pub fn from_size(size: Vec2, health: u8, count: usize, radius: i64, speed: i64) -> (r:
        ArmorRing)
        requires
            1 <= health,
            0 <= size.x <= SIZE_MAX,
            0 <= size.y <= SIZE_MAX,
            1 <= count <= RING_MAX_SLOTS,
            0 <= radius <= SIZE_MAX,
            fx_ok(speed as int),
        ensures
            ring_ok(r@),
            r.armor@.len() == count,
            forall|i: int|
                0 <= i < count ==> r.armor@[i] == Some(
                    Armor { size, health, max_health: health, hit_effect: 0 },
                ),
            r.radius == radius,
            r.angle == 0,
            r.speed == speed,
    {
        let mut armor: Vec<Option<Armor>> = Vec::new();
        let mut j: usize = 0;
        while j < count
            invariant
                j <= count,
                armor@.len() == j,
                1 <= health,
                0 <= size.x <= SIZE_MAX,
                0 <= size.y <= SIZE_MAX,
                forall|i: int|
                    0 <= i < j ==> armor@[i] == Some(
                        Armor { size, health, max_health: health, hit_effect: 0 },
                    ),
            decreases count - j,
        {
            armor.push(Some(Armor::from_size(size, health)));
            j += 1;
        }
        ArmorRing { armor, radius, angle: 0, speed }
    }

    /// Advance the ring's rotation and decay every surviving plate's flash.
    pub fn update(&mut self, dt: i64)
        requires
            ring_ok(old(self)@),
            0 <= dt <= 1_000_000,
        ensures
            ring_ok(final(self)@),
            final(self).angle == spec_advanced_angle(
                old(self).angle as int,
                old(self).speed as int,
                dt as int,
            ),
            final(self).speed == old(self).speed,
            final(self).radius == old(self).radius,
            final(self).armor@.len() == old(self).armor@.len(),
            forall|i: int|
                0 <= i < old(self).armor@.len() ==> #[trigger] final(self).armor@[i] == match old(
                    self,
                ).armor@[i] {
                    Some(a) => Some(
                        Armor {
                            size: a.size,
                            health: a.health,
                            max_health: a.max_health,
                            hit_effect: spec_hit_effect_decayed(a.hit_effect, dt as int) as u16,
                        },
                    ),
                    None => None,
                },
    {
        self.angle = wrap_angle(fx_add(self.angle, fx_mul(self.speed, dt)));
        let n: usize = self.armor.len();
        let mut j: usize = 0;
        while j < n
            invariant
                j <= n,
                n == self.armor@.len(),
                n == old(self).armor@.len(),
                0 <= dt <= 1_000_000,
                ring_ok(old(self)@),
                self.angle == spec_advanced_angle(
                    old(self).angle as int,
                    old(self).speed as int,
                    dt as int,
                ),
                0 <= self.angle < FX_TAU,
                self.speed == old(self).speed,
                self.radius == old(self).radius,
                forall|i: int|
                    j <= i < n ==> #[trigger] self.armor@[i] == old(self).armor@[i],
                forall|i: int|
                    0 <= i < j ==> #[trigger] self.armor@[i] == match old(self).armor@[i] {
                        Some(a) => Some(
                            Armor {
                                size: a.size,
                                health: a.health,
                                max_health: a.max_health,
                                hit_effect: spec_hit_effect_decayed(a.hit_effect, dt as int) as u16,
                            },
                        ),
                        None => None,
                    },
            decreases n - j,
        {
            match self.armor[j] {
                Some(mut a) => {
                    a.update_hit_effect(dt);
                    self.armor.set(j, Some(a));
                },
                None => {},
            }
            j += 1;
        }
    }

    /// The largest squared bounding radius over all surviving plates, or
    /// `None` if every slot is destroyed (the ring should then be pruned).
    pub fn get_full_radius_squared(&self) -> (r: Option<i64>)
        requires
            ring_ok(self@),
        ensures
            r is Some <==> spec_ring_full_radius_sq(self@) is Some,
            r matches Some(m) ==> spec_ring_full_radius_sq(self@) == Some(m as int),
            r matches Some(m) ==> 0 <= m <= 5_000_000_000_000,
    {
        let mut best: Option<i64> = None;
        let n: usize = self.armor.len();
        let mut j: usize = 0;
        while j < n
            invariant
                j <= n,
                n == self@.armor.len(),
                ring_ok(self@),
                best is Some <==> spec_ring_max_r2_upto(self@, j as int) is Some,
                best matches Some(m) ==> spec_ring_max_r2_upto(self@, j as int) == Some(m as int),
                best matches Some(m) ==> 0 <= m <= 5_000_000_000_000,
            decreases n - j,
        {
            match self.armor[j] {
                Some(a) => {
                    let r2: i64 = a.get_radius_squared(self.radius);
                    proof {
                        assert(r2 == spec_slot_radius_squared(self@, j as int));
                    }
                    match best {
                        Some(m) => {
                            if r2 > m {
                                best = Some(r2);
                            }
                        },
                        None => {
                            best = Some(r2);
                        },
                    }
                },
                None => {},
            }
            j += 1;
        }
        best
    }

    /// Apply damage to the plate in one slot, as `Armor::damage` does.
    pub fn damage_slot(&mut self, idx: usize, amount: u8)
        requires
            ring_ok(old(self)@),
            idx < old(self)@.armor.len(),
        ensures
            final(self)@.armor == old(self)@.armor.update(
                idx as int,
                spec_damaged(old(self)@.armor[idx as int], amount),
            ),
            final(self)@.radius == old(self)@.radius,
            final(self)@.angle == old(self)@.angle,
            final(self)@.speed == old(self)@.speed,
            ring_ok(final(self)@),
    {
        let mut slot: Option<Armor> = self.armor[idx];
        Armor::damage(&mut slot, amount);
        self.armor.set(idx, slot);
        proof {
            assert(self.armor@ =~= old(self)@.armor.update(
                idx as int,
                spec_damaged(old(self)@.armor[idx as int], amount),
            ));
        }
    }

    /// An exact copy of this ring.
    pub fn duplicate(&self) -> (r: ArmorRing)
        ensures
            r@ == self@,
    {
        let mut armor: Vec<Option<Armor>> = Vec::new();
        let n: usize = self.armor.len();
        let mut j: usize = 0;
        while j < n
            invariant
                j <= n,
                n == self.armor@.len(),
                armor@ == self.armor@.take(j as int),
            decreases n - j,
        {
            armor.push(self.armor[j]);
            proof {
                assert(armor@ =~= self.armor@.take(j + 1));
            }
            j += 1;
        }
        proof {
            assert(armor@ =~= self.armor@);
        }
        ArmorRing { armor, radius: self.radius, angle: self.angle, speed: self.speed }
    }

    /// The angular spacing between adjacent slots.
    pub fn get_increment(&self) -> (r: i64)
        requires
            ring_ok(self@),
        ensures
            r == spec_ring_increment(self@),
            0 <= r <= FX_TAU,
    {
        let n: u64 = self.armor.len() as u64;
        ((FX_TAU as u64) / n) as i64
    }

    /// One collider per slot, `None` where the slot is destroyed.
    pub fn get_colliders(&self, position: Vec2) -> (r: Vec<Option<Rectangle>>)
        requires
            ring_ok(self@),
            v_ok(position),
        ensures
            r@.len() == self.armor@.len(),
            forall|i: int|
                0 <= i < r@.len() ==> #[trigger] r@[i] == spec_ring_collider(self@, position, i),
            forall|i: int|
                0 <= i < r@.len() ==> ((#[trigger] r@[i]) matches Some(rect) ==> rect_ok(rect)),
    {
        let increment: i64 = self.get_increment();
        let n: usize = self.armor.len();
        let mut out: Vec<Option<Rectangle>> = Vec::new();
        let mut j: usize = 0;
        while j < n
            invariant
                j <= n,
                n == self.armor@.len(),
                ring_ok(self@),
                v_ok(position),
                increment == spec_ring_increment(self@),
                0 <= increment <= FX_TAU,
                out@.len() == j,
                forall|i: int|
                    0 <= i < j ==> #[trigger] out@[i] == spec_ring_collider(self@, position, i),
                forall|i: int|
                    0 <= i < j ==> ((#[trigger] out@[i]) matches Some(rect) ==> rect_ok(rect)),
            decreases n - j,
        {
            match self.armor[j] {
                Some(a) => {
                    proof {
                        lemma_mul_magnitude(increment as int, j as int, FX_TAU as int, 1024);
                    }
                    let slot_angle: i64 = wrap_angle(fx_add(self.angle, increment * (j as i64)));
                    let rot: Vec2 = unit_from_angle(slot_angle);
                    let ratio: i64 = a.get_health_ratio();
                    let scaled: i64 = fx_mul(ratio, a.size.y);
                    let height: i64 = if scaled < MIN_PLATE_HEIGHT {
                        MIN_PLATE_HEIGHT
                    } else {
                        scaled
                    };
                    let rect: Rectangle = Rectangle::from_dimensions(
                        position.vadd(rot.vscale(self.radius)),
                        Vec2 { x: height, y: a.size.x },
                        Vec2 { x: 0, y: 500 },
                        rot,
                    );
                    out.push(Some(rect));
                },
                None => {
                    out.push(None);
                },
            }
            j += 1;
        }
        out
    }
}

} // verus!
