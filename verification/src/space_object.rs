//! The entity model: one `SpaceObject` per simulated body, together with
//! the pairwise physics the controller applies to them — gravity, Euler
//! integration, circle-overlap collision bookkeeping, and the per-tick
//! input step of a ship.

use vstd::prelude::*;
use crate::fx::{
    SCALE, GRAVITY, LIN_ACCEL, ROT_ACCEL, COOLDOWN_MAX, COOLDOWN_DECAY, MUZZLE_SPEED, SHIP_MASS,
    SHIP_SIZE, SHIP_SURVIVABILITY, PROJECTILE_MASS, PROJECTILE_SIZE, COORD_BOUND, MASS_BOUND,
    FORCE_BOUND, V2, absi, clip, sdiv, in_coord_v2, in_force, lemma_mul_le,
    lemma_sdiv_bound, clip_i64, sat_add_coord, scale_div_clip,
};
use crate::sqrt::{sqrt_floor, lemma_sqrt_floor_props, isqrt_u128};
use crate::trig::{
    TAU_FX, sin_fx, cos_fx, wrap_angle, sine, cosine, wrap_add_angle, wrap_sub_angle,
};

verus! {

/// Control signals a ship reads from its input channel each tick.
#[derive(Clone, Copy, Debug, PartialEq, Eq, Structural)]
pub struct ControlState {
    pub accelerate: bool,
    pub turn_left: bool,
    pub turn_right: bool,
    pub fire: bool,
}

impl ControlState {
    /// The neutral signal: nothing held.
    pub fn idle() -> (r: ControlState)
        ensures
            r == (ControlState { accelerate: false, turn_left: false, turn_right: false, fire: false }),
    {
        ControlState { accelerate: false, turn_left: false, turn_right: false, fire: false }
    }
}

/// Opaque render-asset handles; the engine stores and forwards them
/// without interpreting their contents.
#[derive(Clone, Copy, Debug, PartialEq, Eq, Structural)]
pub struct SpriteSet {
    pub ship_idle: u64,
    pub ship_thrust: u64,
    pub projectile: u64,
    pub sun: u64,
}

/// Mutable control state carried only by ships.
#[derive(Clone, Copy, Debug, PartialEq, Eq, Structural)]
pub struct ShipState {
    /// Remaining weapon cooldown, kept in `[0, COOLDOWN_MAX]`.
    pub shot_cooldown: i64,
    /// Index of the input channel whose signals steer this ship.
    pub channel: usize,
}

/// What kind of body an entity is.
#[derive(Clone, Copy, Debug, PartialEq, Eq, Structural)]
pub enum Role {
    CelestialBody,
    Ship(ShipState),
    Projectile,
}

/// One physical body in the simulation.
#[derive(Clone, Copy, Debug)]
pub struct SpaceObject {
    /// Center of the object, world coordinates.
    pub position: V2,
    /// Velocity in world units per tick.
    pub velocity: V2,
    /// Angle the object faces, fixed-point radians in `[0, TAU_FX)`.
    pub orientation: i64,
    /// Positive gravitational (and inertial) mass.
    pub mass: i64,
    /// Positive diameter, used for rendering scale and collision.
    pub size: i64,
    /// Opaque render handle.
    pub sprite: u64,
    /// Celestial body, ship, or projectile.
    pub role: Role,
    /// Collisions left before removal; `None` is indestructible.
    pub survivability: Option<u8>,
}

impl SpaceObject {
    /// Well-formedness: every live entity keeps its scalars in the
    /// fixed-point ranges and its cooldown clamped.
    pub open spec fn wf(self) -> bool {
        &&& in_coord_v2(self.position)
        &&& in_coord_v2(self.velocity)
        &&& 0 <= self.orientation < TAU_FX
        &&& 0 < self.mass <= MASS_BOUND
        &&& 0 < self.size <= MASS_BOUND
        &&& (self.role matches Role::Ship(s) ==> 0 <= s.shot_cooldown <= COOLDOWN_MAX)
    }

    /// Whether the role is `Ship`.
    pub open spec fn is_ship_spec(self) -> bool {
        self.role is Ship
    }

    /// Whether this entity can still survive collisions.
    pub open spec fn collisions_left_spec(self) -> bool {
        match self.survivability {
            Some(c) => c > 0,
            None => true,
        }
    }

    /// Builds a ship: unit mass, diameter 16, facing the x-axis, weapon
    /// ready, surviving `SHIP_SURVIVABILITY` collisions.
    pub fn ship(position: V2, velocity: V2, sprite: u64, channel: usize) -> (r: SpaceObject)
        requires
            in_coord_v2(position),
            in_coord_v2(velocity),
        ensures
            r == (SpaceObject {
                position,
                velocity,
                orientation: 0,
                mass: SHIP_MASS,
                size: SHIP_SIZE,
                sprite,
                role: Role::Ship(ShipState { shot_cooldown: 0, channel }),
                survivability: Some(SHIP_SURVIVABILITY),
            }),
            r.wf(),
    {
        SpaceObject {
            position,
            velocity,
            orientation: 0,
            mass: SHIP_MASS,
            size: SHIP_SIZE,
            sprite,
            role: Role::Ship(ShipState { shot_cooldown: 0, channel }),
            survivability: Some(SHIP_SURVIVABILITY),
        }
    }

    /// Builds a celestial body: non-controllable and indestructible.
    pub fn body(position: V2, velocity: V2, mass: i64, size: i64, sprite: u64) -> (r: SpaceObject)
        requires
            in_coord_v2(position),
            in_coord_v2(velocity),
            0 < mass <= MASS_BOUND,
            0 < size <= MASS_BOUND,
        ensures
            r == (SpaceObject {
                position,
                velocity,
                orientation: 0,
                mass,
                size,
                sprite,
                role: Role::CelestialBody,
                survivability: None::<u8>,
            }),
            r.wf(),
    {
        SpaceObject {
            position,
            velocity,
            orientation: 0,
            mass,
            size,
            sprite,
            role: Role::CelestialBody,
            survivability: None,
        }
    }

    /// Whether this object is a ship.
    pub fn is_ship(&self) -> (r: bool)
        ensures
            r == self.is_ship_spec(),
    {
        match self.role {
            Role::Ship(_) => true,
            _ => false,
        }
    }

    /// The object's position vector.
    pub fn get_position(&self) -> (r: V2)
        ensures
            r == self.position,
    {
        self.position
    }

    /// The object's velocity vector.
    pub fn get_velocity(&self) -> (r: V2)
        ensures
            r == self.velocity,
    {
        self.velocity
    }

    /// The object's mass.
    pub fn get_mass(&self) -> (r: i64)
        ensures
            r == self.mass,
    {
        self.mass
    }

    /// Whether this entity can still survive collisions: true when the
    /// counter is absent (indestructible) or still positive.
    pub fn collisions_left(&self) -> (r: bool)
        ensures
            r == self.collisions_left_spec(),
    {
        match self.survivability {
            Some(c) => c > 0,
            None => true,
        }
    }
}

/// Squared center-to-center distance of two entities.
pub open spec fn dist2(o: SpaceObject, a: SpaceObject) -> int {
    let dx = a.position.x - o.position.x;
    let dy = a.position.y - o.position.y;
    dx * dx + dy * dy
}

/// One signed component of an inverse-square pull: magnitude
/// `gmm * |d| / r^3` truncated and saturated at `FORCE_BOUND`, carrying
/// the sign of the center offset `d`.
pub open spec fn force_component(gmm: int, d: int, r: int) -> int
    recommends
        r > 0,
        gmm >= 0,
{
    let mag = clip(gmm * absi(d) / (r * r * r), FORCE_BOUND as int);
    if d < 0 {
        -mag
    } else {
        mag
    }
}

/// The gravitational force `att` exerts on `obj`: an inverse-square pull
/// toward `att`, zero when the centers coincide (which also guards the
/// division and keeps an entity from attracting itself).
pub open spec fn force_between(obj: SpaceObject, att: SpaceObject) -> (int, int) {
    let dx = att.position.x - obj.position.x;
    let dy = att.position.y - obj.position.y;
    let d2 = dist2(obj, att);
    if d2 == 0 {
        (0int, 0int)
    } else {
        let r = sqrt_floor(d2 as nat) as int;
        let gmm = GRAVITY * obj.mass * att.mass;
        (force_component(gmm, dx, r), force_component(gmm, dy, r))
    }
}

/// Computes the gravitational force `att` exerts on `obj`.
pub fn gravity_between(obj: &SpaceObject, att: &SpaceObject) -> (f: V2)
    requires
        obj.wf(),
        att.wf(),
    ensures
        (f.x as int, f.y as int) == force_between(*obj, *att),
        in_force(f.x as int),
        in_force(f.y as int),
{
    let dx: i64 = att.position.x - obj.position.x;
    let dy: i64 = att.position.y - obj.position.y;
    let adx: u64 = (if dx < 0 {
        -dx
    } else {
        dx
    }) as u64;
    let ady: u64 = (if dy < 0 {
        -dy
    } else {
        dy
    }) as u64;
    proof {
        lemma_mul_le(adx as int, adx as int, 4_000_000_000, 4_000_000_000);
        lemma_mul_le(ady as int, ady as int, 4_000_000_000, 4_000_000_000);
        assert(dx * dx == adx * adx) by (nonlinear_arith)
            requires
                adx == absi(dx as int),
        ;
        assert(dy * dy == ady * ady) by (nonlinear_arith)
            requires
                ady == absi(dy as int),
        ;
    }
    let d2: u128 = (adx as u128) * (adx as u128) + (ady as u128) * (ady as u128);
    if d2 == 0 {
        assert(dist2(*obj, *att) == 0);
        return V2 { x: 0, y: 0 };
    }
    let r: u64 = isqrt_u128(d2);
    proof {
        lemma_sqrt_floor_props(d2 as nat);
        assert(r as int >= 1) by (nonlinear_arith)
            requires
                d2 as int >= 1,
                (d2 as int) < ((r as int) + 1) * ((r as int) + 1),
        ;
        assert(r as int <= 5_700_000_000) by (nonlinear_arith)
            requires
                (r as int) * (r as int) <= 32_000_000_000_000_000_000,
        ;
        lemma_mul_le(GRAVITY as int, obj.mass as int, 100_000, 500_000_000_000);
        lemma_mul_le(
            GRAVITY as int * obj.mass as int,
            att.mass as int,
            50_000_000_000_000_000,
            500_000_000_000,
        );
        lemma_mul_le(r as int, r as int, 5_700_000_000, 5_700_000_000);
        lemma_mul_le(
            (r as int) * (r as int),
            r as int,
            32_490_000_000_000_000_000,
            5_700_000_000,
        );
    }
    let gmm: u128 = (GRAVITY as u128) * (obj.mass as u128) * (att.mass as u128);
    let r3: u128 = (r as u128) * (r as u128) * (r as u128);
    proof {
        assert((r as int) * (r as int) * (r as int) >= 1) by (nonlinear_arith)
            requires
                r as int >= 1,
        ;
        lemma_mul_le(
            gmm as int,
            adx as int,
            25_000_000_000_000_000_000_000_000_000,
            4_000_000_000,
        );
        lemma_mul_le(
            gmm as int,
            ady as int,
            25_000_000_000_000_000_000_000_000_000,
            4_000_000_000,
        );
    }
    let mag_x: u128 = gmm * (adx as u128) / r3;
    let mag_y: u128 = gmm * (ady as u128) / r3;
    let fx_mag: i64 = if mag_x > (FORCE_BOUND as u128) {
        FORCE_BOUND
    } else {
        mag_x as i64
    };
    let fy_mag: i64 = if mag_y > (FORCE_BOUND as u128) {
        FORCE_BOUND
    } else {
        mag_y as i64
    };
    V2 {
        x: if dx < 0 {
            -fx_mag
        } else {
            fx_mag
        },
        y: if dy < 0 {
            -fy_mag
        } else {
            fy_mag
        },
    }
}

/// Saturated velocity change from applying force component `f` to mass
/// `m` for one tick.
pub open spec fn accel_delta(f: int, m: int) -> int
    recommends
        m > 0,
{
    clip(sdiv(f * SCALE, m), COORD_BOUND as int)
}

/// An entity after one Euler step: the velocity absorbs `force / mass`
/// if a force is given, then the position absorbs the velocity; both
/// saturate at the coordinate bound.
pub open spec fn moved(o: SpaceObject, force: Option<V2>) -> SpaceObject {
    let v = match force {
        Some(f) => V2 {
            x: clip(o.velocity.x + accel_delta(f.x as int, o.mass as int), COORD_BOUND as int) as i64,
            y: clip(o.velocity.y + accel_delta(f.y as int, o.mass as int), COORD_BOUND as int) as i64,
        },
        None => o.velocity,
    };
    SpaceObject {
        position: V2 {
            x: clip(o.position.x + v.x, COORD_BOUND as int) as i64,
            y: clip(o.position.y + v.y, COORD_BOUND as int) as i64,
        },
        velocity: v,
        ..o
    }
}

impl SpaceObject {
    /// Moves the object by its velocity; if a force is passed, the
    /// velocity is first accelerated by `force / mass`.
    pub fn perform_movement(&mut self, force: Option<V2>)
        requires
            old(self).wf(),
            force matches Some(f) ==> in_force(f.x as int) && in_force(f.y as int),
        ensures
            *final(self) == moved(*old(self), force),
            final(self).wf(),
    {
        match force {
            Some(f) => {
                let dvx: i64 = scale_div_clip(f.x, SCALE, self.mass, COORD_BOUND);
                let dvy: i64 = scale_div_clip(f.y, SCALE, self.mass, COORD_BOUND);
                let vx: i64 = sat_add_coord(self.velocity.x, dvx);
                let vy: i64 = sat_add_coord(self.velocity.y, dvy);
                self.velocity = V2 { x: vx, y: vy };
            },
            None => {},
        }
        let px: i64 = sat_add_coord(self.position.x, self.velocity.x);
        let py: i64 = sat_add_coord(self.position.y, self.velocity.y);
        self.position = V2 { x: px, y: py };
    }
}

/// Circle-overlap test: twice the center distance is under the sum of the
/// diameters, compared exactly on squares.
pub open spec fn overlap(a: SpaceObject, b: SpaceObject) -> bool {
    4 * dist2(a, b) < (a.size + b.size) * (a.size + b.size)
}

/// Tests whether two entities' circles overlap.
pub fn overlaps(a: &SpaceObject, b: &SpaceObject) -> (r: bool)
    requires
        a.wf(),
        b.wf(),
    ensures
        r == overlap(*a, *b),
{
    let dx: i64 = b.position.x - a.position.x;
    let dy: i64 = b.position.y - a.position.y;
    let adx: u64 = (if dx < 0 {
        -dx
    } else {
        dx
    }) as u64;
    let ady: u64 = (if dy < 0 {
        -dy
    } else {
        dy
    }) as u64;
    proof {
        lemma_mul_le(adx as int, adx as int, 4_000_000_000, 4_000_000_000);
        lemma_mul_le(ady as int, ady as int, 4_000_000_000, 4_000_000_000);
        assert(dx * dx == adx * adx) by (nonlinear_arith)
            requires
                adx == absi(dx as int),
        ;
        assert(dy * dy == ady * ady) by (nonlinear_arith)
            requires
                ady == absi(dy as int),
        ;
        lemma_mul_le(
            a.size + b.size,
            a.size + b.size,
            1_000_000_000_000,
            1_000_000_000_000,
        );
    }
    let d2: u128 = (adx as u128) * (adx as u128) + (ady as u128) * (ady as u128);
    let s: u128 = (a.size + b.size) as u128;
    4 * d2 < s * s
}

/// An entity after absorbing `n` collisions in one tick: a present
/// counter decrements toward zero and stops there; `None` never changes.
pub open spec fn drained(o: SpaceObject, n: nat) -> SpaceObject {
    SpaceObject {
        survivability: match o.survivability {
            Some(c) => Some(if c > n {
                (c - n) as u8
            } else {
                0u8
            }),
            None => None::<u8>,
        },
        ..o
    }
}

impl SpaceObject {
    /// Registers a collision between this object and another: if their
    /// circles overlap, each survivability counter that is present is
    /// reduced by one (floored at zero); otherwise both are untouched.
    pub fn collide(&mut self, other: &mut SpaceObject)
        requires
            old(self).wf(),
            old(other).wf(),
        ensures
            overlap(*old(self), *old(other)) ==> *final(self) == drained(*old(self), 1)
                && *final(other) == drained(*old(other), 1),
            !overlap(*old(self), *old(other)) ==> *final(self) == *old(self) && *final(other)
                == *old(other),
            final(self).wf(),
            final(other).wf(),
    {
        let a: SpaceObject = *self;
        let b: SpaceObject = *other;
        if overlaps(&a, &b) {
            match self.survivability {
                Some(c) => {
                    self.survivability = Some(if c > 0 {
                        c - 1
                    } else {
                        0
                    });
                },
                None => {},
            }
            match other.survivability {
                Some(c) => {
                    other.survivability = Some(if c > 0 {
                        c - 1
                    } else {
                        0
                    });
                },
                None => {},
            }
        }
    }
}

/// The cooldown of a ship, zero for anything else.
pub open spec fn cooldown_of(o: SpaceObject) -> int {
    match o.role {
        Role::Ship(s) => s.shot_cooldown as int,
        _ => 0,
    }
}

/// The input channel of a ship, zero for anything else.
pub open spec fn channel_of(o: SpaceObject) -> usize {
    match o.role {
        Role::Ship(s) => s.channel,
        _ => 0,
    }
}

/// A ship's pose and sprite after reading its steering signals: thrust
/// first, along the orientation it entered the tick with, then the two
/// turns; the sprite shows whether the drive is burning.
pub open spec fn steered(o: SpaceObject, c: ControlState, sp: SpriteSet) -> SpaceObject
    recommends
        o.wf(),
{
    let v = if c.accelerate {
        V2 {
            x: clip(
                o.velocity.x + sdiv(cos_fx(o.orientation as int) * LIN_ACCEL, SCALE as int),
                COORD_BOUND as int,
            ) as i64,
            y: clip(
                o.velocity.y + sdiv(sin_fx(o.orientation as int) * LIN_ACCEL, SCALE as int),
                COORD_BOUND as int,
            ) as i64,
        }
    } else {
        o.velocity
    };
    let sprite = if c.accelerate {
        sp.ship_thrust
    } else {
        sp.ship_idle
    };
    let a1 = if c.turn_left {
        wrap_angle(o.orientation + ROT_ACCEL)
    } else {
        o.orientation as int
    };
    let a2 = if c.turn_right {
        wrap_angle(a1 - ROT_ACCEL)
    } else {
        a1
    };
    SpaceObject { velocity: v, sprite, orientation: a2 as i64, ..o }
}

/// Whether the trigger works this tick: fire is held and the weapon has
/// cooled down.
pub open spec fn fires(o: SpaceObject, c: ControlState) -> bool {
    &&& o.role is Ship
    &&& c.fire
    &&& cooldown_of(o) <= 0
}

/// A ship's cooldown after its input step: reset to the maximum on
/// firing, then one decay step toward zero, floored there.
pub open spec fn next_cooldown(cd: int, fired: bool) -> int {
    let base = if fired {
        COOLDOWN_MAX as int
    } else {
        cd
    };
    if base - COOLDOWN_DECAY >= 0 {
        base - COOLDOWN_DECAY
    } else {
        0
    }
}

/// The projectile a steered ship spawns: placed ahead of the nose by
/// two thirds of the ship's size, inheriting the ship's velocity plus
/// muzzle speed along the orientation, one collision of survivability.
pub open spec fn projectile_of(o: SpaceObject, sprite: u64) -> SpaceObject
    recommends
        o.wf(),
{
    let cx = cos_fx(o.orientation as int);
    let sy = sin_fx(o.orientation as int);
    SpaceObject {
        position: V2 {
            x: clip(
                o.position.x + sdiv(cx * (2 * o.size), 3 * SCALE as int),
                COORD_BOUND as int,
            ) as i64,
            y: clip(
                o.position.y + sdiv(sy * (2 * o.size), 3 * SCALE as int),
                COORD_BOUND as int,
            ) as i64,
        },
        velocity: V2 {
            x: clip(o.velocity.x + sdiv(cx * MUZZLE_SPEED, SCALE as int), COORD_BOUND as int) as i64,
            y: clip(o.velocity.y + sdiv(sy * MUZZLE_SPEED, SCALE as int), COORD_BOUND as int) as i64,
        },
        orientation: o.orientation,
        mass: PROJECTILE_MASS,
        size: PROJECTILE_SIZE,
        sprite,
        role: Role::Projectile,
        survivability: Some(1u8),
    }
}

/// An entity after one full input step: a non-ship is unchanged; a ship
/// is steered, may fire, and its cooldown is reset and decayed.
pub open spec fn interacted(o: SpaceObject, c: ControlState, sp: SpriteSet) -> SpaceObject {
    if !(o.role is Ship) {
        o
    } else {
        let s = steered(o, c, sp);
        SpaceObject {
            role: Role::Ship(
                ShipState {
                    shot_cooldown: next_cooldown(cooldown_of(o), fires(o, c)) as i64,
                    channel: channel_of(o),
                },
            ),
            ..s
        }
    }
}

/// The projectiles (none or one) an entity spawns during its input step.
pub open spec fn interact_spawns(o: SpaceObject, c: ControlState, sp: SpriteSet) -> Seq<
    SpaceObject,
> {
    if fires(o, c) {
        seq![projectile_of(steered(o, c, sp), sp.projectile)]
    } else {
        Seq::empty()
    }
}

impl SpaceObject {
    /// Applies one tick of control signals to this entity. A non-ship is
    /// unchanged and spawns nothing. A ship thrusts, turns, swaps its
    /// sprite, fires when the trigger is held with a cooled-down weapon,
    /// and recovers cooldown. Spawned projectiles are returned, not
    /// inserted, so a caller iterating the fleet can append them after
    /// every ship has been stepped.
    pub fn interact(&mut self, c: ControlState, sprites: SpriteSet) -> (spawned: Vec<SpaceObject>)
        requires
            old(self).wf(),
        ensures
            *final(self) == interacted(*old(self), c, sprites),
            spawned@ == interact_spawns(*old(self), c, sprites),
            final(self).wf(),
            forall|i: int| 0 <= i < spawned@.len() ==> spawned@[i].wf(),
    {
        let mut spawned: Vec<SpaceObject> = Vec::new();
        let st: ShipState = match self.role {
            Role::Ship(s) => s,
            _ => {
                assert(spawned@ =~= interact_spawns(*old(self), c, sprites));
                return spawned;
            },
        };
        // Thrust, along the orientation the tick started with.
        if c.accelerate {
            let cx: i64 = cosine(self.orientation);
            let sx: i64 = sine(self.orientation);
            proof {
                lemma_sdiv_bound(cx as int, LIN_ACCEL as int, SCALE as int, 1_000);
                lemma_sdiv_bound(sx as int, LIN_ACCEL as int, SCALE as int, 1_000);
            }
            let dvx: i64 = scale_div_clip(cx, LIN_ACCEL, SCALE, i64::MAX);
            let dvy: i64 = scale_div_clip(sx, LIN_ACCEL, SCALE, i64::MAX);
            let vx: i64 = sat_add_coord(self.velocity.x, dvx);
            let vy: i64 = sat_add_coord(self.velocity.y, dvy);
            self.velocity = V2 { x: vx, y: vy };
            self.sprite = sprites.ship_thrust;
        } else {
            self.sprite = sprites.ship_idle;
        }
        // Turning.
        if c.turn_left {
            self.orientation = wrap_add_angle(self.orientation, ROT_ACCEL);
        }
        if c.turn_right {
            self.orientation = wrap_sub_angle(self.orientation, ROT_ACCEL);
        }
        assert(*self == steered(*old(self), c, sprites));
        // Weapons: fire from the steered pose.
        let fired: bool = c.fire && st.shot_cooldown <= 0;
        if fired {
            let cx: i64 = cosine(self.orientation);
            let sx: i64 = sine(self.orientation);
            proof {
                assert(absi(cx as int) * (2 * self.size as int) <= 400_000_000_000
                    * (3 * SCALE as int)) by (nonlinear_arith)
                    requires
                        -1_000_000 <= cx as int <= 1_000_000,
                        0 < self.size as int <= 500_000_000_000,
                        SCALE == 1_000_000,
                ;
                assert(absi(sx as int) * (2 * self.size as int) <= 400_000_000_000
                    * (3 * SCALE as int)) by (nonlinear_arith)
                    requires
                        -1_000_000 <= sx as int <= 1_000_000,
                        0 < self.size as int <= 500_000_000_000,
                        SCALE == 1_000_000,
                ;
                lemma_sdiv_bound(
                    cx as int,
                    2 * self.size as int,
                    3 * SCALE as int,
                    400_000_000_000,
                );
                lemma_sdiv_bound(
                    sx as int,
                    2 * self.size as int,
                    3 * SCALE as int,
                    400_000_000_000,
                );
                lemma_sdiv_bound(cx as int, MUZZLE_SPEED as int, SCALE as int, 800_000);
                lemma_sdiv_bound(sx as int, MUZZLE_SPEED as int, SCALE as int, 800_000);
            }
            let offx: i64 = scale_div_clip(cx, 2 * self.size, 3 * SCALE, i64::MAX);
            let offy: i64 = scale_div_clip(sx, 2 * self.size, 3 * SCALE, i64::MAX);
            let px: i64 = clip_i64(self.position.x + offx, COORD_BOUND);
            let py: i64 = clip_i64(self.position.y + offy, COORD_BOUND);
            let mvx: i64 = scale_div_clip(cx, MUZZLE_SPEED, SCALE, i64::MAX);
            let mvy: i64 = scale_div_clip(sx, MUZZLE_SPEED, SCALE, i64::MAX);
            let vx: i64 = sat_add_coord(self.velocity.x, mvx);
            let vy: i64 = sat_add_coord(self.velocity.y, mvy);
            spawned.push(
                SpaceObject {
                    position: V2 { x: px, y: py },
                    velocity: V2 { x: vx, y: vy },
                    orientation: self.orientation,
                    mass: PROJECTILE_MASS,
                    size: PROJECTILE_SIZE,
                    sprite: sprites.projectile,
                    role: Role::Projectile,
                    survivability: Some(1),
                },
            );
        }
        // Cooldown: reset on firing, then recover one step, floored at 0.
        let base: i64 = if fired {
            COOLDOWN_MAX
        } else {
            st.shot_cooldown
        };
        let cd: i64 = if base - COOLDOWN_DECAY >= 0 {
            base - COOLDOWN_DECAY
        } else {
            0
        };
        self.role = Role::Ship(ShipState { shot_cooldown: cd, channel: st.channel });
        assert(spawned@ =~= interact_spawns(*old(self), c, sprites));
        spawned
    }
}

/// The pose tuple a renderer needs for one entity.
#[derive(Clone, Copy, Debug, PartialEq, Eq, Structural)]
pub struct RenderEntry {
    pub position: V2,
    pub orientation: i64,
    pub size: i64,
    pub sprite: u64,
}

impl SpaceObject {
    /// The render-facing snapshot of this entity.
    pub fn render_info(&self) -> (r: RenderEntry)
        ensures
            r == (RenderEntry {
                position: self.position,
                orientation: self.orientation,
                size: self.size,
                sprite: self.sprite,
            }),
    {
        RenderEntry {
            position: self.position,
            orientation: self.orientation,
            size: self.size,
            sprite: self.sprite,
        }
    }
}

} // verus!
