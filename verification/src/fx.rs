//! Fixed-point scalars and 2-D vectors.
//!
//! A world quantity is an `i64` counting millionths of a world unit
//! (`SCALE` sub-units per unit). All engine arithmetic is exact integer
//! arithmetic on this representation: multiplication and division of two
//! fixed-point quantities rescale by `SCALE`, and signed division truncates
//! toward zero (`sdiv`). Coordinates and velocities saturate at
//! `COORD_BOUND`, accumulated forces at `FORCE_BOUND`, so no operation
//! overflows and every tick is reproducible.

use vstd::prelude::*;
use vstd::arithmetic::div_mod::lemma_div_is_ordered;
use vstd::arithmetic::div_mod::lemma_div_by_multiple;
use vstd::arithmetic::div_mod::lemma_div_pos_is_pos;

verus! {

/// Fixed-point sub-units per world unit.
pub const SCALE: i64 = 1_000_000;

/// Gravitational constant (0.1 in world units).
pub const GRAVITY: i64 = 100_000;

/// Velocity gained per tick of thrust (0.001 world units per tick).
pub const LIN_ACCEL: i64 = 1_000;

/// Angle turned per tick of steering (0.05 radians).
pub const ROT_ACCEL: i64 = 50_000;

/// Weapon cooldown right after firing (1.0 tick-seconds).
pub const COOLDOWN_MAX: i64 = 1_000_000;

/// Cooldown recovered each tick (0.01 tick-seconds).
pub const COOLDOWN_DECAY: i64 = 10_000;

/// Speed of a projectile relative to the ship that fired it (0.8).
pub const MUZZLE_SPEED: i64 = 800_000;

/// Mass of every ship (1.0).
pub const SHIP_MASS: i64 = 1_000_000;

/// Diameter of every ship (16.0).
pub const SHIP_SIZE: i64 = 16_000_000;

/// Collisions a freshly built ship survives.
pub const SHIP_SURVIVABILITY: u8 = 3;

/// Mass of a projectile (0.01).
pub const PROJECTILE_MASS: i64 = 10_000;

/// Diameter of a projectile (4.0).
pub const PROJECTILE_SIZE: i64 = 4_000_000;

/// Distance from the origin beyond which a non-ship entity is culled
/// (1000 world units).
pub const ESCAPE_DISTANCE: i64 = 1_000_000_000;

/// Largest magnitude a coordinate, velocity component or angle may take
/// (2000 world units); sums saturate here.
pub const COORD_BOUND: i64 = 2_000_000_000;

/// Largest mass or size an entity may have (500000 world units).
pub const MASS_BOUND: i64 = 500_000_000_000;

/// Largest magnitude of an accumulated force component; force sums
/// saturate here.
pub const FORCE_BOUND: i64 = 1_000_000_000_000_000_000;

/// A 2-D fixed-point vector.
#[derive(Clone, Copy, Debug, PartialEq, Eq, Structural)]
pub struct V2 {
    pub x: i64,
    pub y: i64,
}

/// Magnitude of a mathematical integer.
pub open spec fn absi(x: int) -> int {
    if x < 0 {
        -x
    } else {
        x
    }
}

/// `x` saturated into `[-b, b]`.
pub open spec fn clip(x: int, b: int) -> int {
    if x > b {
        b
    } else if x < -b {
        -b
    } else {
        x
    }
}

/// Division truncating toward zero, for a positive divisor.
pub open spec fn sdiv(a: int, b: int) -> int
    recommends
        b > 0,
{
    if a >= 0 {
        a / b
    } else {
        -((-a) / b)
    }
}

/// Whether a scalar lies in the coordinate range.
pub open spec fn in_coord(x: int) -> bool {
    -COORD_BOUND <= x <= COORD_BOUND
}

/// Whether both components of a vector lie in the coordinate range.
pub open spec fn in_coord_v2(v: V2) -> bool {
    in_coord(v.x as int) && in_coord(v.y as int)
}

/// Whether a scalar lies in the force range.
pub open spec fn in_force(x: int) -> bool {
    -FORCE_BOUND <= x <= FORCE_BOUND
}

/// A product of nonnegative factors grows with each factor.
pub proof fn lemma_mul_le(a: int, b: int, ax: int, bx: int)
    by (nonlinear_arith)
    requires
        0 <= a <= ax,
        0 <= b <= bx,
    ensures
        a * b <= ax * bx,
{
}

/// Bounds a truncating quotient: if `|a| * c <= m * d` then
/// `|sdiv(a * c, d)| <= m`.
pub proof fn lemma_sdiv_bound(a: int, c: int, d: int, m: int)
    requires
        0 <= c,
        0 < d,
        0 <= m,
        absi(a) * c <= m * d,
    ensures
        absi(sdiv(a * c, d)) <= m,
{
    if a >= 0 {
        assert(a * c == absi(a) * c);
        lemma_div_is_ordered(a * c, m * d, d);
        lemma_div_by_multiple(m, d);
        lemma_div_pos_is_pos(a * c, d);
        assert(a * c >= 0) by (nonlinear_arith)
            requires
                a >= 0,
                c >= 0,
        ;
    } else {
        assert((-a) * c == absi(a) * c) by (nonlinear_arith)
            requires
                a < 0,
        ;
        lemma_div_is_ordered((-a) * c, m * d, d);
        lemma_div_by_multiple(m, d);
        lemma_div_pos_is_pos((-a) * c, d);
        assert((-a) * c >= 0) by (nonlinear_arith)
            requires
                a < 0,
                c >= 0,
        ;
        assert(a * c == -((-a) * c)) by (nonlinear_arith);
    }
}

/// Saturates an `i64` into `[-b, b]`.
pub fn clip_i64(x: i64, b: i64) -> (r: i64)
    requires
        0 < b,
    ensures
        r as int == clip(x as int, b as int),
{
    if x > b {
        b
    } else if x < -b {
        -b
    } else {
        x
    }
}

/// Saturating addition of two coordinate-range scalars.
pub fn sat_add_coord(a: i64, b: i64) -> (r: i64)
    requires
        in_coord(a as int),
        in_coord(b as int),
    ensures
        r as int == clip(a + b, COORD_BOUND as int),
{
    clip_i64(a + b, COORD_BOUND)
}

/// Saturating addition of two force-range scalars.
pub fn sat_add_force(a: i64, b: i64) -> (r: i64)
    requires
        in_force(a as int),
        in_force(b as int),
    ensures
        r as int == clip(a + b, FORCE_BOUND as int),
{
    clip_i64(a + b, FORCE_BOUND)
}

/// Computes `clip(sdiv(a * c, d), b)`: scales `a` by the nonnegative
/// factor `c`, divides truncating toward zero by the positive divisor `d`,
/// and saturates into `[-b, b]`.
pub fn scale_div_clip(a: i64, c: i64, d: i64, b: i64) -> (r: i64)
    requires
        0 <= c,
        0 < d,
        0 < b,
        a > i64::MIN,
    ensures
        r as int == clip(sdiv(a as int * c as int, d as int), b as int),
{
    let neg: bool = a < 0;
    let ma: u128 = (if neg {
        -a
    } else {
        a
    }) as u128;
    proof {
        lemma_mul_le(ma as int, c as int, 0x8000_0000_0000_0000, 0x8000_0000_0000_0000);
    }
    let q: u128 = ma * (c as u128) / (d as u128);
    proof {
        if neg {
            assert(a as int * c as int == -((ma as int) * (c as int))) by (nonlinear_arith)
                requires
                    ma == -(a as int),
            ;
        }
        lemma_div_pos_is_pos(ma as int * c as int, d as int);
    }
    if q > (b as u128) {
        if neg {
            -b
        } else {
            b
        }
    } else {
        if neg {
            -(q as i64)
        } else {
            q as i64
        }
    }
}

} // verus!
