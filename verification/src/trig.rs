//! Fixed-point trigonometry.
//!
//! Angles are fixed-point radians kept in `[0, TAU_FX)`. The sine is
//! Bhaskara's rational approximation evaluated in integer arithmetic: on
//! `[0, PI_FX]` it is `16 x (PI_FX - x) * SCALE / (5 PI_FX^2 - 4 x (PI_FX - x))`,
//! and the second half-turn is its mirror image. The approximation is
//! exact at 0, at PI_FX and at the quarter turns, and never leaves
//! `[-SCALE, SCALE]`; the engine treats it as the definition of sine, so
//! every trajectory is reproducible integer arithmetic.

use vstd::prelude::*;
use vstd::arithmetic::div_mod::lemma_multiply_divide_le;
use vstd::arithmetic::div_mod::lemma_div_pos_is_pos;
use crate::fx::SCALE;

verus! {

/// Half a turn, in fixed-point radians.
pub const PI_FX: i64 = 3_141_592;

/// A quarter turn.
pub const HALF_PI_FX: i64 = 1_570_796;

/// A full turn; orientations live in `[0, TAU_FX)`.
pub const TAU_FX: i64 = 6_283_184;

/// Bhaskara's sine approximation on `[0, PI_FX]`, scaled by `SCALE`.
pub open spec fn bhaskara(x: int) -> int
    recommends
        0 <= x <= PI_FX,
{
    let p = x * (PI_FX - x);
    16 * p * SCALE / (5 * PI_FX * PI_FX - 4 * p)
}

/// Fixed-point sine of an angle in `[0, TAU_FX)`.
pub open spec fn sin_fx(a: int) -> int
    recommends
        0 <= a < TAU_FX,
{
    if a <= PI_FX {
        bhaskara(a)
    } else {
        -bhaskara(a - PI_FX)
    }
}

/// Brings an angle from `(-TAU_FX, 2 * TAU_FX)` back into `[0, TAU_FX)`.
pub open spec fn wrap_angle(a: int) -> int {
    if a >= TAU_FX {
        a - TAU_FX
    } else if a < 0 {
        a + TAU_FX
    } else {
        a
    }
}

/// Fixed-point cosine of an angle in `[0, TAU_FX)`: the sine a quarter
/// turn ahead.
pub open spec fn cos_fx(a: int) -> int
    recommends
        0 <= a < TAU_FX,
{
    sin_fx(wrap_angle(a + HALF_PI_FX))
}

/// On `[0, PI_FX]` the approximation stays in `[0, SCALE]`.
pub proof fn lemma_bhaskara_bounds(x: int)
    requires
        0 <= x <= PI_FX,
    ensures
        0 <= bhaskara(x) <= SCALE,
{
    let p = x * (PI_FX - x);
    assert(0 <= 4 * p <= PI_FX * PI_FX) by (nonlinear_arith)
        requires
            0 <= x <= PI_FX,
            p == x * (PI_FX - x),
    ;
    let den = 5 * PI_FX * PI_FX - 4 * p;
    assert(16 * p * SCALE <= den * SCALE) by (nonlinear_arith)
        requires
            0 <= 4 * p <= PI_FX * PI_FX,
            den == 5 * PI_FX * PI_FX - 4 * p,
    ;
    lemma_multiply_divide_le(16 * p * SCALE, den, SCALE as int);
    lemma_div_pos_is_pos(16 * p * SCALE, den);
    assert(16 * p * SCALE >= 0) by (nonlinear_arith)
        requires
            p >= 0,
    ;
}

/// The sine never leaves `[-SCALE, SCALE]`.
pub proof fn lemma_sin_bounds(a: int)
    requires
        0 <= a < TAU_FX,
    ensures
        -SCALE <= sin_fx(a) <= SCALE,
{
    if a <= PI_FX {
        lemma_bhaskara_bounds(a);
    } else {
        lemma_bhaskara_bounds(a - PI_FX);
    }
}

/// Evaluates Bhaskara's approximation.
fn bhaskara_exec(x: i64) -> (r: i64)
    requires
        0 <= x <= PI_FX,
    ensures
        r as int == bhaskara(x as int),
        0 <= r <= SCALE,
{
    proof {
        lemma_bhaskara_bounds(x as int);
        crate::fx::lemma_mul_le(x as int, PI_FX - x as int, PI_FX as int, PI_FX as int);
    }
    let p: u128 = (x as u128) * ((PI_FX - x) as u128);
    let num: u128 = 16 * p * (SCALE as u128);
    proof {
        assert(4 * (p as int) <= PI_FX * PI_FX) by (nonlinear_arith)
            requires
                0 <= x <= PI_FX,
                p == (x as int) * (PI_FX - x as int),
        ;
    }
    let den: u128 = 5 * (PI_FX as u128) * (PI_FX as u128) - 4 * p;
    let q: u128 = num / den;
    q as i64
}

/// Fixed-point sine of an orientation.
pub fn sine(a: i64) -> (r: i64)
    requires
        0 <= a < TAU_FX,
    ensures
        r as int == sin_fx(a as int),
        -SCALE <= r <= SCALE,
{
    if a <= PI_FX {
        bhaskara_exec(a)
    } else {
        -bhaskara_exec(a - PI_FX)
    }
}

/// Fixed-point cosine of an orientation.
pub fn cosine(a: i64) -> (r: i64)
    requires
        0 <= a < TAU_FX,
    ensures
        r as int == cos_fx(a as int),
        -SCALE <= r <= SCALE,
{
    let b: i64 = if a + HALF_PI_FX >= TAU_FX {
        a + HALF_PI_FX - TAU_FX
    } else {
        a + HALF_PI_FX
    };
    sine(b)
}

/// Turns an orientation left by `d`, staying in `[0, TAU_FX)`.
pub fn wrap_add_angle(a: i64, d: i64) -> (r: i64)
    requires
        0 <= a < TAU_FX,
        0 <= d < TAU_FX,
    ensures
        r as int == wrap_angle(a + d),
        0 <= r < TAU_FX,
{
    if a + d >= TAU_FX {
        a + d - TAU_FX
    } else {
        a + d
    }
}

/// Turns an orientation right by `d`, staying in `[0, TAU_FX)`.
pub fn wrap_sub_angle(a: i64, d: i64) -> (r: i64)
    requires
        0 <= a < TAU_FX,
        0 <= d < TAU_FX,
    ensures
        r as int == wrap_angle(a - d),
        0 <= r < TAU_FX,
{
    if a - d < 0 {
        a - d + TAU_FX
    } else {
        a - d
    }
}

} // verus!
