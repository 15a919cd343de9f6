//! Engine-wide laws: facts about the force computation, the integration
//! step and the culling stage that hold for every entity set, proved once
//! here against the same spec functions the engine's contracts use.

use vstd::prelude::*;
use vstd::arithmetic::div_mod::lemma_fundamental_div_mod;
use vstd::arithmetic::div_mod::lemma_mod_division_less_than_divisor;
use vstd::arithmetic::div_mod::lemma_div_pos_is_pos;
use crate::fx::{
    SCALE, GRAVITY, COORD_BOUND, FORCE_BOUND, COOLDOWN_MAX, V2, absi, clip, sdiv, in_force,
};
use crate::sqrt::{sqrt_floor, lemma_sqrt_floor_props};
use crate::space_object::{
    SpaceObject, ControlState, SpriteSet, dist2, force_between, moved, interacted, cooldown_of,
};
use crate::sim::{
    net_force, net_force_prefix, integrated, collided, culled, physics_tick, overlap_count, keep,
    within_escape,
};

verus! {

/// An entity exerts no pull on anything sharing its center, itself
/// included: the coincident-center guard returns the zero vector.
pub proof fn lemma_coincident_force_zero(a: SpaceObject, b: SpaceObject)
    requires
        a.position == b.position,
    ensures
        force_between(a, b) == (0int, 0int),
{
    let dx = b.position.x - a.position.x;
    let dy = b.position.y - a.position.y;
    assert(dx == 0 && dy == 0);
    assert(dx * dx == 0 && dy * dy == 0) by (nonlinear_arith)
        requires
            dx == 0,
            dy == 0,
    ;
    assert(dist2(a, b) == 0);
}

proof fn lemma_zero_force_prefix(s: Seq<SpaceObject>, i: int, k: int)
    requires
        0 <= i < s.len(),
        k <= s.len(),
        forall|j: int| 0 <= j < s.len() ==> (#[trigger] s[j]).position == s[i].position,
    ensures
        net_force_prefix(s, i, k) == (0int, 0int),
    decreases k,
{
    if k <= 0 {
    } else {
        lemma_zero_force_prefix(s, i, k - 1);
        lemma_coincident_force_zero(s[i], s[k - 1]);
        assert(clip(0int + 0int, FORCE_BOUND as int) == 0);
    }
}

/// Zero-force self-consistency: the net computed force on an entity all
/// of whose companions sit at its own position is exactly zero.
pub proof fn lemma_isolated_entity_zero_force(s: Seq<SpaceObject>, i: int)
    requires
        0 <= i < s.len(),
        forall|j: int| 0 <= j < s.len() ==> (#[trigger] s[j]).position == s[i].position,
    ensures
        net_force(s, i) == (0int, 0int),
{
    lemma_zero_force_prefix(s, i, s.len() as int);
}

/// Both components of a pairwise force lie in the force range.
pub proof fn lemma_force_between_in_range(a: SpaceObject, b: SpaceObject)
    ensures
        in_force(force_between(a, b).0),
        in_force(force_between(a, b).1),
{
}

/// Newtonian symmetry: the pull `b` exerts on `a` and the pull `a`
/// exerts on `b` are equal in magnitude and opposite in direction,
/// exactly, independent of the order the pair is visited in.
pub proof fn lemma_force_symmetric(a: SpaceObject, b: SpaceObject)
    requires
        a.wf(),
        b.wf(),
    ensures
        force_between(a, b).0 == -force_between(b, a).0,
        force_between(a, b).1 == -force_between(b, a).1,
{
    let dx = b.position.x - a.position.x;
    let dy = b.position.y - a.position.y;
    assert((-dx) * (-dx) == dx * dx && (-dy) * (-dy) == dy * dy) by (nonlinear_arith);
    assert(dist2(b, a) == dist2(a, b));
    assert(GRAVITY * a.mass * b.mass == GRAVITY * b.mass * a.mass) by (nonlinear_arith);
    if dist2(a, b) == 0 {
    } else {
        let d2 = dist2(a, b);
        let r = sqrt_floor(d2 as nat) as int;
        let r3 = r * r * r;
        let gmm = GRAVITY * a.mass * b.mass;
        assert(dx * dx >= 0 && dy * dy >= 0) by (nonlinear_arith);
        lemma_sqrt_floor_props(d2 as nat);
        assert(r >= 1) by (nonlinear_arith)
            requires
                r >= 0,
                d2 >= 1,
                d2 < (r + 1) * (r + 1),
        ;
        assert(r3 >= 1) by (nonlinear_arith)
            requires
                r >= 1,
                r3 == r * r * r,
        ;
        assert(gmm >= 0 && gmm * absi(dx) >= 0 && gmm * absi(dy) >= 0) by (nonlinear_arith)
            requires
                GRAVITY == 100_000,
                a.mass > 0,
                b.mass > 0,
                gmm == GRAVITY * a.mass * b.mass,
        ;
        lemma_div_pos_is_pos(gmm * absi(dx), r3);
        lemma_div_pos_is_pos(gmm * absi(dy), r3);
        assert(absi(-dx) == absi(dx) && absi(-dy) == absi(dy));
        if dx == 0 {
            assert(gmm * absi(dx) == 0) by (nonlinear_arith)
                requires
                    absi(dx) == 0,
            ;
            vstd::arithmetic::div_mod::lemma_div_of0(r3);
        }
        if dy == 0 {
            assert(gmm * absi(dy) == 0) by (nonlinear_arith)
                requires
                    absi(dy) == 0,
            ;
            vstd::arithmetic::div_mod::lemma_div_of0(r3);
        }
        let magx = clip(gmm * absi(dx) / r3, FORCE_BOUND as int);
        let magy = clip(gmm * absi(dy) / r3, FORCE_BOUND as int);
        assert(force_between(a, b).0 == if dx < 0 {
            -magx
        } else {
            magx
        });
        assert(force_between(b, a).0 == if -dx < 0 {
            -magx
        } else {
            magx
        });
        assert(force_between(a, b).1 == if dy < 0 {
            -magy
        } else {
            magy
        });
        assert(force_between(b, a).1 == if -dy < 0 {
            -magy
        } else {
            magy
        });
    }
}

/// In a closed two-body system the two computed net forces cancel
/// exactly: the force pass injects no momentum.
pub proof fn lemma_two_body_force_balance(s: Seq<SpaceObject>)
    requires
        s.len() == 2,
        s[0].wf(),
        s[1].wf(),
    ensures
        net_force(s, 0).0 + net_force(s, 1).0 == 0,
        net_force(s, 0).1 + net_force(s, 1).1 == 0,
{
    lemma_coincident_force_zero(s[0], s[0]);
    lemma_coincident_force_zero(s[1], s[1]);
    lemma_force_between_in_range(s[0], s[1]);
    lemma_force_between_in_range(s[1], s[0]);
    lemma_force_symmetric(s[0], s[1]);
    assert(net_force_prefix(s, 0, 0) == (0int, 0int));
    assert(net_force_prefix(s, 0, 1) == (0int, 0int));
    assert(net_force(s, 0).0 == force_between(s[0], s[1]).0);
    assert(net_force_prefix(s, 1, 0) == (0int, 0int));
    assert(net_force_prefix(s, 1, 1).0 == force_between(s[1], s[0]).0);
    assert(net_force_prefix(s, 1, 1).1 == force_between(s[1], s[0]).1);
    assert(net_force(s, 1).0 == force_between(s[1], s[0]).0);
}

/// The truncating division `sdiv(a, m)` multiplied back by `m` misses
/// `a` by less than `m`.
pub proof fn lemma_sdiv_remainder(a: int, m: int)
    requires
        m > 0,
    ensures
        absi(m * sdiv(a, m) - a) < m,
{
    if a >= 0 {
        lemma_fundamental_div_mod(a, m);
        lemma_mod_division_less_than_divisor(a, m);
    } else {
        lemma_fundamental_div_mod(-a, m);
        lemma_mod_division_less_than_divisor(-a, m);
        assert(m * (-((-a) / m)) == -(m * ((-a) / m))) by (nonlinear_arith);
    }
}

/// Whether entry `i`'s integration step stays inside the saturation
/// bounds this tick, so no clipping takes place.
pub open spec fn unsaturated_step(s: Seq<SpaceObject>, i: int) -> bool {
    let f = net_force(s, i);
    let dvx = sdiv(f.0 * SCALE, s[i].mass as int);
    let dvy = sdiv(f.1 * SCALE, s[i].mass as int);
    &&& absi(dvx) <= COORD_BOUND
    &&& absi(dvy) <= COORD_BOUND
    &&& absi(s[i].velocity.x + dvx) <= COORD_BOUND
    &&& absi(s[i].velocity.y + dvy) <= COORD_BOUND
}

/// Conservation under no external input: over one integration step of a
/// closed two-body system that stays inside the saturation bounds, the
/// total momentum moves by less than the sum of the two masses — the
/// only drift is the sub-unit truncation of the two divisions, while the
/// pairwise forces cancel exactly.
pub proof fn lemma_two_body_momentum_drift(s: Seq<SpaceObject>)
    requires
        s.len() == 2,
        s[0].wf(),
        s[1].wf(),
        unsaturated_step(s, 0),
        unsaturated_step(s, 1),
    ensures
        absi(s[0].mass * (integrated(s)[0].velocity.x - s[0].velocity.x) + s[1].mass * (
        integrated(s)[1].velocity.x - s[1].velocity.x)) < s[0].mass + s[1].mass,
        absi(s[0].mass * (integrated(s)[0].velocity.y - s[0].velocity.y) + s[1].mass * (
        integrated(s)[1].velocity.y - s[1].velocity.y)) < s[0].mass + s[1].mass,
{
    lemma_two_body_force_balance(s);
    let f0 = net_force(s, 0);
    let f1 = net_force(s, 1);
    let m0 = s[0].mass as int;
    let m1 = s[1].mass as int;
    let dv0x = sdiv(f0.0 * SCALE, m0);
    let dv0y = sdiv(f0.1 * SCALE, m0);
    let dv1x = sdiv(f1.0 * SCALE, m1);
    let dv1y = sdiv(f1.1 * SCALE, m1);
    assert(integrated(s)[0] == moved(s[0], Some(V2 { x: f0.0 as i64, y: f0.1 as i64 })));
    assert(integrated(s)[1] == moved(s[1], Some(V2 { x: f1.0 as i64, y: f1.1 as i64 })));
    crate::sim::lemma_net_force_prefix_in_range(s, 0, s.len() as int);
    crate::sim::lemma_net_force_prefix_in_range(s, 1, s.len() as int);
    assert(integrated(s)[0].velocity.x == s[0].velocity.x + dv0x);
    assert(integrated(s)[0].velocity.y == s[0].velocity.y + dv0y);
    assert(integrated(s)[1].velocity.x == s[1].velocity.x + dv1x);
    assert(integrated(s)[1].velocity.y == s[1].velocity.y + dv1y);
    lemma_sdiv_remainder(f0.0 * SCALE, m0);
    lemma_sdiv_remainder(f0.1 * SCALE, m0);
    lemma_sdiv_remainder(f1.0 * SCALE, m1);
    lemma_sdiv_remainder(f1.1 * SCALE, m1);
    assert((f0.0 + f1.0) * SCALE == 0 && (f0.1 + f1.1) * SCALE == 0) by (nonlinear_arith)
        requires
            f0.0 + f1.0 == 0,
            f0.1 + f1.1 == 0,
    ;
    assert(f0.0 * SCALE + f1.0 * SCALE == (f0.0 + f1.0) * SCALE) by (nonlinear_arith);
    assert(f0.1 * SCALE + f1.1 * SCALE == (f0.1 + f1.1) * SCALE) by (nonlinear_arith);
}

/// Everything that survives culling passes the keep test and was present
/// before the cull, in order: nothing destroyed or escaped reaches the
/// next render frame, and nothing new appears.
pub proof fn lemma_culled_keeps(s: Seq<SpaceObject>)
    ensures
        forall|j: int| 0 <= j < culled(s).len() ==> keep(#[trigger] culled(s)[j]),
        forall|j: int| 0 <= j < culled(s).len() ==> s.contains(#[trigger] culled(s)[j]),
    decreases s.len(),
{
    if s.len() == 0 {
    } else {
        lemma_culled_keeps(s.drop_last());
        assert forall|j: int| 0 <= j < culled(s).len() implies keep(#[trigger] culled(s)[j])
            && s.contains(culled(s)[j]) by {
            let prefix = culled(s.drop_last());
            if j < prefix.len() {
                assert(culled(s)[j] == prefix[j]);
                let w = choose|w: int| 0 <= w < s.drop_last().len() && s.drop_last()[w]
                    == prefix[j];
                assert(s[w] == s.drop_last()[w]);
            } else {
                assert(culled(s)[j] == s.last());
                assert(s[s.len() - 1] == s.last());
            }
        }
    }
}

/// An entity that passes the keep test is still present after culling.
pub proof fn lemma_culled_contains_kept(s: Seq<SpaceObject>, i: int)
    requires
        0 <= i < s.len(),
        keep(s[i]),
    ensures
        culled(s).contains(s[i]),
    decreases s.len(),
{
    if i == s.len() - 1 {
        let prefix = culled(s.drop_last());
        assert(culled(s)[prefix.len() as int] == s.last());
    } else {
        lemma_culled_contains_kept(s.drop_last(), i);
        assert(s.drop_last()[i] == s[i]);
        let w = choose|w: int| 0 <= w < culled(s.drop_last()).len() && culled(s.drop_last())[w]
            == s[i];
        if keep(s.last()) {
            assert(culled(s)[w] == s[i]);
        } else {
            assert(culled(s)[w] == s[i]);
        }
    }
}

/// Collision monotonicity: a projectile holding its last collision is
/// destroyed by the first tick in which its circle overlaps any other
/// live entity, and never earlier — with no overlap its counter is
/// untouched and, if it also passes the escape test, it is still in the
/// live set the tick hands to the renderer.
pub proof fn lemma_projectile_collision_fate(s: Seq<SpaceObject>, i: int)
    requires
        0 <= i < s.len(),
        s[i].survivability == Some(1u8),
    ensures
        ({
            let t = integrated(s);
            let c = collided(t);
            &&& (overlap_count(t, i) > 0 ==> !keep(c[i]) && !c[i].collisions_left_spec())
            &&& (overlap_count(t, i) == 0 ==> c[i].survivability == Some(1u8))
            &&& (overlap_count(t, i) == 0 && keep(c[i]) ==> physics_tick(s).contains(c[i]))
        }),
{
    let t = integrated(s);
    let c = collided(t);
    assert(t[i].survivability == Some(1u8));
    if overlap_count(t, i) == 0 && keep(c[i]) {
        lemma_culled_contains_kept(c, i);
    }
}

/// Escape culling: a non-ship that integration has carried past the
/// escape distance fails the keep test, and every entity still live
/// after the tick passes it — the escaped entity is absent from the next
/// exported render frame.
pub proof fn lemma_escape_culling(s: Seq<SpaceObject>, i: int)
    requires
        0 <= i < s.len(),
        !s[i].is_ship_spec(),
        !within_escape(integrated(s)[i]),
    ensures
        !keep(collided(integrated(s))[i]),
        forall|j: int| 0 <= j < physics_tick(s).len() ==> keep(#[trigger] physics_tick(s)[j]),
{
    let t = integrated(s);
    let c = collided(t);
    assert(c[i].position == t[i].position && c[i].role == t[i].role && t[i].role == s[i].role);
    lemma_culled_keeps(c);
}

/// Cooldown clamp: whatever the signals, the input step leaves a ship's
/// cooldown inside `[0, COOLDOWN_MAX]`.
pub proof fn lemma_cooldown_clamped(o: SpaceObject, c: ControlState, sp: SpriteSet)
    requires
        o.wf(),
    ensures
        0 <= cooldown_of(interacted(o, c, sp)) <= COOLDOWN_MAX,
{
}

} // verus!

