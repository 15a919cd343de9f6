//! Scenario tests for the simulation engine: concrete entity sets run
//! through construction, input, physics and culling, checked against
//! exact fixed-point values.

use orbits::fx::{V2, SHIP_MASS, SHIP_SIZE, PROJECTILE_MASS, PROJECTILE_SIZE};
use orbits::space_object::{ControlState, Role, SpaceObject, SpriteSet};
use orbits::sim::OrbitsInstance;

fn sprites() -> SpriteSet {
    SpriteSet { ship_idle: 1, ship_thrust: 2, projectile: 3, sun: 4 }
}

fn fire_only() -> ControlState {
    ControlState { accelerate: false, turn_left: false, turn_right: false, fire: true }
}

/// Two bodies, masses 1024 and 1, separation (256, 0), velocities (0, 0)
/// and (0, 0.6): after one tick the light body is pulled toward the
/// origin by the inverse-square force and drifts on.
#[test]
fn two_body_first_tick() {
    let heavy = SpaceObject::body(V2 { x: 0, y: 0 }, V2 { x: 0, y: 0 }, 1_024_000_000, 1_000_000, 0);
    let light = SpaceObject::body(
        V2 { x: 256_000_000, y: 0 },
        V2 { x: 0, y: 600_000 },
        1_000_000,
        1_000_000,
        0,
    );
    let mut instance = OrbitsInstance { objects: vec![heavy, light], sprites: sprites() };
    instance.update();
    assert_eq!(instance.objects.len(), 2);
    // G * m1 * m2 * |dx| / r^3 = 10^5 * 1.024e9 * 10^6 * 2.56e8 / (2.56e8)^3
    // truncates to 1562 sub-units (0.001562 world units per tick).
    assert_eq!(instance.objects[1].velocity, V2 { x: -1562, y: 600_000 });
    assert_eq!(instance.objects[1].position, V2 { x: 255_998_438, y: 600_000 });
    // The heavy body feels the opposite force, divided by its mass.
    assert_eq!(instance.objects[0].velocity, V2 { x: 1, y: 0 });
    assert_eq!(instance.objects[0].position, V2 { x: 1, y: 0 });
}

/// An entity set sharing one position feels no force at all and does not
/// move: the coincident-center guard returns zero for every pair.
#[test]
fn coincident_entities_feel_no_force() {
    let a = SpaceObject::body(V2 { x: 5_000_000, y: -3_000_000 }, V2 { x: 0, y: 0 }, 7_000_000, 1_000_000, 0);
    let b = SpaceObject::body(V2 { x: 5_000_000, y: -3_000_000 }, V2 { x: 0, y: 0 }, 9_000_000, 1_000_000, 0);
    let mut instance = OrbitsInstance { objects: vec![a, b], sprites: sprites() };
    instance.update();
    assert_eq!(instance.objects[0].velocity, V2 { x: 0, y: 0 });
    assert_eq!(instance.objects[1].velocity, V2 { x: 0, y: 0 });
    assert_eq!(instance.objects[0].position, V2 { x: 5_000_000, y: -3_000_000 });
    assert_eq!(instance.objects[1].position, V2 { x: 5_000_000, y: -3_000_000 });
}

/// The pull of A on B and of B on A are exactly opposite, whichever way
/// the pair is ordered.
#[test]
fn pairwise_force_is_symmetric() {
    let a = SpaceObject::body(V2 { x: 0, y: 0 }, V2 { x: 0, y: 0 }, 2_000_000, 1_000_000, 0);
    let b = SpaceObject::body(
        V2 { x: 100_000_000, y: 50_000_000 },
        V2 { x: 0, y: 0 },
        3_000_000,
        1_000_000,
        0,
    );
    let f_ab = orbits::space_object::gravity_between(&a, &b);
    let f_ba = orbits::space_object::gravity_between(&b, &a);
    assert_eq!(f_ab.x, -f_ba.x);
    assert_eq!(f_ab.y, -f_ba.y);
    assert!(f_ab.x > 0);
}

/// Over many ticks of a closed two-body system the total momentum drifts
/// by less than one truncation error per body per tick.
#[test]
fn two_body_momentum_drift_is_bounded() {
    let heavy = SpaceObject::body(V2 { x: 0, y: 0 }, V2 { x: 0, y: 0 }, 1_024_000_000, 1_000_000, 0);
    let light = SpaceObject::body(
        V2 { x: 256_000_000, y: 0 },
        V2 { x: 0, y: 600_000 },
        1_000_000,
        1_000_000,
        0,
    );
    let mut instance = OrbitsInstance { objects: vec![heavy, light], sprites: sprites() };
    let momentum = |objs: &Vec<SpaceObject>| -> (i128, i128) {
        let mut px: i128 = 0;
        let mut py: i128 = 0;
        for o in objs.iter() {
            px += (o.mass as i128) * (o.velocity.x as i128);
            py += (o.mass as i128) * (o.velocity.y as i128);
        }
        (px, py)
    };
    let (px0, py0) = momentum(&instance.objects);
    let ticks: i128 = 100;
    for _ in 0..ticks {
        instance.update();
    }
    assert_eq!(instance.objects.len(), 2);
    let (px1, py1) = momentum(&instance.objects);
    let per_tick: i128 = 1_024_000_000 + 1_000_000;
    assert!((px1 - px0).abs() < ticks * per_tick);
    assert!((py1 - py0).abs() < ticks * per_tick);
}

/// A ship with a ready weapon spawns exactly one projectile on fire and
/// resets its cooldown; the next tick's fire is ignored while it cools.
#[test]
fn firing_spawns_one_projectile_and_resets_cooldown() {
    let ship = SpaceObject::ship(V2 { x: 0, y: 0 }, V2 { x: 0, y: 0 }, 1, 0);
    let mut instance = OrbitsInstance { objects: vec![ship], sprites: sprites() };
    let controls = vec![fire_only()];
    instance.interact(&controls);
    assert_eq!(instance.objects.len(), 2);
    match instance.objects[0].role {
        Role::Ship(st) => assert_eq!(st.shot_cooldown, 990_000),
        _ => panic!("ship lost its role"),
    }
    let p = instance.objects[1];
    assert!(matches!(p.role, Role::Projectile));
    // cos(0) = 1, sin(0) = 0 exactly: the projectile sits two thirds of
    // the ship's size ahead on the x-axis and flies at muzzle speed.
    assert_eq!(p.position, V2 { x: 10_666_666, y: 0 });
    assert_eq!(p.velocity, V2 { x: 800_000, y: 0 });
    assert_eq!(p.orientation, 0);
    assert_eq!(p.mass, PROJECTILE_MASS);
    assert_eq!(p.size, PROJECTILE_SIZE);
    assert_eq!(p.survivability, Some(1));
    assert_eq!(p.sprite, 3);
    // Second tick: cooldown 0.99 blocks the trigger.
    instance.interact(&controls);
    assert_eq!(instance.objects.len(), 2);
    match instance.objects[0].role {
        Role::Ship(st) => assert_eq!(st.shot_cooldown, 980_000),
        _ => panic!("ship lost its role"),
    }
}

/// The cooldown never leaves [0, COOLDOWN_MAX], under any signal stream.
#[test]
fn cooldown_stays_clamped() {
    let ship = SpaceObject::ship(V2 { x: 0, y: 0 }, V2 { x: 0, y: 0 }, 1, 0);
    let mut instance = OrbitsInstance { objects: vec![ship], sprites: sprites() };
    for tick in 0..250 {
        let fire = tick % 7 != 0;
        let controls = vec![ControlState {
            accelerate: false,
            turn_left: false,
            turn_right: false,
            fire,
        }];
        instance.interact(&controls);
        match instance.objects[0].role {
            Role::Ship(st) => {
                assert!(st.shot_cooldown >= 0);
                assert!(st.shot_cooldown <= orbits::fx::COOLDOWN_MAX);
            },
            _ => panic!("ship lost its role"),
        }
    }
}

/// Two entities of size 16 whose centers sit 15 apart overlap
/// (2 * 15 < 16 + 16) and each absorbs exactly one decrement per
/// overlapping tick.
#[test]
fn overlapping_pair_decrements_once_each() {
    let mut a = SpaceObject::ship(V2 { x: 0, y: 0 }, V2 { x: 0, y: 0 }, 1, 0);
    let mut b = SpaceObject::ship(V2 { x: 15_000_000, y: 0 }, V2 { x: 0, y: 0 }, 1, 1);
    a.collide(&mut b);
    assert_eq!(a.survivability, Some(2));
    assert_eq!(b.survivability, Some(2));
    a.collide(&mut b);
    assert_eq!(a.survivability, Some(1));
    assert_eq!(b.survivability, Some(1));
}

/// Two ships that stay overlapped are both destroyed once their three
/// collisions are spent, and gone from the live set on that tick.
#[test]
fn ships_destroyed_after_three_overlapping_ticks() {
    let a = SpaceObject::ship(V2 { x: 0, y: 0 }, V2 { x: 0, y: 0 }, 1, 0);
    let b = SpaceObject::ship(V2 { x: 15_000_000, y: 0 }, V2 { x: 0, y: 0 }, 1, 1);
    let mut instance = OrbitsInstance { objects: vec![a, b], sprites: sprites() };
    instance.update();
    assert_eq!(instance.objects.len(), 2);
    assert_eq!(instance.objects[0].survivability, Some(2));
    instance.update();
    assert_eq!(instance.objects.len(), 2);
    assert_eq!(instance.objects[0].survivability, Some(1));
    instance.update();
    assert_eq!(instance.objects.len(), 0);
}

/// An empty live set survives a tick untouched.
#[test]
fn empty_set_ticks_quietly() {
    let mut instance = OrbitsInstance { objects: vec![], sprites: sprites() };
    instance.interact(&vec![]);
    instance.update();
    assert_eq!(instance.objects.len(), 0);
    assert_eq!(instance.render_frame().len(), 0);
}

/// Centers a full size sum apart do not overlap: the test is strict.
#[test]
fn touching_pair_does_not_collide() {
    let mut a = SpaceObject::ship(V2 { x: 0, y: 0 }, V2 { x: 0, y: 0 }, 1, 0);
    let mut b = SpaceObject::ship(V2 { x: 16_000_000, y: 0 }, V2 { x: 0, y: 0 }, 1, 1);
    a.collide(&mut b);
    assert_eq!(a.survivability, Some(3));
    assert_eq!(b.survivability, Some(3));
}

/// An indestructible body shrugs a collision off while the destructible
/// partner still takes its decrement.
#[test]
fn indestructible_partner_is_unaffected() {
    let mut sun = SpaceObject::body(V2 { x: 0, y: 0 }, V2 { x: 0, y: 0 }, 1_024_000_000, 96_000_000, 4);
    let mut ship = SpaceObject::ship(V2 { x: 20_000_000, y: 0 }, V2 { x: 0, y: 0 }, 1, 0);
    sun.collide(&mut ship);
    assert_eq!(sun.survivability, None);
    assert_eq!(ship.survivability, Some(2));
}

/// A projectile with one collision left is gone after the first tick in
/// which it overlaps another entity; the indestructible partner stays.
#[test]
fn projectile_is_removed_on_first_hit() {
    let sun = SpaceObject::body(V2 { x: 0, y: 0 }, V2 { x: 0, y: 0 }, 1_024_000_000, 96_000_000, 4);
    let projectile = SpaceObject {
        position: V2 { x: 40_000_000, y: 0 },
        velocity: V2 { x: 0, y: 0 },
        orientation: 0,
        mass: PROJECTILE_MASS,
        size: PROJECTILE_SIZE,
        sprite: 3,
        role: Role::Projectile,
        survivability: Some(1),
    };
    let mut instance = OrbitsInstance { objects: vec![sun, projectile], sprites: sprites() };
    instance.update();
    assert_eq!(instance.objects.len(), 1);
    assert!(matches!(instance.objects[0].role, Role::CelestialBody));
}

/// A projectile that overlaps nothing is never removed early: its
/// counter still reads one after a quiet tick.
#[test]
fn projectile_without_overlap_survives() {
    let sun = SpaceObject::body(V2 { x: 0, y: 0 }, V2 { x: 0, y: 0 }, 1_024_000_000, 96_000_000, 4);
    let projectile = SpaceObject {
        position: V2 { x: 500_000_000, y: 0 },
        velocity: V2 { x: 0, y: 0 },
        orientation: 0,
        mass: PROJECTILE_MASS,
        size: PROJECTILE_SIZE,
        sprite: 3,
        role: Role::Projectile,
        survivability: Some(1),
    };
    let mut instance = OrbitsInstance { objects: vec![sun, projectile], sprites: sprites() };
    instance.update();
    assert_eq!(instance.objects.len(), 2);
    assert_eq!(instance.objects[1].survivability, Some(1));
}

/// A non-ship carried past the escape distance by integration is absent
/// from the very next frame.
#[test]
fn escaped_body_is_culled() {
    let runaway = SpaceObject::body(
        V2 { x: 999_900_000, y: 0 },
        V2 { x: 200_000, y: 0 },
        1_000_000,
        1_000_000,
        0,
    );
    let mut instance = OrbitsInstance { objects: vec![runaway], sprites: sprites() };
    instance.update();
    assert_eq!(instance.objects.len(), 0);
    assert_eq!(instance.render_frame().len(), 0);
}

/// A ship in the same runaway state is exempt from distance culling.
#[test]
fn escaped_ship_is_kept() {
    let runaway = SpaceObject::ship(
        V2 { x: 999_900_000, y: 0 },
        V2 { x: 200_000, y: 0 },
        1,
        0,
    );
    let mut instance = OrbitsInstance { objects: vec![runaway], sprites: sprites() };
    instance.update();
    assert_eq!(instance.objects.len(), 1);
    assert!(instance.objects[0].position.x > 1_000_000_000);
}

/// A body exactly on the escape circle is kept: culling is strict.
#[test]
fn body_on_escape_circle_is_kept() {
    let edge = SpaceObject::body(
        V2 { x: 1_000_000_000, y: 0 },
        V2 { x: 0, y: 0 },
        1_000_000,
        1_000_000,
        0,
    );
    let mut instance = OrbitsInstance { objects: vec![edge], sprites: sprites() };
    instance.update();
    assert_eq!(instance.objects.len(), 1);
}

/// Steering: one tick of turn-left adds the rotational step, one tick of
/// turn-right wraps below zero back into the full circle, and thrust
/// adds the linear step along the facing and swaps the sprite.
#[test]
fn steering_turns_thrusts_and_swaps_sprites() {
    let ship = SpaceObject::ship(V2 { x: 0, y: 0 }, V2 { x: 0, y: 0 }, 1, 0);
    let mut instance = OrbitsInstance { objects: vec![ship], sprites: sprites() };
    let left = vec![ControlState { accelerate: false, turn_left: true, turn_right: false, fire: false }];
    instance.interact(&left);
    assert_eq!(instance.objects[0].orientation, 50_000);
    assert_eq!(instance.objects[0].sprite, 1);
    let right = vec![ControlState { accelerate: false, turn_left: false, turn_right: true, fire: false }];
    instance.interact(&right);
    instance.interact(&right);
    assert_eq!(instance.objects[0].orientation, 6_283_184 - 50_000);
    let thrust = vec![ControlState { accelerate: true, turn_left: false, turn_right: false, fire: false }];
    let mut facing_x = SpaceObject::ship(V2 { x: 0, y: 0 }, V2 { x: 0, y: 0 }, 1, 0);
    facing_x.orientation = 0;
    let mut instance2 = OrbitsInstance { objects: vec![facing_x], sprites: sprites() };
    instance2.interact(&thrust);
    assert_eq!(instance2.objects[0].velocity, V2 { x: 1_000, y: 0 });
    assert_eq!(instance2.objects[0].sprite, 2);
}

/// A ship whose channel is out of range reads the neutral signal.
#[test]
fn out_of_range_channel_is_neutral() {
    let ship = SpaceObject::ship(V2 { x: 0, y: 0 }, V2 { x: 0, y: 0 }, 1, 5);
    let mut instance = OrbitsInstance { objects: vec![ship], sprites: sprites() };
    let controls = vec![fire_only()];
    instance.interact(&controls);
    assert_eq!(instance.objects.len(), 1);
    assert_eq!(instance.objects[0].velocity, V2 { x: 0, y: 0 });
}

/// Spawned projectiles are appended after the whole fleet, in fleet
/// order, and do not react to input on the tick they are born.
#[test]
fn spawns_are_buffered_and_appended() {
    let s0 = SpaceObject::ship(V2 { x: 0, y: 0 }, V2 { x: 0, y: 0 }, 1, 0);
    let s1 = SpaceObject::ship(V2 { x: 100_000_000, y: 0 }, V2 { x: 0, y: 0 }, 1, 1);
    let mut instance = OrbitsInstance { objects: vec![s0, s1], sprites: sprites() };
    let controls = vec![fire_only(), fire_only()];
    instance.interact(&controls);
    assert_eq!(instance.objects.len(), 4);
    assert!(matches!(instance.objects[0].role, Role::Ship(_)));
    assert!(matches!(instance.objects[1].role, Role::Ship(_)));
    assert!(matches!(instance.objects[2].role, Role::Projectile));
    assert!(matches!(instance.objects[3].role, Role::Projectile));
    assert_eq!(instance.objects[2].position.x, 10_666_666);
    assert_eq!(instance.objects[3].position.x, 110_666_666);
}

/// The standard scenario: two mirrored ships on channels 0 and 1 and a
/// heavy sun at the origin.
#[test]
fn new_instance_holds_standard_scenario() {
    let instance = OrbitsInstance::new(sprites());
    assert_eq!(instance.objects.len(), 3);
    let s0 = instance.objects[0];
    assert_eq!(s0.position, V2 { x: 256_000_000, y: 0 });
    assert_eq!(s0.velocity, V2 { x: 0, y: 600_000 });
    assert_eq!(s0.mass, SHIP_MASS);
    assert_eq!(s0.size, SHIP_SIZE);
    assert!(s0.is_ship());
    let s1 = instance.objects[1];
    assert_eq!(s1.position, V2 { x: -256_000_000, y: 0 });
    assert_eq!(s1.velocity, V2 { x: 0, y: -600_000 });
    let sun = instance.objects[2];
    assert_eq!(sun.mass, 1_024_000_000);
    assert_eq!(sun.size, 96_000_000);
    assert!(!sun.is_ship());
    assert_eq!(sun.survivability, None);
}

/// The render frame lists every live entity in order with its pose,
/// size and sprite handle.
#[test]
fn render_frame_matches_live_set() {
    let instance = OrbitsInstance::new(sprites());
    let frame = instance.render_frame();
    assert_eq!(frame.len(), 3);
    for (entry, obj) in frame.iter().zip(instance.objects.iter()) {
        assert_eq!(entry.position, obj.position);
        assert_eq!(entry.orientation, obj.orientation);
        assert_eq!(entry.size, obj.size);
        assert_eq!(entry.sprite, obj.sprite);
    }
    assert_eq!(frame[2].sprite, 4);
}

/// Accessors read back what the constructors stored.
#[test]
fn accessors_match_construction() {
    let ship = SpaceObject::ship(V2 { x: 7, y: -9 }, V2 { x: 3, y: 4 }, 11, 0);
    assert_eq!(ship.get_position(), V2 { x: 7, y: -9 });
    assert_eq!(ship.get_velocity(), V2 { x: 3, y: 4 });
    assert_eq!(ship.get_mass(), SHIP_MASS);
    assert!(ship.is_ship());
    assert!(ship.collisions_left());
    let body = SpaceObject::body(V2 { x: 1, y: 2 }, V2 { x: 0, y: 0 }, 5_000_000, 2_000_000, 12);
    assert!(!body.is_ship());
    assert_eq!(body.get_mass(), 5_000_000);
    assert!(body.collisions_left());
}

/// Movement without force translates by the velocity; with a force the
/// velocity first absorbs force over mass.
#[test]
fn movement_integrates_velocity_and_force() {
    let mut b = SpaceObject::body(V2 { x: 10, y: 20 }, V2 { x: 5, y: 7 }, 1_000_000, 1_000_000, 0);
    b.perform_movement(None);
    assert_eq!(b.position, V2 { x: 15, y: 27 });
    assert_eq!(b.velocity, V2 { x: 5, y: 7 });
    let mut c = SpaceObject::body(V2 { x: 0, y: 0 }, V2 { x: 0, y: 0 }, 2_000_000, 1_000_000, 0);
    c.perform_movement(Some(V2 { x: 9, y: -9 }));
    // 9 * SCALE / mass = 9_000_000 / 2_000_000 truncates to 4.
    assert_eq!(c.velocity, V2 { x: 4, y: -4 });
    assert_eq!(c.position, V2 { x: 4, y: -4 });
}
