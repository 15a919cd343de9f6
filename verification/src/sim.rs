//! The simulation controller: owns the live entity set and drives one
//! tick after another in strict order — input application with buffered
//! projectile spawning, synchronized gravity and Euler integration over a
//! single position snapshot, pairwise collision bookkeeping applied in a
//! second pass, then culling of destroyed and escaped entities.
//!
//! The host loop calls `interact`, then `update`, then `render_frame`,
//! once per frame: a projectile spawned by `interact` is part of the live
//! set for the physics of the same tick.

use vstd::prelude::*;
use vstd::pervasive::VecAdditionalExecFns;
use crate::fx::{FORCE_BOUND, ESCAPE_DISTANCE, V2, clip, in_force};
use crate::space_object::{
    SpaceObject, Role, ShipState, ControlState, SpriteSet, RenderEntry, force_between, moved,
    drained, overlap, overlaps, interacted, interact_spawns, channel_of, gravity_between,
};
use crate::fx::{SHIP_MASS, SHIP_SIZE, SHIP_SURVIVABILITY};

verus! {

/// Net force on entry `i` from the first `k` entries of the snapshot:
/// per-pair pulls accumulated left to right with saturating addition.
/// The pull of an entity on itself is zero, so `i` itself is included.
pub open spec fn net_force_prefix(s: Seq<SpaceObject>, i: int, k: int) -> (int, int)
    decreases k,
{
    if k <= 0 {
        (0int, 0int)
    } else {
        let p = net_force_prefix(s, i, k - 1);
        let f = force_between(s[i], s[k - 1]);
        (clip(p.0 + f.0, FORCE_BOUND as int), clip(p.1 + f.1, FORCE_BOUND as int))
    }
}

/// Net gravitational force on entry `i` from the whole snapshot.
pub open spec fn net_force(s: Seq<SpaceObject>, i: int) -> (int, int) {
    net_force_prefix(s, i, s.len() as int)
}

/// The accumulated force always stays in the force range.
pub proof fn lemma_net_force_prefix_in_range(s: Seq<SpaceObject>, i: int, k: int)
    ensures
        in_force(net_force_prefix(s, i, k).0),
        in_force(net_force_prefix(s, i, k).1),
    decreases k,
{
    if k <= 0 {
    } else {
        lemma_net_force_prefix_in_range(s, i, k - 1);
    }
}

/// Every entity after one synchronized Euler step: all forces are read
/// from the same snapshot before any entity moves.
pub open spec fn integrated(s: Seq<SpaceObject>) -> Seq<SpaceObject> {
    Seq::new(
        s.len(),
        |i: int|
            {
                let f = net_force(s, i);
                moved(s[i], Some(V2 { x: f.0 as i64, y: f.1 as i64 }))
            },
    )
}

/// How many of the first `k` entries other than `i` overlap entry `i`.
pub open spec fn overlap_count_upto(s: Seq<SpaceObject>, i: int, k: int) -> nat
    decreases k,
{
    if k <= 0 {
        0
    } else {
        overlap_count_upto(s, i, k - 1) + (if k - 1 != i && overlap(s[i], s[k - 1]) {
            1nat
        } else {
            0nat
        })
    }
}

/// How many other entities overlap entry `i` this tick.
pub open spec fn overlap_count(s: Seq<SpaceObject>, i: int) -> nat {
    overlap_count_upto(s, i, s.len() as int)
}

/// Every entity after collision resolution: each absorbs one hit per
/// overlapping partner, all tested on the same post-integration snapshot.
pub open spec fn collided(s: Seq<SpaceObject>) -> Seq<SpaceObject> {
    Seq::new(s.len(), |i: int| drained(s[i], overlap_count(s, i)))
}

/// Whether an entity's center is still within the escape bound.
pub open spec fn within_escape(o: SpaceObject) -> bool {
    o.position.x * o.position.x + o.position.y * o.position.y <= ESCAPE_DISTANCE
        * ESCAPE_DISTANCE
}

/// Whether an entity stays after culling: it must have collisions left,
/// and a non-ship must not have escaped (ships are exempt from distance
/// culling).
pub open spec fn keep(o: SpaceObject) -> bool {
    &&& o.collisions_left_spec()
    &&& (o.is_ship_spec() || within_escape(o))
}

/// The live set after culling, original order kept.
pub open spec fn culled(s: Seq<SpaceObject>) -> Seq<SpaceObject>
    decreases s.len(),
{
    if s.len() == 0 {
        s
    } else {
        let prefix = culled(s.drop_last());
        if keep(s.last()) {
            prefix.push(s.last())
        } else {
            prefix
        }
    }
}

/// One physics tick over the live set: synchronized gravity and Euler
/// integration, collision bookkeeping, then culling.
pub open spec fn physics_tick(s: Seq<SpaceObject>) -> Seq<SpaceObject> {
    culled(collided(integrated(s)))
}

/// Tests whether an entity survives culling this tick.
pub fn keep_entity(o: &SpaceObject) -> (r: bool)
    requires
        o.wf(),
    ensures
        r == keep(*o),
{
    let px: i128 = o.position.x as i128;
    let py: i128 = o.position.y as i128;
    proof {
        assert(px * px == o.position.x * o.position.x && py * py == o.position.y
            * o.position.y && 0 <= px * px <= 4_000_000_000_000_000_000 && 0 <= py * py
            <= 4_000_000_000_000_000_000) by (nonlinear_arith)
            requires
                -2_000_000_000 <= px <= 2_000_000_000,
                -2_000_000_000 <= py <= 2_000_000_000,
                px == o.position.x as int,
                py == o.position.y as int,
        ;
    }
    proof {
        assert((ESCAPE_DISTANCE as int) * (ESCAPE_DISTANCE as int)
            == 1_000_000_000_000_000_000) by (nonlinear_arith)
            requires
                ESCAPE_DISTANCE == 1_000_000_000,
        ;
    }
    let within: bool = px * px + py * py <= 1_000_000_000_000_000_000i128;
    (within || o.is_ship()) && o.collisions_left()
}

/// The signal an entity reads this tick: a ship polls its channel in
/// `controls`; anything else, and a ship whose channel is out of range,
/// reads the neutral signal.
pub open spec fn control_for(controls: Seq<ControlState>, o: SpaceObject) -> ControlState {
    if o.role is Ship && channel_of(o) < controls.len() {
        controls[channel_of(o) as int]
    } else {
        ControlState { accelerate: false, turn_left: false, turn_right: false, fire: false }
    }
}

/// Every entity after its input step.
pub open spec fn steered_all(
    s: Seq<SpaceObject>,
    controls: Seq<ControlState>,
    sp: SpriteSet,
) -> Seq<SpaceObject> {
    Seq::new(s.len(), |i: int| interacted(s[i], control_for(controls, s[i]), sp))
}

/// All projectiles spawned during the input pass, in fleet order.
pub open spec fn spawned_all(
    s: Seq<SpaceObject>,
    controls: Seq<ControlState>,
    sp: SpriteSet,
) -> Seq<SpaceObject>
    decreases s.len(),
{
    if s.len() == 0 {
        Seq::empty()
    } else {
        spawned_all(s.drop_last(), controls, sp) + interact_spawns(
            s.last(),
            control_for(controls, s.last()),
            sp,
        )
    }
}

/// The entity set a fresh instance starts from: two mirrored ships on
/// channels 0 and 1 orbiting a heavy sun at the origin.
pub open spec fn initial_objects(sprites: SpriteSet) -> Seq<SpaceObject> {
    seq![
        SpaceObject {
            position: V2 { x: 256_000_000, y: 0 },
            velocity: V2 { x: 0, y: 600_000 },
            orientation: 0,
            mass: SHIP_MASS,
            size: SHIP_SIZE,
            sprite: sprites.ship_idle,
            role: Role::Ship(ShipState { shot_cooldown: 0, channel: 0 }),
            survivability: Some(SHIP_SURVIVABILITY),
        },
        SpaceObject {
            position: V2 { x: -256_000_000i64, y: 0 },
            velocity: V2 { x: 0, y: -600_000i64 },
            orientation: 0,
            mass: SHIP_MASS,
            size: SHIP_SIZE,
            sprite: sprites.ship_idle,
            role: Role::Ship(ShipState { shot_cooldown: 0, channel: 1 }),
            survivability: Some(SHIP_SURVIVABILITY),
        },
        SpaceObject {
            position: V2 { x: 0, y: 0 },
            velocity: V2 { x: 0, y: 0 },
            orientation: 0,
            mass: 1_024_000_000,
            size: 96_000_000,
            sprite: sprites.sun,
            role: Role::CelestialBody,
            survivability: None::<u8>,
        },
    ]
}

/// An instance of the simulation: the live entity set and the sprite
/// handles handed to ships and projectiles.
pub struct OrbitsInstance {
    /// All objects being simulated.
    pub objects: Vec<SpaceObject>,
    /// Cached render-asset handles.
    pub sprites: SpriteSet,
}

impl OrbitsInstance {
    /// Every live entity is well-formed.
    pub open spec fn wf(self) -> bool {
        forall|i: int| 0 <= i < self.objects@.len() ==> self.objects@[i].wf()
    }

    /// Sets up the standard scenario: two mirrored ships and a sun.
    pub fn new(sprites: SpriteSet) -> (r: OrbitsInstance)
        ensures
            r.wf(),
            r.objects@ == initial_objects(sprites),
            r.sprites == sprites,
    {
        let mut objects: Vec<SpaceObject> = Vec::new();
        objects.push(
            SpaceObject::ship(
                V2 { x: 256_000_000, y: 0 },
                V2 { x: 0, y: 600_000 },
                sprites.ship_idle,
                0,
            ),
        );
        objects.push(
            SpaceObject::ship(
                V2 { x: -256_000_000i64, y: 0 },
                V2 { x: 0, y: -600_000i64 },
                sprites.ship_idle,
                1,
            ),
        );
        objects.push(
            SpaceObject::body(
                V2 { x: 0, y: 0 },
                V2 { x: 0, y: 0 },
                1_024_000_000,
                96_000_000,
                sprites.sun,
            ),
        );
        let r = OrbitsInstance { objects, sprites };
        proof {
            assert(r.objects@ =~= initial_objects(sprites));
        }
        r
    }

    /// Applies one tick of control signals to the whole fleet: each ship
    /// reads its channel and is stepped in place; projectiles spawned by
    /// firing ships are buffered and appended only after every ship has
    /// been processed, so a fresh projectile neither reacts to input nor
    /// shifts the iteration it was born in.
    pub fn interact(&mut self, controls: &Vec<ControlState>)
        requires
            old(self).wf(),
        ensures
            final(self).objects@ == steered_all(old(self).objects@, controls@, old(self).sprites)
                + spawned_all(old(self).objects@, controls@, old(self).sprites),
            final(self).sprites == old(self).sprites,
            final(self).wf(),
    {
        let ghost s0 = self.objects@;
        let ghost cs = controls@;
        let sprites: SpriteSet = self.sprites;
        let n: usize = self.objects.len();
        let mut buffer: Vec<SpaceObject> = Vec::new();
        let mut i: usize = 0;
        while i < n
            invariant
                self.sprites == sprites,
                n == s0.len(),
                self.objects@.len() == n,
                0 <= i <= n,
                forall|k: int| 0 <= k < s0.len() ==> s0[k].wf(),
                forall|k: int|
                    0 <= k < i ==> self.objects@[k] == interacted(
                        s0[k],
                        control_for(cs, s0[k]),
                        sprites,
                    ),
                forall|k: int| i <= k < n ==> self.objects@[k] == s0[k],
                buffer@ == spawned_all(s0.take(i as int), cs, sprites),
                forall|k: int| 0 <= k < self.objects@.len() ==> self.objects@[k].wf(),
                forall|k: int| 0 <= k < buffer@.len() ==> buffer@[k].wf(),
                cs == controls@,
            decreases n - i,
        {
            let mut obj: SpaceObject = self.objects[i];
            let ctl: ControlState = match obj.role {
                Role::Ship(st) => {
                    if st.channel < controls.len() {
                        controls[st.channel]
                    } else {
                        ControlState::idle()
                    }
                },
                _ => ControlState::idle(),
            };
            assert(ctl == control_for(cs, s0[i as int]));
            let mut spawned: Vec<SpaceObject> = obj.interact(ctl, sprites);
            self.objects.set(i, obj);
            buffer.append(&mut spawned);
            proof {
                assert(s0.take(i + 1 as int).drop_last() =~= s0.take(i as int));
                assert(s0.take(i + 1 as int).last() == s0[i as int]);
            }
            i = i + 1;
        }
        proof {
            assert(s0.take(n as int) =~= s0);
            assert(self.objects@ =~= steered_all(s0, cs, sprites));
        }
        self.objects.append(&mut buffer);
    }

    /// Runs the physics of one tick on the live set: computes every
    /// gravitational force from one position snapshot, then integrates,
    /// then counts circle overlaps on the moved snapshot and applies the
    /// survivability decrements in a separate pass, then culls destroyed
    /// and escaped entities.
    pub fn update(&mut self)
        requires
            old(self).wf(),
        ensures
            final(self).objects@ == physics_tick(old(self).objects@),
            forall|k: int|
                0 <= k < final(self).objects@.len() ==> keep(#[trigger] final(self).objects@[k]),
            final(self).sprites == old(self).sprites,
            final(self).wf(),
    {
        let ghost s0 = self.objects@;
        let ghost sp0 = self.sprites;
        let n: usize = self.objects.len();
        // Force pass: one consistent snapshot, no interleaved mutation.
        let mut forces: Vec<V2> = Vec::new();
        let mut i: usize = 0;
        while i < n
            invariant
                self.sprites == sp0,
                self.objects@ == s0,
                n == s0.len(),
                forall|k: int| 0 <= k < s0.len() ==> s0[k].wf(),
                0 <= i <= n,
                forces@.len() == i,
                forall|k: int|
                    0 <= k < i ==> (forces@[k].x as int, forces@[k].y as int) == net_force(s0, k),
            decreases n - i,
        {
            let mut acc_x: i64 = 0;
            let mut acc_y: i64 = 0;
            let mut j: usize = 0;
            while j < n
                invariant
                    self.sprites == sp0,
                    self.objects@ == s0,
                    n == s0.len(),
                    forall|k: int| 0 <= k < s0.len() ==> s0[k].wf(),
                    0 <= j <= n,
                    i < n,
                    acc_x as int == net_force_prefix(s0, i as int, j as int).0,
                    acc_y as int == net_force_prefix(s0, i as int, j as int).1,
                decreases n - j,
            {
                proof {
                    lemma_net_force_prefix_in_range(s0, i as int, j as int);
                }
                let f: V2 = gravity_between(&self.objects[i], &self.objects[j]);
                acc_x = crate::fx::sat_add_force(acc_x, f.x);
                acc_y = crate::fx::sat_add_force(acc_y, f.y);
                j = j + 1;
            }
            forces.push(V2 { x: acc_x, y: acc_y });
            i = i + 1;
        }
        // Integration pass.
        let mut i: usize = 0;
        while i < n
            invariant
                self.sprites == sp0,
                n == s0.len(),
                self.objects@.len() == n,
                forces@.len() == n,
                forall|k: int| 0 <= k < s0.len() ==> s0[k].wf(),
                forall|k: int|
                    0 <= k < n ==> (forces@[k].x as int, forces@[k].y as int) == net_force(s0, k),
                0 <= i <= n,
                forall|k: int| 0 <= k < i ==> self.objects@[k] == integrated(s0)[k],
                forall|k: int| i <= k < n ==> self.objects@[k] == s0[k],
                forall|k: int| 0 <= k < i ==> self.objects@[k].wf(),
            decreases n - i,
        {
            proof {
                lemma_net_force_prefix_in_range(s0, i as int, s0.len() as int);
                assert((forces@[i as int].x as int, forces@[i as int].y as int) == net_force(
                    s0,
                    i as int,
                ));
                assert(in_force(forces@[i as int].x as int));
                assert(in_force(forces@[i as int].y as int));
            }
            let mut obj: SpaceObject = self.objects[i];
            obj.perform_movement(Some(forces[i]));
            self.objects.set(i, obj);
            i = i + 1;
        }
        proof {
            assert(self.objects@ =~= integrated(s0));
        }
        let ghost t0 = self.objects@;
        // Collision pass one: count overlaps on the moved snapshot.
        let mut counts: Vec<usize> = Vec::new();
        let mut i: usize = 0;
        while i < n
            invariant
                self.sprites == sp0,
                self.objects@ == t0,
                n == t0.len(),
                forall|k: int| 0 <= k < t0.len() ==> t0[k].wf(),
                0 <= i <= n,
                counts@.len() == i,
                forall|k: int| 0 <= k < i ==> counts@[k] as nat == overlap_count(t0, k),
            decreases n - i,
        {
            let mut cnt: usize = 0;
            let mut j: usize = 0;
            while j < n
                invariant
                    self.sprites == sp0,
                    self.objects@ == t0,
                    n == t0.len(),
                    forall|k: int| 0 <= k < t0.len() ==> t0[k].wf(),
                    0 <= j <= n,
                    i < n,
                    cnt as nat == overlap_count_upto(t0, i as int, j as int),
                    cnt <= j,
                decreases n - j,
            {
                if j != i {
                    if overlaps(&self.objects[i], &self.objects[j]) {
                        cnt = cnt + 1;
                    }
                }
                j = j + 1;
            }
            counts.push(cnt);
            i = i + 1;
        }
        // Collision pass two: apply the decrements.
        let mut i: usize = 0;
        while i < n
            invariant
                self.sprites == sp0,
                n == t0.len(),
                self.objects@.len() == n,
                counts@.len() == n,
                forall|k: int| 0 <= k < t0.len() ==> t0[k].wf(),
                forall|k: int| 0 <= k < n ==> counts@[k] as nat == overlap_count(t0, k),
                0 <= i <= n,
                forall|k: int| 0 <= k < i ==> self.objects@[k] == collided(t0)[k],
                forall|k: int| i <= k < n ==> self.objects@[k] == t0[k],
                forall|k: int| 0 <= k < i ==> self.objects@[k].wf(),
            decreases n - i,
        {
            let mut obj: SpaceObject = self.objects[i];
            let cnt: usize = counts[i];
            match obj.survivability {
                Some(c) => {
                    let nc: u8 = if (c as usize) > cnt {
                        c - (cnt as u8)
                    } else {
                        0
                    };
                    obj.survivability = Some(nc);
                },
                None => {},
            }
            assert(obj == drained(t0[i as int], overlap_count(t0, i as int)));
            self.objects.set(i, obj);
            i = i + 1;
        }
        proof {
            assert(self.objects@ =~= collided(t0));
        }
        let ghost u0 = self.objects@;
        // Culling pass.
        let mut kept: Vec<SpaceObject> = Vec::new();
        let mut i: usize = 0;
        while i < n
            invariant
                self.sprites == sp0,
                self.objects@ == u0,
                n == u0.len(),
                forall|k: int| 0 <= k < u0.len() ==> u0[k].wf(),
                0 <= i <= n,
                kept@ == culled(u0.take(i as int)),
                forall|k: int| 0 <= k < kept@.len() ==> kept@[k].wf(),
            decreases n - i,
        {
            let obj: SpaceObject = self.objects[i];
            proof {
                assert(u0.take(i + 1 as int).drop_last() =~= u0.take(i as int));
                assert(u0.take(i + 1 as int).last() == u0[i as int]);
            }
            if keep_entity(&obj) {
                kept.push(obj);
            }
            i = i + 1;
        }
        proof {
            assert(u0.take(n as int) =~= u0);
            crate::laws::lemma_culled_keeps(u0);
        }
        self.objects = kept;
    }

    /// The ordered render snapshot of all live entities, produced once
    /// per tick after culling: pose, size and sprite handle of each.
    pub fn render_frame(&self) -> (r: Vec<RenderEntry>)
        ensures
            r@.len() == self.objects@.len(),
            forall|i: int|
                0 <= i < r@.len() ==> r@[i] == (RenderEntry {
                    position: self.objects@[i].position,
                    orientation: self.objects@[i].orientation,
                    size: self.objects@[i].size,
                    sprite: self.objects@[i].sprite,
                }),
    {
        let mut r: Vec<RenderEntry> = Vec::new();
        let n: usize = self.objects.len();
        let mut i: usize = 0;
        while i < n
            invariant
                n == self.objects@.len(),
                0 <= i <= n,
                r@.len() == i,
                forall|k: int|
                    0 <= k < i ==> r@[k] == (RenderEntry {
                        position: self.objects@[k].position,
                        orientation: self.objects@[k].orientation,
                        size: self.objects@[k].size,
                        sprite: self.objects@[k].sprite,
                    }),
            decreases n - i,
        {
            let entry: RenderEntry = self.objects[i].render_info();
            r.push(entry);
            i = i + 1;
        }
        r
    }
}

} // verus!
