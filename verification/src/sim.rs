//! The simulation driver: explicit composition of the components, run in
//! a fixed, visible order once per tick.
//!
//! Each tick, driven by an external clock with delta `dt`:
//! 1. spawn phase — the lifecycle manager drains the creation queue
//!    (timer-fired asteroid spawns, intent-fired projectile spawns) into
//!    the registry;
//! 2. control phase — the intent steers every ship;
//! 3. integration phase — every live entity advances by `dt`;
//! 4. detection phase — every collision set is recomputed from scratch;
//! 5. despawn phase — the distance and collision-policy predicates fill
//!    the removal queue, which is applied atomically before the tick
//!    ends, so the next tick starts from a consistent registry.

use vstd::prelude::*;
use crate::collision::{collides, detect, detection_fresh};
use crate::config::Config;
use crate::control::{fire_request, spec_projectile_request, spec_rolled,
    spec_steered, steer_ship, turned_angle, ControlIntent};
use crate::entity::{Entity, EntityKind, Orient, SimError, Transform};
use crate::fixed::{COORD_LIMIT, SCALE};
use crate::integrator::{integrate_all, integrated};
use crate::lifecycle::{apply_despawns, apply_spawns, asteroid_request_ok,
    asteroid_spawn_request, beyond, collision_despawns, copy_row, distance_despawns, far_ids,
    flagged_ids, kept_entities, row_preserved, SpawnRequest};
use crate::registry::Registry;
use crate::timer::SpawnTimer;
use crate::vec3::Vec3;

verus! {

/// One row of the per-tick outbound snapshot.
pub struct SnapshotRow {
    pub id: u64,
    pub kind: EntityKind,
    pub transform: Transform,
    pub radius: i64,
    pub colliding: Vec<u64>,
}

pub struct Simulation {
    pub config: Config,
    pub registry: Registry,
    pub timer: SpawnTimer,
}

impl Simulation {
    pub open spec fn wf(self) -> bool {
        &&& self.config.valid()
        &&& self.registry.wf()
        &&& self.timer.wf()
        &&& self.timer.elapsed < self.timer.interval
        &&& self.timer.interval == self.config.spawn_interval
        &&& self.timer.repeating
    }

    /// Builds a simulation from a configuration.  An invalid
    /// configuration is rejected here, before anything runs, and is never
    /// re-checked per tick.
    pub fn new(config: Config) -> (r: Result<Simulation, SimError>)
        ensures
            match r {
                Ok(s) => {
                    &&& config.valid()
                    &&& s.wf()
                    &&& s.config == config
                    &&& s.registry.entities@.len() == 0
                    &&& s.registry.next_id == 0
                    &&& s.timer.elapsed == 0
                },
                Err(e) => !config.valid() && e == SimError::Configuration,
            },
    {
        if config.check() {
            let timer = SpawnTimer::new(config.spawn_interval, true);
            Ok(Simulation { config, registry: Registry::new(), timer })
        } else {
            Err(SimError::Configuration)
        }
    }

    /// Startup spawn: creates a ship at `position` (clamped into the
    /// coordinate range), at rest, with the configured ship radius and
    /// the given visual model handle (which may be unresolved).
    pub fn spawn_ship(&mut self, position: Vec3, model: Option<u64>) -> (id: u64)
        requires
            old(self).wf(),
            old(self).registry.next_id < u64::MAX,
        ensures
            final(self).wf(),
            final(self).config == old(self).config,
            final(self).timer == old(self).timer,
            id == old(self).registry.next_id,
            final(self).registry.next_id == old(self).registry.next_id + 1,
            final(self).registry.entities@ == old(self).registry.entities@.push(
                Entity {
                    id,
                    kind: EntityKind::Ship,
                    transform: Transform {
                        position: (Vec3 {
                            x: crate::fixed::clamp(position.x as int, COORD_LIMIT as int) as i64,
                            y: crate::fixed::clamp(position.y as int, COORD_LIMIT as int) as i64,
                            z: crate::fixed::clamp(position.z as int, COORD_LIMIT as int) as i64,
                        }),
                        orientation: (Orient { yaw: 0i64, roll: 0i64 }),
                    },
                    velocity: (Vec3 { x: 0i64, y: 0i64, z: 0i64 }),
                    acceleration: (Vec3 { x: 0i64, y: 0i64, z: 0i64 }),
                    radius: old(self).config.ship_radius,
                    model,
                },
            ),
            final(self).registry.collisions@.len() == old(self).registry.collisions@.len() + 1,
            forall|i: int|
                0 <= i < old(self).registry.collisions@.len()
                    ==> #[trigger] final(self).registry.collisions@[i] == old(
                    self,
                ).registry.collisions@[i],
            final(self).registry.collisions@[old(self).registry.collisions@.len() as int]@.len()
                == 0,
            final(self).registry.has_id(id),
    {
        let p = position.clamped(COORD_LIMIT);
        self.registry.create(
            EntityKind::Ship,
            Transform { position: p, orientation: Orient { yaw: 0, roll: 0 } },
            Vec3 { x: 0, y: 0, z: 0 },
            Vec3 { x: 0, y: 0, z: 0 },
            self.config.ship_radius,
            model,
        )
    }

    /// Looks a live entity up by id; `NotFound` means "already gone".
    pub fn get(&self, id: u64) -> (r: Result<Entity, SimError>)
        requires
            self.wf(),
        ensures
            match r {
                Ok(e) => self.registry.has_id(id) && e == self.registry.entities@[self.registry.idx_of(id)],
                Err(err) => !self.registry.has_id(id) && err == SimError::NotFound,
            },
    {
        self.registry.get(id)
    }

    /// Removes an entity by id; removing an absent id is a no-op.  When
    /// the id is live, exactly its slot leaves both tables; everything
    /// else, including the id counter, is untouched.
    pub fn despawn(&mut self, id: u64)
        requires
            old(self).wf(),
        ensures
            final(self).wf(),
            final(self).config == old(self).config,
            final(self).timer == old(self).timer,
            final(self).registry.next_id == old(self).registry.next_id,
            !final(self).registry.has_id(id),
            !old(self).registry.has_id(id) ==> final(self).registry == old(self).registry,
            old(self).registry.has_id(id) ==> {
                let i = old(self).registry.idx_of(id);
                &&& final(self).registry.entities@ == old(self).registry.entities@.remove(i)
                &&& final(self).registry.collisions@ == old(self).registry.collisions@.remove(i)
            },
    {
        self.registry.remove(id);
    }

    /// The outbound per-tick view: one row per live entity, in registry
    /// order, with the entity's id, kind, transform, collider radius and
    /// recorded colliding set.
    pub fn snapshot(&self) -> (rows: Vec<SnapshotRow>)
        requires
            self.wf(),
        ensures
            rows@.len() == self.registry.entities@.len(),
            forall|i: int|
                0 <= i < rows@.len() ==> {
                    let e = self.registry.entities@[i];
                    &&& (#[trigger] rows@[i]).id == e.id
                    &&& rows@[i].kind == e.kind
                    &&& rows@[i].transform == e.transform
                    &&& rows@[i].radius == e.radius
                    &&& rows@[i].colliding@ == self.registry.collisions@[i]@
                },
    {
        let n = self.registry.entities.len();
        let mut rows: Vec<SnapshotRow> = Vec::new();
        let mut i: usize = 0;
        while i < n
            invariant
                self.wf(),
                n == self.registry.entities@.len(),
                0 <= i <= n,
                rows@.len() == i,
                forall|k: int|
                    0 <= k < i ==> {
                        let e = self.registry.entities@[k];
                        &&& (#[trigger] rows@[k]).id == e.id
                        &&& rows@[k].kind == e.kind
                        &&& rows@[k].transform == e.transform
                        &&& rows@[k].radius == e.radius
                        &&& rows@[k].colliding@ == self.registry.collisions@[k]@
                    },
            decreases n - i,
        {
            let e: Entity = self.registry.entities[i];
            let colliding = copy_row(&self.registry.collisions[i]);
            rows.push(
                SnapshotRow {
                    id: e.id,
                    kind: e.kind,
                    transform: e.transform,
                    radius: e.radius,
                    colliding,
                },
            );
            i += 1;
        }
        rows
    }
}

/// How many of the first `upto` entities are ships.
pub open spec fn ship_count(entities: Seq<Entity>, upto: int) -> int
    decreases upto,
{
    if upto <= 0 {
        0
    } else {
        ship_count(entities, upto - 1) + if entities[upto - 1].kind is Ship {
            1int
        } else {
            0int
        }
    }
}

/// There are never more ships than entities.
pub proof fn lemma_ship_count_bounds(entities: Seq<Entity>, upto: int)
    requires
        0 <= upto <= entities.len(),
    ensures
        0 <= ship_count(entities, upto) <= upto,
    decreases upto,
{
    if upto > 0 {
        lemma_ship_count_bounds(entities, upto - 1);
    }
}

/// What the control phase does to one entity: a ship takes the intent, an
/// asteroid spins at the configured roll speed, anything else is
/// untouched.
pub open spec fn control_step(
    pre: Entity,
    intent: ControlIntent,
    forward: Vec3,
    cfg: Config,
    dt: int,
) -> Entity {
    if pre.kind is Ship {
        spec_steered(pre, intent, forward, cfg, dt)
    } else if pre.kind is Asteroid {
        spec_rolled(pre, cfg.asteroid_roll_speed as int, dt)
    } else {
        pre
    }
}

/// One entity's whole tick: its control-phase step, then integration.
pub open spec fn entity_tick_step(
    pre: Entity,
    post: Entity,
    intent: ControlIntent,
    forward: Vec3,
    cfg: Config,
    dt: int,
) -> bool {
    integrated(control_step(pre, intent, forward, cfg, dt), post, dt)
}

/// The projectile requests the fire phase queues: one per ship, in index
/// order, each computed from the firing ship before it is steered.
pub open spec fn fire_requests(
    entities: Seq<Entity>,
    forward: Vec3,
    cfg: Config,
    upto: int,
) -> Seq<SpawnRequest>
    decreases upto,
{
    if upto <= 0 {
        Seq::empty()
    } else if entities[upto - 1].kind is Ship {
        fire_requests(entities, forward, cfg, upto - 1).push(
            spec_projectile_request(entities[upto - 1], forward, cfg),
        )
    } else {
        fire_requests(entities, forward, cfg, upto - 1)
    }
}

/// The creation queue one tick drains: the timer-fired asteroid request
/// (random, so a parameter here), then one projectile per ship while the
/// fire intent is held.
pub open spec fn tick_creations(
    pre: Simulation,
    dt: int,
    intent: ControlIntent,
    forward: Vec3,
    ast: SpawnRequest,
) -> Seq<SpawnRequest> {
    (if pre.timer.fires(dt) {
        seq![ast]
    } else {
        Seq::<SpawnRequest>::empty()
    }) + (if intent.fire {
        fire_requests(pre.registry.entities@, forward, pre.config, pre.registry.entities@.len() as int)
    } else {
        Seq::<SpawnRequest>::empty()
    })
}

/// The whole evolution of one tick, with the randomly drawn asteroid
/// request `ast` and the post-detection registry `mid` as witnesses.
///
/// The creation queue is determined by the timer and the intent; every
/// pre-existing entity is steered or rolled and then integrated in
/// place; the created entities are appended under the next fresh ids and
/// take the same per-entity step; `mid` carries a fresh detection pass
/// over that state; and the final registry is exactly `mid` minus the
/// despawn queue — the ids beyond the despawn distance or flagged by the
/// collision policy — applied atomically, survivors keeping their data
/// and rows.
pub open spec fn tick_trace(
    pre: Simulation,
    dt: int,
    intent: ControlIntent,
    forward: Vec3,
    ast: SpawnRequest,
    mid: Registry,
    post: Simulation,
) -> bool {
    let cfg = pre.config;
    let n0 = pre.registry.entities@.len() as int;
    let creations = tick_creations(pre, dt, intent, forward, ast);
    let nmid = mid.entities@.len() as int;
    let removals = far_ids(mid.entities@, cfg.despawn_distance as int, nmid) + flagged_ids(
        mid,
        cfg.policy,
        nmid,
    );
    &&& pre.timer.fires(dt) ==> asteroid_request_ok(cfg, ast)
    &&& mid.wf()
    &&& detection_fresh(mid)
    &&& nmid == n0 + creations.len()
    &&& mid.next_id == pre.registry.next_id + creations.len()
    &&& forall|i: int|
        0 <= i < n0 ==> entity_tick_step(
            pre.registry.entities@[i],
            #[trigger] mid.entities@[i],
            intent,
            forward,
            cfg,
            dt,
        )
    &&& forall|k: int|
        0 <= k < creations.len() ==> entity_tick_step(
            creations[k].to_entity((pre.registry.next_id + k) as u64),
            #[trigger] mid.entities@[n0 + k],
            intent,
            forward,
            cfg,
            dt,
        )
    &&& post.registry.entities@ == kept_entities(mid.entities@, removals, nmid)
    &&& post.registry.next_id == mid.next_id
    &&& forall|j: int|
        0 <= j < post.registry.entities@.len() ==> #[trigger] row_preserved(mid, post.registry, j)
    &&& forall|x: u64|
        #[trigger] post.registry.has_id(x) <==> (mid.has_id(x) && !removals.contains(x))
}

impl Simulation {
    /// Runs one full tick, in the fixed phase order documented on this
    /// module.
    ///
    /// `intent` is this tick's control intent; `ship_forward` is the
    /// forward direction (a fixed-point vector of magnitude `SCALE`) for
    /// the orientation a steered ship reaches this tick — computing a
    /// direction from accumulated angles takes trigonometry, so the
    /// caller supplies it (see `control::turned_angle`) and every promise
    /// below holds whatever value it has.
    ///
    /// The `tick_trace` clause pins the whole evolution of the entity
    /// list down: the creation queue is exactly one asteroid request when
    /// the timer fires plus one projectile per ship while the fire intent
    /// is held; every pre-existing entity is steered or rolled and then
    /// integrated in place; the created entities join under the next
    /// fresh ids; and the final list is exactly that state minus the ids
    /// beyond the despawn distance or flagged by the collision policy,
    /// survivors keeping their data and their fresh collision rows.  The
    /// remaining clauses restate the directly usable corollaries: the
    /// timer's exact advance, the exact id-counter growth, and that no
    /// survivor sits strictly beyond the despawn distance, none lists
    /// itself, a survivor's set mentions another survivor exactly when
    /// the two overlap, and no two survivors form a kind pair the policy
    /// removes.
    #[verifier::rlimit(100)]
    #[verifier::spinoff_prover]
    pub fn tick(&mut self, dt: i64, intent: ControlIntent, ship_forward: Vec3)
        requires
            old(self).wf(),
            0 <= dt,
            intent.valid(),
            ship_forward.in_box(SCALE as int),
            old(self).registry.next_id + old(self).registry.entities@.len() + 1 <= u64::MAX,
        ensures
            final(self).wf(),
            final(self).config == old(self).config,
            final(self).timer.interval == old(self).timer.interval,
            final(self).timer.repeating == old(self).timer.repeating,
            final(self).timer.elapsed == if old(self).timer.fires(dt as int) {
                0int
            } else {
                old(self).timer.elapsed + dt
            },
            final(self).registry.next_id == old(self).registry.next_id + (
            if old(self).timer.fires(dt as int) {
                1int
            } else {
                0int
            }) + (
            if intent.fire {
                ship_count(old(self).registry.entities@, old(self).registry.entities@.len() as int)
            } else {
                0int
            }),
            forall|j: int|
                0 <= j < final(self).registry.entities@.len() ==> !beyond(
                    #[trigger] final(self).registry.entities@[j],
                    old(self).config.despawn_distance as int,
                ),
            forall|j: int|
                0 <= j < final(self).registry.entities@.len()
                    ==> !final(self).registry.collisions@[j]@.contains(
                    (#[trigger] final(self).registry.entities@[j]).id,
                ),
            forall|i: int, j: int|
                0 <= i < final(self).registry.entities@.len()
                    && 0 <= j < final(self).registry.entities@.len() && i != j
                    ==> (#[trigger] final(self).registry.collisions@[i]@.contains(
                    final(self).registry.entities@[j].id,
                ) <==> collides(
                    final(self).registry.entities@[i],
                    final(self).registry.entities@[j],
                )),
            forall|i: int, j: int|
                0 <= i < final(self).registry.entities@.len()
                    && 0 <= j < final(self).registry.entities@.len() && i != j
                    && #[trigger] final(self).registry.collisions@[i]@.contains(final(self).registry.entities@[j].id)
                    ==> !old(self).config.policy.removes(
                    final(self).registry.entities@[i].kind,
                    final(self).registry.entities@[j].kind,
                ),
            exists|ast: SpawnRequest, mid: Registry|
                #[trigger] tick_trace(
                    *old(self),
                    dt as int,
                    intent,
                    ship_forward,
                    ast,
                    mid,
                    *final(self),
                ),
    {
        // 1. spawn phase: drain the creation queue into the registry.
        let fired = self.timer.tick(dt);
        let ghost t1 = self.timer;
        let mut creations: Vec<SpawnRequest> = Vec::new();
        if fired {
            let req = asteroid_spawn_request(&self.config);
            creations.push(req);
        }
        let ghost ast: SpawnRequest = creations@[0];
        let ghost base: Seq<SpawnRequest> = if fired {
            seq![ast]
        } else {
            Seq::<SpawnRequest>::empty()
        };
        proof {
            assert(creations@ =~= base);
        }
        let ghost reg0 = self.registry;
        if intent.fire {
            let n0 = self.registry.entities.len();
            let mut i: usize = 0;
            proof {
                assert(creations@ =~= base + fire_requests(
                    reg0.entities@,
                    ship_forward,
                    self.config,
                    0,
                ));
            }
            while i < n0
                invariant
                    self.registry == reg0,
                    self.config == old(self).config,
                    reg0.wf(),
                    self.config.valid(),
                    intent.valid(),
                    intent.fire,
                    ship_forward.in_box(SCALE as int),
                    n0 == self.registry.entities@.len(),
                    0 <= i <= n0,
                    creations@.len() == (if fired {
                        1int
                    } else {
                        0int
                    }) + ship_count(reg0.entities@, i as int),
                    creations@ == base + fire_requests(
                        reg0.entities@,
                        ship_forward,
                        self.config,
                        i as int,
                    ),
                    forall|k: int| 0 <= k < creations@.len() ==> (#[trigger] creations@[k]).wf(),
                decreases n0 - i,
            {
                let e: Entity = self.registry.entities[i];
                if matches!(e.kind, EntityKind::Ship) {
                    proof {
                        assert(self.registry.entities@[i as int].wf());
                    }
                    match fire_request(&e, &intent, ship_forward, &self.config) {
                        Some(req) => {
                            creations.push(req);
                            proof {
                                assert(req == spec_projectile_request(
                                    reg0.entities@[i as int],
                                    ship_forward,
                                    self.config,
                                ));
                                assert(creations@ =~= base + fire_requests(
                                    reg0.entities@,
                                    ship_forward,
                                    self.config,
                                    i as int + 1,
                                ));
                            }
                        }
                        None => {}
                    }
                }
                i += 1;
            }
        }
        proof {
            lemma_ship_count_bounds(reg0.entities@, reg0.entities@.len() as int);
            if intent.fire {
            } else {
                assert(creations@.len() == (if fired {
                    1int
                } else {
                    0int
                }));
            }
            assert(reg0 == old(self).registry);
            if intent.fire {
            } else {
                assert(creations@ =~= base + Seq::<SpawnRequest>::empty());
            }
            assert(creations@ == tick_creations(
                *old(self),
                dt as int,
                intent,
                ship_forward,
                ast,
            ));
        }
        apply_spawns(&mut self.registry, &creations);

        // 2. control phase: the intent steers every ship.
        let ghost reg1 = self.registry;
        let n = self.registry.entities.len();
        let mut i: usize = 0;
        while i < n
            invariant
                self.config == old(self).config,
                self.timer == t1,
                self.config.valid(),
                intent.valid(),
                0 <= dt,
                ship_forward.in_box(SCALE as int),
                n == self.registry.entities@.len(),
                n == reg1.entities@.len(),
                reg1.wf(),
                self.registry.collisions == reg1.collisions,
                self.registry.next_id == reg1.next_id,
                0 <= i <= n,
                forall|k: int|
                    0 <= k < n ==> (#[trigger] self.registry.entities@[k]).id
                        == reg1.entities@[k].id,
                forall|k: int| 0 <= k < n ==> (#[trigger] self.registry.entities@[k]).wf(),
                forall|k: int|
                    0 <= k < i ==> #[trigger] self.registry.entities@[k] == control_step(
                        reg1.entities@[k],
                        intent,
                        ship_forward,
                        self.config,
                        dt as int,
                    ),
                forall|k: int|
                    i <= k < n ==> #[trigger] self.registry.entities@[k] == reg1.entities@[k],
            decreases n - i,
        {
            let e: Entity = self.registry.entities[i];
            proof {
                assert(self.registry.entities@[i as int].wf());
            }
            if matches!(e.kind, EntityKind::Ship) {
                let mut e2: Entity = e;
                steer_ship(&mut e2, &intent, ship_forward, &self.config, dt);
                self.registry.entities.set(i, e2);
            } else if matches!(e.kind, EntityKind::Asteroid) {
                let mut e2: Entity = e;
                e2.transform.orientation.roll = turned_angle(
                    e2.transform.orientation.roll,
                    1,
                    self.config.asteroid_roll_speed,
                    dt,
                );
                proof {
                    assert(e2 == spec_rolled(e, self.config.asteroid_roll_speed as int, dt as int));
                    assert(e2.wf());
                }
                self.registry.entities.set(i, e2);
            }
            i += 1;
        }
        proof {
            assert forall|a: int, b: int|
                0 <= a < b < self.registry.entities@.len() implies #[trigger] self.registry.entities@[a].id != #[trigger] self.registry.entities@[b].id by {
                assert(reg1.entities@[a].id != reg1.entities@[b].id);
            }
            assert forall|a: int|
                0 <= a < self.registry.entities@.len() implies #[trigger] self.registry.entities@[a].id < self.registry.next_id by {
                assert(reg1.entities@[a].id < reg1.next_id);
            }
            assert(self.registry.wf());
        }

        // 3. integration phase.
        let ghost reg2 = self.registry;
        integrate_all(&mut self.registry, dt);

        // 4. detection phase.
        detect(&mut self.registry);
        let ghost mid = self.registry;

        // 5. despawn phase: evaluate both predicates, queue the removals,
        //    apply them atomically before the tick ends.
        let far = distance_despawns(&self.registry, self.config.despawn_distance);
        let ghost farv = far@;
        let flagged_q = collision_despawns(&self.registry, &self.config.policy);
        let mut removals = far;
        let fl = flagged_q.len();
        let mut k: usize = 0;
        while k < fl
            invariant
                fl == flagged_q@.len(),
                0 <= k <= fl,
                removals@ == farv + flagged_q@.subrange(0, k as int),
            decreases fl - k,
        {
            removals.push(flagged_q[k]);
            proof {
                assert(removals@ =~= farv + flagged_q@.subrange(0, k + 1));
            }
            k += 1;
        }
        proof {
            assert(removals@ =~= farv + flagged_q@);
        }
        apply_despawns(&mut self.registry, &removals);

        proof {
            let cfg = old(self).config;
            let fin = self.registry;
            // Every removal-queue membership splits over the two queues.
            assert forall|x: u64| #[trigger]
                removals@.contains(x) implies (farv.contains(x) || flagged_q@.contains(x)) by {
                let ix = choose|ix: int| 0 <= ix < removals@.len() && removals@[ix] == x;
                if ix < farv.len() {
                    assert(farv[ix] == x);
                } else {
                    assert(flagged_q@[ix - farv.len()] == x);
                }
            }
            assert forall|x: u64|
                farv.contains(x) || flagged_q@.contains(x) implies #[trigger] removals@.contains(
                x,
            ) by {
                if farv.contains(x) {
                    let ix = choose|ix: int| 0 <= ix < farv.len() && farv[ix] == x;
                    assert(removals@[ix] == x);
                } else {
                    let ix = choose|ix: int| 0 <= ix < flagged_q@.len() && flagged_q@[ix] == x;
                    assert(removals@[farv.len() + ix] == x);
                }
            }
            // Survivors sit within the despawn distance.
            assert forall|j: int|
                0 <= j < fin.entities@.len() implies !beyond(
                #[trigger] fin.entities@[j],
                cfg.despawn_distance as int,
            ) by {
                assert(row_preserved(mid, fin, j));
                let m = choose|i: int|
                    0 <= i < mid.entities@.len() && fin.entities@[j] == #[trigger] mid.entities@[i]
                        && fin.collisions@[j]@ == mid.collisions@[i]@;
                let e = fin.entities@[j];
                if beyond(e, cfg.despawn_distance as int) {
                    assert(mid.entities@[m].id == e.id && beyond(
                        mid.entities@[m],
                        cfg.despawn_distance as int,
                    ));
                    assert(farv.contains(e.id));
                    assert(removals@.contains(e.id));
                    assert(fin.has_id(e.id));
                    assert(mid.has_id(e.id) && !removals@.contains(e.id));
                }
            }
            // No survivor lists itself.
            assert forall|j: int|
                0 <= j < fin.entities@.len() implies !fin.collisions@[j]@.contains(
                (#[trigger] fin.entities@[j]).id,
            ) by {
                assert(row_preserved(mid, fin, j));
                let m = choose|i: int|
                    0 <= i < mid.entities@.len() && fin.entities@[j] == #[trigger] mid.entities@[i]
                        && fin.collisions@[j]@ == mid.collisions@[i]@;
                assert(!mid.collisions@[m]@.contains(mid.entities@[m].id));
            }
            // A survivor's set mentions another survivor exactly when the
            // two overlap, and never in a kind pair the policy removes.
            assert forall|a: int, b: int|
                0 <= a < fin.entities@.len() && 0 <= b < fin.entities@.len() && a
                    != b implies ((#[trigger] fin.collisions@[a]@.contains(fin.entities@[b].id)
                <==> collides(fin.entities@[a], fin.entities@[b])) && (fin.collisions@[a]@.contains(
                fin.entities@[b].id,
            ) ==> !cfg.policy.removes(fin.entities@[a].kind, fin.entities@[b].kind))) by {
                assert(row_preserved(mid, fin, a));
                assert(row_preserved(mid, fin, b));
                let ma = choose|i: int|
                    0 <= i < mid.entities@.len() && fin.entities@[a] == #[trigger] mid.entities@[i]
                        && fin.collisions@[a]@ == mid.collisions@[i]@;
                let mb = choose|i: int|
                    0 <= i < mid.entities@.len() && fin.entities@[b] == #[trigger] mid.entities@[i]
                        && fin.collisions@[b]@ == mid.collisions@[i]@;
                let ea = fin.entities@[a];
                let eb = fin.entities@[b];
                assert(ea.id != eb.id);
                assert(ma != mb);
                assert(mid.collisions@[ma]@.contains(mid.entities@[mb].id) <==> collides(
                    mid.entities@[ma],
                    mid.entities@[mb],
                ));
                if fin.collisions@[a]@.contains(eb.id) && cfg.policy.removes(ea.kind, eb.kind) {
                    // Then `ma` was flagged by the policy and `ea.id` queued.
                    assert(mid.has_id(eb.id));
                    mid.lemma_idx_of(mb, eb.id);
                    assert(mid.kind_of(eb.id) == eb.kind);
                    let kk = choose|kk: int|
                        0 <= kk < mid.collisions@[ma]@.len() && mid.collisions@[ma]@[kk] == eb.id;
                    assert(mid.collisions@[ma]@[kk] == eb.id && mid.has_id(eb.id)
                        && cfg.policy.removes(mid.entities@[ma].kind, mid.kind_of(eb.id)));
                    assert(crate::lifecycle::flagged_upto(
                        mid,
                        cfg.policy,
                        ma,
                        mid.collisions@[ma]@.len() as int,
                    ));
                    assert(crate::lifecycle::flagged(mid, cfg.policy, ma));
                    assert(mid.entities@[ma].id == ea.id);
                    assert(flagged_q@.contains(ea.id));
                    assert(removals@.contains(ea.id));
                    assert(fin.has_id(ea.id));
                    assert(mid.has_id(ea.id) && !removals@.contains(ea.id));
                }
            }
            // The whole tick trace, with the drawn asteroid request and
            // the post-detection registry as witnesses.
            let pre = *old(self);
            let n0 = pre.registry.entities@.len() as int;
            let cs = tick_creations(pre, dt as int, intent, ship_forward, ast);
            assert(cs == creations@);
            let nmid = mid.entities@.len() as int;
            assert(nmid == n0 + cs.len());
            assert(mid.next_id == pre.registry.next_id + cs.len());
            assert forall|i2: int| 0 <= i2 < n0 implies entity_tick_step(
                pre.registry.entities@[i2],
                #[trigger] mid.entities@[i2],
                intent,
                ship_forward,
                pre.config,
                dt as int,
            ) by {
                assert(reg1.entities@[i2] == reg0.entities@[i2]);
                assert(reg2.entities@[i2] == control_step(
                    reg1.entities@[i2],
                    intent,
                    ship_forward,
                    pre.config,
                    dt as int,
                ));
                assert(integrated(reg2.entities@[i2], mid.entities@[i2], dt as int));
            }
            assert forall|k2: int| 0 <= k2 < cs.len() implies entity_tick_step(
                cs[k2].to_entity((pre.registry.next_id + k2) as u64),
                #[trigger] mid.entities@[n0 + k2],
                intent,
                ship_forward,
                pre.config,
                dt as int,
            ) by {
                assert(reg1.entities@[n0 + k2] == creations@[k2].to_entity(
                    (pre.registry.next_id + k2) as u64,
                ));
                assert(reg2.entities@[n0 + k2] == control_step(
                    reg1.entities@[n0 + k2],
                    intent,
                    ship_forward,
                    pre.config,
                    dt as int,
                ));
                assert(integrated(reg2.entities@[n0 + k2], mid.entities@[n0 + k2], dt as int));
            }
            assert(removals@ == far_ids(mid.entities@, pre.config.despawn_distance as int, nmid)
                + flagged_ids(mid, pre.config.policy, nmid));
            assert(fin.entities@ == kept_entities(mid.entities@, removals@, nmid));
            assert(tick_trace(pre, dt as int, intent, ship_forward, ast, mid, *self));
        }
    }
}

} // verus!
