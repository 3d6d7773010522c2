//! End-to-end scenarios for the simulation core.

use space_sim::collision::detect;
use space_sim::config::Config;
use space_sim::control::ControlIntent;
use space_sim::entity::{EntityKind, Orient, SimError, Transform};
use space_sim::lifecycle::{apply_despawns, collision_despawns, distance_despawns};
use space_sim::policy::CollisionPolicy;
use space_sim::registry::Registry;
use space_sim::sim::Simulation;
use space_sim::vec3::Vec3;

fn at(x: i64, y: i64, z: i64) -> Transform {
    Transform {
        position: Vec3 { x, y, z },
        orientation: Orient { yaw: 0, roll: 0 },
    }
}

fn zero() -> Vec3 {
    Vec3 { x: 0, y: 0, z: 0 }
}

fn spawn(reg: &mut Registry, kind: EntityKind, x: i64, z: i64, radius: i64) -> u64 {
    reg.create(kind, at(x, 0, z), zero(), zero(), radius, None)
}

/// Two unit-radius entities 1.5 apart overlap (1.5 < 2); moved 3 apart
/// they do not (3 >= 2), and both sets come back empty.
#[test]
fn scenario_close_then_apart() {
    let mut reg = Registry::new();
    let a = spawn(&mut reg, EntityKind::Asteroid, 0, 0, 1000);
    let b = spawn(&mut reg, EntityKind::Asteroid, 1500, 0, 1000);
    detect(&mut reg);
    assert_eq!(reg.collisions[0], vec![b]);
    assert_eq!(reg.collisions[1], vec![a]);

    let mut far = Registry::new();
    let _a2 = spawn(&mut far, EntityKind::Asteroid, 0, 0, 1000);
    let _b2 = spawn(&mut far, EntityKind::Asteroid, 3000, 0, 1000);
    detect(&mut far);
    assert!(far.collisions[0].is_empty());
    assert!(far.collisions[1].is_empty());
}

/// Two colliding asteroids are both retained; an asteroid colliding with
/// a projectile is removed while the projectile is retained.
#[test]
fn scenario_asteroid_policy() {
    let policy = CollisionPolicy::standard();

    let mut rocks = Registry::new();
    spawn(&mut rocks, EntityKind::Asteroid, 0, 0, 2500);
    spawn(&mut rocks, EntityKind::Asteroid, 1000, 0, 2500);
    detect(&mut rocks);
    assert!(!rocks.collisions[0].is_empty());
    let removals = collision_despawns(&rocks, &policy);
    assert!(removals.is_empty());
    apply_despawns(&mut rocks, &removals);
    assert_eq!(rocks.entities.len(), 2);

    let mut mixed = Registry::new();
    let rock = spawn(&mut mixed, EntityKind::Asteroid, 0, 0, 2500);
    let shot = spawn(&mut mixed, EntityKind::Projectile, 1000, 0, 1000);
    detect(&mut mixed);
    let removals = collision_despawns(&mixed, &policy);
    assert_eq!(removals, vec![rock]);
    apply_despawns(&mut mixed, &removals);
    assert_eq!(mixed.entities.len(), 1);
    assert_eq!(mixed.entities[0].id, shot);
}

/// An entity exactly at the despawn threshold is retained; one past it is
/// removed.
#[test]
fn despawn_distance_boundary() {
    let threshold = 100_000;
    let mut reg = Registry::new();
    let on_edge = spawn(&mut reg, EntityKind::Ship, threshold, 0, 1000);
    let past_edge = spawn(&mut reg, EntityKind::Ship, 0, threshold + 1, 1000);
    let ids = distance_despawns(&reg, threshold);
    assert_eq!(ids, vec![past_edge]);
    apply_despawns(&mut reg, &ids);
    assert_eq!(reg.entities.len(), 1);
    assert_eq!(reg.entities[0].id, on_edge);
}

/// The same boundary through a whole tick of the driver.
#[test]
fn despawn_distance_boundary_through_tick() {
    let cfg = Config::standard();
    let threshold = cfg.despawn_distance;

    let mut sim = Simulation::new(Config::standard()).unwrap();
    let kept = sim.spawn_ship(Vec3 { x: threshold, y: 0, z: 0 }, None);
    sim.tick(0, ControlIntent::none(), Vec3 { x: 0, y: 0, z: -1000 });
    assert!(sim.get(kept).is_ok());

    let mut sim = Simulation::new(Config::standard()).unwrap();
    let gone = sim.spawn_ship(Vec3 { x: threshold + 1, y: 0, z: 0 }, None);
    sim.tick(0, ControlIntent::none(), Vec3 { x: 0, y: 0, z: -1000 });
    assert_eq!(sim.get(gone), Err(SimError::NotFound));
}

/// Collision sets are symmetric and never contain the entity itself.
#[test]
fn collision_symmetry_and_no_self() {
    let mut reg = Registry::new();
    let ids = [
        spawn(&mut reg, EntityKind::Ship, 0, 0, 3000),
        spawn(&mut reg, EntityKind::Asteroid, 2000, 0, 2500),
        spawn(&mut reg, EntityKind::Projectile, -1500, 500, 1000),
        spawn(&mut reg, EntityKind::Asteroid, 90_000, 0, 2500),
    ];
    detect(&mut reg);
    for i in 0..ids.len() {
        assert!(!reg.collisions[i].contains(&ids[i]));
        for j in 0..ids.len() {
            if i != j {
                assert_eq!(
                    reg.collisions[i].contains(&ids[j]),
                    reg.collisions[j].contains(&ids[i]),
                );
            }
        }
    }
    // The far-away asteroid overlaps nothing.
    assert!(reg.collisions[3].is_empty());
}

/// Holding the fire intent spawns one projectile per tick, ahead of the
/// ship and moving forward at the configured speed.
#[test]
fn fire_intent_spawns_projectile() {
    let mut sim = Simulation::new(Config::standard()).unwrap();
    let ship = sim.spawn_ship(zero(), Some(7));
    let fire = ControlIntent {
        rotate: 0,
        thrust: 0,
        roll: 0,
        fire: true,
    };
    let forward = Vec3 { x: 0, y: 0, z: -1000 };
    sim.tick(0, fire, forward);
    assert_eq!(sim.registry.entities.len(), 2);
    let shot = &sim.registry.entities[1];
    assert_eq!(shot.kind, EntityKind::Projectile);
    assert_eq!(shot.transform.position, Vec3 { x: 0, y: 0, z: -7500 });
    assert_eq!(shot.velocity, Vec3 { x: 0, y: 0, z: -50_000 });
    assert_eq!(shot.radius, 1000);
    assert_eq!(shot.model, None);
    assert_ne!(shot.id, ship);

    // Level-triggered: the next tick with the intent held fires again.
    sim.tick(0, fire, forward);
    assert_eq!(sim.registry.entities.len(), 3);

    // Released, it stops.
    sim.tick(0, ControlIntent::none(), forward);
    assert_eq!(sim.registry.entities.len(), 3);
}

/// Rotation and thrust intents turn the ship and set its velocity from
/// the supplied forward direction.
#[test]
fn steering_applies_rotation_and_thrust() {
    let mut sim = Simulation::new(Config::standard()).unwrap();
    let ship = sim.spawn_ship(zero(), None);
    let intent = ControlIntent {
        rotate: 1,
        thrust: 1,
        roll: -1,
        fire: false,
    };
    let forward = Vec3 { x: 1000, y: 0, z: 0 };
    sim.tick(100, intent, forward);
    let e = sim.get(ship).unwrap();
    // 2500 units/time * 100 time / 1000 scale = 250 angle units.
    assert_eq!(e.transform.orientation.yaw, 250);
    assert_eq!(e.transform.orientation.roll, -250);
    // Full thrust: forward * 25000 / 1000.
    assert_eq!(e.velocity, Vec3 { x: 25_000, y: 0, z: 0 });
    // The position already picked the new velocity up (semi-implicit
    // Euler): 25000 * 100 / 1000 = 2500.
    assert_eq!(e.transform.position, Vec3 { x: 2500, y: 0, z: 0 });
}

/// A repeating timer with interval 1.0 ticked at 0.25 spawns exactly
/// every fourth tick, without drift.
#[test]
fn spawn_cadence_through_driver() {
    let mut sim = Simulation::new(Config::standard()).unwrap();
    assert_eq!(sim.config.spawn_interval, 1000);
    let forward = Vec3 { x: 0, y: 0, z: -1000 };
    let mut spawned_on = Vec::new();
    for tick_no in 1..=12u32 {
        let before = sim.registry.entities.len();
        sim.tick(250, ControlIntent::none(), forward);
        if sim.registry.entities.len() > before {
            spawned_on.push(tick_no);
        }
    }
    assert_eq!(spawned_on, vec![4, 8, 12]);
}

/// Timer-driven spawns land inside the configured bounds with bounded
/// random velocities.
#[test]
fn timer_spawn_is_within_bounds() {
    let cfg = Config::standard();
    for _ in 0..32 {
        let req = space_sim::lifecycle::asteroid_spawn_request(&cfg);
        assert_eq!(req.kind, EntityKind::Asteroid);
        let b = cfg.spawn_bounds;
        let p = req.transform.position;
        assert!(b.min_x <= p.x && p.x < b.max_x);
        assert_eq!(p.y, 0);
        assert!(b.min_z <= p.z && p.z < b.max_z);
        assert!(req.velocity.x.abs() <= cfg.velocity_scalar);
        assert_eq!(req.velocity.y, 0);
        assert!(req.velocity.z.abs() <= cfg.velocity_scalar);
        assert!(req.acceleration.x.abs() <= cfg.acceleration_scalar);
        assert!(req.acceleration.z.abs() <= cfg.acceleration_scalar);
        assert_eq!(req.radius, cfg.asteroid_radius);
        assert_eq!(req.model, None);
    }

    // Through the driver: a tick spanning the whole interval fires the
    // timer and the new asteroid is already integrated by one tick.
    let mut sim = Simulation::new(Config::standard()).unwrap();
    sim.tick(1000, ControlIntent::none(), Vec3 { x: 0, y: 0, z: -1000 });
    assert_eq!(sim.registry.entities.len(), 1);
    let rock = &sim.registry.entities[0];
    assert_eq!(rock.kind, EntityKind::Asteroid);
    let b = sim.config.spawn_bounds;
    let drift = sim.config.velocity_scalar + sim.config.acceleration_scalar;
    let p = rock.transform.position;
    assert!(b.min_x - drift <= p.x && p.x < b.max_x + drift);
    assert!(b.min_z - drift <= p.z && p.z < b.max_z + drift);
}

/// Asteroids spin: each tick adds the configured roll speed times dt to
/// their roll, while ships and projectiles keep theirs.
#[test]
fn asteroids_roll_each_tick() {
    let mut sim = Simulation::new(Config::standard()).unwrap();
    let rock = sim.registry.create(
        EntityKind::Asteroid,
        at(0, 0, 0),
        zero(),
        zero(),
        2500,
        None,
    );
    let ship = sim.spawn_ship(Vec3 { x: 10_000, y: 0, z: 0 }, None);
    sim.tick(100, ControlIntent::none(), Vec3 { x: 0, y: 0, z: -1000 });
    // 2500 units/time * 100 time / 1000 scale = 250 angle units.
    assert_eq!(sim.get(rock).unwrap().transform.orientation.roll, 250);
    assert_eq!(sim.get(ship).unwrap().transform.orientation.roll, 0);
    sim.tick(100, ControlIntent::none(), Vec3 { x: 0, y: 0, z: -1000 });
    assert_eq!(sim.get(rock).unwrap().transform.orientation.roll, 500);
}

/// The configured model handles ride along on timer- and intent-driven
/// spawns, and an unresolved handle is tolerated.
#[test]
fn spawn_model_handles_are_forwarded() {
    let mut cfg = Config::standard();
    cfg.asteroid_model = Some(5);
    cfg.projectile_model = Some(6);
    let rock = space_sim::lifecycle::asteroid_spawn_request(&cfg);
    assert_eq!(rock.model, Some(5));

    let mut sim = Simulation::new(cfg).unwrap();
    sim.spawn_ship(zero(), Some(7));
    let fire = ControlIntent {
        rotate: 0,
        thrust: 0,
        roll: 0,
        fire: true,
    };
    sim.tick(0, fire, Vec3 { x: 0, y: 0, z: -1000 });
    assert_eq!(sim.registry.entities[0].model, Some(7));
    assert_eq!(sim.registry.entities[1].model, Some(6));

    // Unresolved handles pass through unchanged.
    let bare = space_sim::lifecycle::asteroid_spawn_request(&Config::standard());
    assert_eq!(bare.model, None);
}

/// A spawned asteroid's velocity and acceleration are random unit
/// directions scaled to the configured magnitudes: the squared norm sits
/// in the truncation-tight band (s^2 - 4s - 2, s^2 * 251/250].
#[test]
fn spawn_directions_have_configured_magnitude() {
    let cfg = Config::standard();
    let vs = cfg.velocity_scalar;
    let ascl = cfg.acceleration_scalar;
    for _ in 0..64 {
        let req = space_sim::lifecycle::asteroid_spawn_request(&cfg);
        let v = req.velocity;
        let a = req.acceleration;
        let vn2 = v.x * v.x + v.z * v.z;
        let an2 = a.x * a.x + a.z * a.z;
        // 5000 +- ~10 and 1000 +- ~3, squared.
        assert!(vn2 >= vs * vs - 4 * vs - 2 && 250 * vn2 <= 251 * vs * vs);
        assert!(an2 >= ascl * ascl - 4 * ascl - 2 && 250 * an2 <= 251 * ascl * ascl);
        assert!(v.x.abs() <= vs && v.z.abs() <= vs);
        assert_eq!(v.y, 0);
        assert_eq!(a.y, 0);
    }
}

/// The snapshot reports every live entity in order with its recorded
/// colliding set.
#[test]
fn snapshot_reports_rows() {
    let mut sim = Simulation::new(Config::standard()).unwrap();
    let ship = sim.spawn_ship(Vec3 { x: 10, y: 20, z: 30 }, Some(42));
    sim.registry.create(
        EntityKind::Asteroid,
        at(1000, 0, 0),
        zero(),
        zero(),
        2500,
        None,
    );
    detect(&mut sim.registry);
    let rows = sim.snapshot();
    assert_eq!(rows.len(), 2);
    assert_eq!(rows[0].id, ship);
    assert_eq!(rows[0].kind, EntityKind::Ship);
    assert_eq!(rows[0].transform.position, Vec3 { x: 10, y: 20, z: 30 });
    assert_eq!(rows[0].radius, sim.config.ship_radius);
    assert_eq!(rows[0].colliding, vec![rows[1].id]);
    assert_eq!(rows[1].colliding, vec![ship]);
}
