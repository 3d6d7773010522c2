//! Unit tests for the individual components.

use space_sim::config::{Config, SpawnBounds};
use space_sim::entity::{EntityKind, Orient, SimError, Transform};
use space_sim::fixed::scale_mul_clamped;
use space_sim::integrator::integrate_all;
use space_sim::policy::CollisionPolicy;
use space_sim::random::{isqrt, sample_position, sample_scaled_direction};
use space_sim::util::{MyEnum, Rectangle};
use space_sim::registry::Registry;
use space_sim::sim::Simulation;
use space_sim::timer::SpawnTimer;
use space_sim::vec3::Vec3;

fn zero() -> Vec3 {
    Vec3 { x: 0, y: 0, z: 0 }
}

fn at(x: i64, y: i64, z: i64) -> Transform {
    Transform {
        position: Vec3 { x, y, z },
        orientation: Orient { yaw: 0, roll: 0 },
    }
}

#[test]
fn registry_create_get_remove() {
    let mut reg = Registry::new();
    let a = reg.create(EntityKind::Ship, at(1, 2, 3), zero(), zero(), 1000, Some(9));
    let b = reg.create(EntityKind::Asteroid, at(4, 5, 6), zero(), zero(), 2500, None);
    assert_ne!(a, b);
    assert_eq!(reg.next_id, 2);

    let got = reg.get(a).unwrap();
    assert_eq!(got.kind, EntityKind::Ship);
    assert_eq!(got.transform.position, Vec3 { x: 1, y: 2, z: 3 });
    assert_eq!(got.model, Some(9));

    reg.remove(a);
    assert_eq!(reg.get(a), Err(SimError::NotFound));
    assert!(reg.get(b).is_ok());
    // Idempotent: removing an absent id is a no-op.
    reg.remove(a);
    assert_eq!(reg.entities.len(), 1);
    // Ids are never reused.
    let c = reg.create(EntityKind::Projectile, at(0, 0, 0), zero(), zero(), 1000, None);
    assert_eq!(c, 2);
}

#[test]
fn get_mut_and_snapshot_stability() {
    let mut reg = Registry::new();
    let a = reg.create(EntityKind::Ship, at(0, 0, 0), zero(), zero(), 1000, None);
    let snap = reg.snapshot();
    match reg.get_mut(a) {
        Ok(e) => e.velocity = Vec3 { x: 9, y: 0, z: 0 },
        Err(_) => panic!("entity should be live"),
    }
    assert_eq!(reg.entities[0].velocity.x, 9);
    // The snapshot taken before the mutation is unaffected by it.
    assert_eq!(snap[0].velocity.x, 0);
    assert!(matches!(reg.get_mut(999), Err(SimError::NotFound)));
}

#[test]
fn repeating_timer_fires_on_the_boundary() {
    let mut t = SpawnTimer::new(1000, true);
    let mut fired = Vec::new();
    for _ in 0..8 {
        fired.push(t.tick(250));
    }
    assert_eq!(fired, vec![false, false, false, true, false, false, false, true]);
    // Reset-to-zero policy: no drift accumulates across firings.
    assert_eq!(t.elapsed, 0);
}

#[test]
fn one_shot_timer_fires_once() {
    let mut t = SpawnTimer::new(500, false);
    assert!(!t.tick(499));
    assert!(t.tick(1));
    assert!(!t.tick(10_000));
    assert!(!t.tick(10_000));
}

#[test]
fn oversized_tick_fires_once_and_resets() {
    let mut t = SpawnTimer::new(1000, true);
    assert!(t.tick(2500));
    assert_eq!(t.elapsed, 0);
}

/// Fixed dt, zero acceleration: after k ticks the position is exactly
/// p0 + v*dt*k (in world units; everything divides evenly here).
#[test]
fn integration_is_deterministic_and_linear() {
    let mut reg = Registry::new();
    reg.create(
        EntityKind::Ship,
        at(100, 0, -200),
        Vec3 { x: 2000, y: 0, z: -1000 },
        zero(),
        1000,
        None,
    );
    let dt = 500;
    let k = 4;
    for _ in 0..k {
        integrate_all(&mut reg, dt);
    }
    // Per tick: 2000 * 500 / 1000 = 1000 on x, -500 on z.
    let p = reg.entities[0].transform.position;
    assert_eq!(p, Vec3 { x: 100 + 1000 * k, y: 0, z: -200 - 500 * k });
    // Velocity untouched under zero acceleration.
    assert_eq!(reg.entities[0].velocity, Vec3 { x: 2000, y: 0, z: -1000 });
}

#[test]
fn acceleration_feeds_velocity_before_position() {
    let mut reg = Registry::new();
    reg.create(
        EntityKind::Asteroid,
        at(0, 0, 0),
        zero(),
        Vec3 { x: 1000, y: 0, z: 0 },
        1000,
        None,
    );
    integrate_all(&mut reg, 1000);
    // Semi-implicit Euler: v = 0 + 1000, then p = 0 + v*dt/scale = 1000.
    assert_eq!(reg.entities[0].velocity.x, 1000);
    assert_eq!(reg.entities[0].transform.position.x, 1000);
}

#[test]
fn configuration_is_validated_at_startup() {
    assert!(Simulation::new(Config::standard()).is_ok());

    let mut bad = Config::standard();
    bad.asteroid_radius = 0;
    assert!(matches!(Simulation::new(bad), Err(SimError::Configuration)));

    let mut bad = Config::standard();
    bad.spawn_interval = 0;
    assert!(matches!(Simulation::new(bad), Err(SimError::Configuration)));

    let mut bad = Config::standard();
    bad.spawn_bounds = SpawnBounds { min_x: 10, max_x: 10, min_z: 0, max_z: 5 };
    assert!(matches!(Simulation::new(bad), Err(SimError::Configuration)));

    let mut bad = Config::standard();
    bad.despawn_distance = -1;
    assert!(matches!(Simulation::new(bad), Err(SimError::Configuration)));
}

#[test]
fn error_descriptions() {
    assert_eq!(SimError::NotFound.describe(), "entity not found");
    assert_eq!(SimError::Configuration.describe(), "invalid configuration");
}

#[test]
fn policy_table_is_data_driven() {
    let p = CollisionPolicy::standard();
    assert!(p.applies(EntityKind::Asteroid, EntityKind::Ship));
    assert!(p.applies(EntityKind::Asteroid, EntityKind::Projectile));
    assert!(!p.applies(EntityKind::Asteroid, EntityKind::Asteroid));
    assert!(!p.applies(EntityKind::Ship, EntityKind::Asteroid));
    assert!(!p.applies(EntityKind::Projectile, EntityKind::Asteroid));

    // Extensible without touching the detector: add a rule and it holds.
    let mut q = CollisionPolicy::new();
    q.add_rule(EntityKind::Ship, EntityKind::Asteroid);
    assert!(q.applies(EntityKind::Ship, EntityKind::Asteroid));
    assert!(!q.applies(EntityKind::Asteroid, EntityKind::Ship));
}

#[test]
fn integer_square_root_exact_values() {
    assert_eq!(isqrt(0), 0);
    assert_eq!(isqrt(1), 1);
    assert_eq!(isqrt(15), 3);
    assert_eq!(isqrt(16), 4);
    assert_eq!(isqrt(2_000_000), 1414);
    assert_eq!(isqrt(u64::MAX), 4_294_967_295);
}

#[test]
fn scaled_directions_have_tight_magnitude() {
    // Whatever the draw, the magnitude is the scalar up to truncation:
    // norm^2 in (s^2 - 4s - 2, s^2 * 251/250].
    for &s in &[1000i64, 5000, 25000] {
        for _ in 0..64 {
            let v = sample_scaled_direction(s);
            assert_eq!(v.y, 0);
            let n2 = v.x * v.x + v.z * v.z;
            assert!(n2 >= s * s - 4 * s - 2);
            assert!(250 * n2 <= 251 * s * s);
            assert!(v.x.abs() <= s && v.z.abs() <= s);
        }
    }
}

#[test]
fn sampling_respects_its_bounds() {
    let bounds = SpawnBounds { min_x: -5000, max_x: 5000, min_z: 100, max_z: 101 };
    for _ in 0..64 {
        let p = sample_position(&bounds);
        assert!(bounds.min_x <= p.x && p.x < bounds.max_x);
        assert_eq!(p.y, 0);
        assert_eq!(p.z, 100);

        let v = sample_scaled_direction(5000);
        assert!(v.x.abs() <= 5000);
        assert_eq!(v.y, 0);
        assert!(v.z.abs() <= 5000);
    }
}

#[test]
fn fixed_point_products_truncate_toward_zero() {
    assert_eq!(scale_mul_clamped(1500, 1, i64::MAX), 1);
    assert_eq!(scale_mul_clamped(-1500, 1, i64::MAX), -1);
    assert_eq!(scale_mul_clamped(2500, 2000, i64::MAX), 5000);
    assert_eq!(scale_mul_clamped(2500, 2000, 4000), 4000);
    assert_eq!(scale_mul_clamped(-2500, 2000, 4000), -4000);
}

#[test]
fn rectangle_area() {
    let r = Rectangle::new(3, 7);
    assert_eq!(r.width, 3);
    assert_eq!(r.height, 7);
    assert_eq!(r.area(), 21);
}

#[test]
fn enum_operations() {
    assert_eq!(MyEnum::Add.run(100, 200), 300);
    assert_eq!(MyEnum::Subtract.run(100, 200), -100);
}
