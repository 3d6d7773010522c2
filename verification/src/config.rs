//! Startup configuration, immutable once the simulation is built.
//!
//! Invalid values are rejected when the simulation is constructed — a
//! `Configuration` error prevents startup — and are never re-checked per
//! tick.

use vstd::prelude::*;
use crate::entity::EntityKind;
use crate::fixed::{COORD_LIMIT, RADIUS_LIMIT, VEL_LIMIT};
use crate::policy::CollisionPolicy;
use crate::vec3::Vec3;

verus! {

/// Per-axis bounds for timer-driven spawns.  Spawned entities sit on the
/// plane `y == 0`, as half-open ranges `[min, max)` on the two axes.
#[derive(Clone, Copy, Debug, PartialEq, Eq, Structural)]
pub struct SpawnBounds {
    pub min_x: i64,
    pub max_x: i64,
    pub min_z: i64,
    pub max_z: i64,
}

impl SpawnBounds {
    /// Each range is non-empty and within the coordinate limits.
    pub open spec fn wf(self) -> bool {
        &&& -(COORD_LIMIT as int) <= self.min_x < self.max_x <= COORD_LIMIT as int
        &&& -(COORD_LIMIT as int) <= self.min_z < self.max_z <= COORD_LIMIT as int
    }

    /// `p` lies in the spawn region.
    pub open spec fn holds(self, p: Vec3) -> bool {
        &&& self.min_x <= p.x < self.max_x
        &&& p.y == 0
        &&& self.min_z <= p.z < self.max_z
    }
}

pub struct Config {
    /// Time between timer-driven spawns, in fixed-point time units.
    pub spawn_interval: i64,
    pub spawn_bounds: SpawnBounds,
    /// Magnitude given to a spawned entity's random velocity direction.
    pub velocity_scalar: i64,
    /// Magnitude given to a spawned entity's random acceleration direction.
    pub acceleration_scalar: i64,
    /// Entities strictly farther than this from the origin are despawned.
    pub despawn_distance: i64,
    pub ship_radius: i64,
    pub projectile_radius: i64,
    pub asteroid_radius: i64,
    /// Yaw change per time unit under a full rotate intent.
    pub rotation_speed: i64,
    /// Roll change per time unit under a full roll intent.
    pub roll_speed: i64,
    /// Roll change per time unit applied to every asteroid each tick.
    pub asteroid_roll_speed: i64,
    /// Ship speed under a full thrust intent.
    pub ship_speed: i64,
    pub projectile_speed: i64,
    /// How far ahead of the firing entity a projectile appears.
    pub forward_offset: i64,
    /// Visual model handle given to timer-spawned asteroids, assigned by
    /// an external asset loader at startup; stored and forwarded without
    /// interpretation, and may be unresolved.
    pub asteroid_model: Option<u64>,
    /// Visual model handle given to intent-spawned projectiles.
    pub projectile_model: Option<u64>,
    pub policy: CollisionPolicy,
}

impl Config {
    /// Every scalar is in the range the arithmetic relies on, every radius
    /// and interval positive, every bound well formed.
    pub open spec fn valid(self) -> bool {
        &&& 0 < self.spawn_interval
        &&& self.spawn_bounds.wf()
        &&& 0 <= self.velocity_scalar <= VEL_LIMIT
        &&& 0 <= self.acceleration_scalar <= VEL_LIMIT
        &&& 0 < self.despawn_distance <= COORD_LIMIT
        &&& 0 < self.ship_radius <= RADIUS_LIMIT
        &&& 0 < self.projectile_radius <= RADIUS_LIMIT
        &&& 0 < self.asteroid_radius <= RADIUS_LIMIT
        &&& 0 <= self.rotation_speed <= VEL_LIMIT
        &&& 0 <= self.roll_speed <= VEL_LIMIT
        &&& 0 <= self.asteroid_roll_speed <= VEL_LIMIT
        &&& 0 <= self.ship_speed <= VEL_LIMIT
        &&& 0 <= self.projectile_speed <= VEL_LIMIT
        &&& 0 <= self.forward_offset <= VEL_LIMIT
    }

    /// Decides `valid` for a concrete configuration.
    pub fn check(&self) -> (r: bool)
        ensures
            r == self.valid(),
    {
        0 < self.spawn_interval && -COORD_LIMIT <= self.spawn_bounds.min_x
            && self.spawn_bounds.min_x < self.spawn_bounds.max_x && self.spawn_bounds.max_x
            <= COORD_LIMIT && -COORD_LIMIT <= self.spawn_bounds.min_z && self.spawn_bounds.min_z
            < self.spawn_bounds.max_z && self.spawn_bounds.max_z <= COORD_LIMIT
            && 0 <= self.velocity_scalar && self.velocity_scalar <= VEL_LIMIT
            && 0 <= self.acceleration_scalar && self.acceleration_scalar <= VEL_LIMIT
            && 0 < self.despawn_distance && self.despawn_distance <= COORD_LIMIT
            && 0 < self.ship_radius && self.ship_radius <= RADIUS_LIMIT
            && 0 < self.projectile_radius && self.projectile_radius <= RADIUS_LIMIT
            && 0 < self.asteroid_radius && self.asteroid_radius <= RADIUS_LIMIT
            && 0 <= self.rotation_speed && self.rotation_speed <= VEL_LIMIT
            && 0 <= self.roll_speed && self.roll_speed <= VEL_LIMIT
            && 0 <= self.asteroid_roll_speed && self.asteroid_roll_speed <= VEL_LIMIT
            && 0 <= self.ship_speed && self.ship_speed <= VEL_LIMIT
            && 0 <= self.projectile_speed && self.projectile_speed <= VEL_LIMIT
            && 0 <= self.forward_offset && self.forward_offset <= VEL_LIMIT
    }

    /// The configured collider radius for a kind.
    pub open spec fn spec_radius_for(&self, kind: EntityKind) -> i64 {
        match kind {
            EntityKind::Ship => self.ship_radius,
            EntityKind::Projectile => self.projectile_radius,
            EntityKind::Asteroid => self.asteroid_radius,
        }
    }

    #[verifier::when_used_as_spec(spec_radius_for)]
    pub fn radius_for(&self, kind: EntityKind) -> (r: i64)
        ensures
            r == self.spec_radius_for(kind),
    {
        match kind {
            EntityKind::Ship => self.ship_radius,
            EntityKind::Projectile => self.projectile_radius,
            EntityKind::Asteroid => self.asteroid_radius,
        }
    }

    /// The stock configuration, in fixed-point units: one world unit is
    /// `fixed::SCALE` units, one second of simulated time is
    /// `fixed::SCALE` time units.
    pub fn standard() -> (c: Config)
        ensures
            c.valid(),
            c.spawn_interval == 1000,
            c.spawn_bounds == (SpawnBounds {
                min_x: -25000i64,
                max_x: 25000i64,
                min_z: 0i64,
                max_z: 25000i64,
            }),
            c.velocity_scalar == 5000,
            c.acceleration_scalar == 1000,
            c.despawn_distance == 100000,
            c.ship_radius == 5000,
            c.projectile_radius == 1000,
            c.asteroid_radius == 2500,
            c.rotation_speed == 2500,
            c.roll_speed == 2500,
            c.asteroid_roll_speed == 2500,
            c.ship_speed == 25000,
            c.projectile_speed == 50000,
            c.forward_offset == 7500,
            c.asteroid_model is None,
            c.projectile_model is None,
            forall|a: EntityKind, b: EntityKind|
                #[trigger] c.policy.removes(a, b) <==> (a is Asteroid && (b is Ship
                    || b is Projectile)),
    {
        Config {
            spawn_interval: 1000,
            spawn_bounds: SpawnBounds { min_x: -25000, max_x: 25000, min_z: 0, max_z: 25000 },
            velocity_scalar: 5000,
            acceleration_scalar: 1000,
            despawn_distance: 100000,
            ship_radius: 5000,
            projectile_radius: 1000,
            asteroid_radius: 2500,
            rotation_speed: 2500,
            roll_speed: 2500,
            asteroid_roll_speed: 2500,
            ship_speed: 25000,
            projectile_speed: 50000,
            forward_offset: 7500,
            asteroid_model: None,
            projectile_model: None,
            policy: CollisionPolicy::standard(),
        }
    }
}

} // verus!
