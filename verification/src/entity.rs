//! Entities: the data every live simulation object carries.

use vstd::prelude::*;
use crate::fixed::{COORD_LIMIT, RADIUS_LIMIT, VEL_LIMIT};
use crate::vec3::Vec3;

verus! {

/// Classifies an entity for the despawn / collision policy.
#[derive(Clone, Copy, Debug, PartialEq, Eq, Structural)]
pub enum EntityKind {
    Ship,
    Projectile,
    Asteroid,
}

/// An orientation as accumulated rotation deltas about the yaw and roll
/// axes, in fixed-point angle units.  Turning it into a direction vector is
/// left to the (unverified) presentation layer; the core only accumulates
/// the deltas.
#[derive(Clone, Copy, Debug, PartialEq, Eq, Structural)]
pub struct Orient {
    pub yaw: i64,
    pub roll: i64,
}

/// Position and orientation of an entity.
#[derive(Clone, Copy, Debug, PartialEq, Eq, Structural)]
pub struct Transform {
    pub position: Vec3,
    pub orientation: Orient,
}

/// A live simulation object.
///
/// The set of entities currently overlapping this one is kept by the
/// registry in a table parallel to the entity list, so an `Entity` itself
/// is plain copyable data.
#[derive(Clone, Copy, Debug, PartialEq, Eq, Structural)]
pub struct Entity {
    /// Unique while alive; never reassigned once removed.
    pub id: u64,
    pub kind: EntityKind,
    pub transform: Transform,
    pub velocity: Vec3,
    pub acceleration: Vec3,
    /// Collider radius, in fixed-point units; always positive.
    pub radius: i64,
    /// Opaque handle assigned by an external asset loader; stored and
    /// forwarded without interpretation, and may be unresolved.
    pub model: Option<u64>,
}

impl Entity {
    /// Every field lies within the ranges the arithmetic relies on.
    pub open spec fn wf(self) -> bool {
        &&& self.transform.position.in_box(COORD_LIMIT as int)
        &&& -(COORD_LIMIT as int) <= self.transform.orientation.yaw <= COORD_LIMIT as int
        &&& -(COORD_LIMIT as int) <= self.transform.orientation.roll <= COORD_LIMIT as int
        &&& self.velocity.in_box(VEL_LIMIT as int)
        &&& self.acceleration.in_box(VEL_LIMIT as int)
        &&& 0 < self.radius <= RADIUS_LIMIT
    }
}

/// The error conditions of the core.
#[derive(Clone, Copy, Debug, PartialEq, Eq, Structural)]
pub enum SimError {
    /// The entity looked up is not (or no longer) in the registry; callers
    /// must treat it as "already gone", never as fatal.
    NotFound,
    /// The configuration handed to the simulation at startup is invalid.
    Configuration,
}

impl SimError {
    /// A short human-readable name for the error.
    pub fn describe(&self) -> (r: &'static str)
        ensures
            *self is NotFound ==> r@ == "entity not found"@,
            *self is Configuration ==> r@ == "invalid configuration"@,
    {
        match self {
            SimError::NotFound => "entity not found",
            SimError::Configuration => "invalid configuration",
        }
    }
}

} // verus!
