//! Core of a small space-combat simulation.
//!
//! The crate owns a registry of moving entities (ships, projectiles,
//! asteroids), integrates their motion each tick, detects radius-based
//! overlap between all live entities, and spawns or despawns entities
//! according to timers, control intents, and distance / collision policy.
//!
//! All geometry is done in fixed-point arithmetic: one world unit is
//! `fixed::SCALE` fixed-point units, so every quantity is an exact integer
//! and every contract states the result exactly.

pub mod collision;
pub mod config;
pub mod control;
pub mod entity;
pub mod fixed;
pub mod integrator;
pub mod lifecycle;
pub mod policy;
pub mod random;
pub mod registry;
pub mod sim;
pub mod timer;
pub mod util;
pub mod vec3;
