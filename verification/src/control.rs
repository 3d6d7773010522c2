//! Control-intent translation: how a per-tick intent moves a ship and
//! fires its weapon.
//!
//! The intent is sampled once per tick from an external input source.
//! Turning an accumulated orientation into a forward direction vector
//! needs trigonometry, which the core leaves to the caller: control
//! functions take the forward vector as a plain fixed-point value and are
//! verified for every value of it.

use vstd::prelude::*;
use crate::config::Config;
use crate::entity::{Entity, EntityKind, Orient, Transform};
use crate::fixed::{clamp, lemma_scale_mul_bounded, scale_mul, scale_mul_clamped, scaled_step,
    COORD_LIMIT, SCALE, VEL_LIMIT};
use crate::lifecycle::SpawnRequest;
use crate::vec3::Vec3;

verus! {

/// The per-tick control intent: each axis is `-1`, `0` or `1`, and firing
/// is level-triggered — the weapon fires every tick the flag stays set.
#[derive(Clone, Copy, Debug, PartialEq, Eq, Structural)]
pub struct ControlIntent {
    pub rotate: i64,
    pub thrust: i64,
    pub roll: i64,
    pub fire: bool,
}

impl ControlIntent {
    pub open spec fn valid(self) -> bool {
        &&& -1 <= self.rotate <= 1
        &&& -1 <= self.thrust <= 1
        &&& -1 <= self.roll <= 1
    }

    /// The idle intent: no rotation, no thrust, no fire.
    pub fn none() -> (r: ControlIntent)
        ensures
            r == (ControlIntent { rotate: 0i64, thrust: 0i64, roll: 0i64, fire: false }),
            r.valid(),
    {
        ControlIntent { rotate: 0, thrust: 0, roll: 0, fire: false }
    }
}

/// The accumulated angle after one tick of turning in direction `dir` at
/// `speed`.
pub open spec fn spec_turned(angle: int, dir: int, speed: int, dt: int) -> int {
    clamp(angle + scale_mul(dir * speed, dt), COORD_LIMIT as int)
}

/// The ship `e` after one tick of movement control: the rotate and roll
/// intents turn the orientation at the configured speeds, and the
/// velocity becomes `forward` scaled by the thrust intent times the ship
/// speed.  Everything else is untouched.
pub open spec fn spec_steered(
    e: Entity,
    intent: ControlIntent,
    forward: Vec3,
    cfg: Config,
    dt: int,
) -> Entity {
    Entity {
        id: e.id,
        kind: e.kind,
        transform: (Transform {
            position: e.transform.position,
            orientation: (Orient {
                yaw: spec_turned(
                    e.transform.orientation.yaw as int,
                    intent.rotate as int,
                    cfg.rotation_speed as int,
                    dt,
                ) as i64,
                roll: spec_turned(
                    e.transform.orientation.roll as int,
                    intent.roll as int,
                    cfg.roll_speed as int,
                    dt,
                ) as i64,
            }),
        }),
        velocity: (Vec3 {
            x: scale_mul(forward.x as int, intent.thrust * cfg.ship_speed) as i64,
            y: scale_mul(forward.y as int, intent.thrust * cfg.ship_speed) as i64,
            z: scale_mul(forward.z as int, intent.thrust * cfg.ship_speed) as i64,
        }),
        acceleration: e.acceleration,
        radius: e.radius,
        model: e.model,
    }
}

/// The entity `e` after one tick of passive spin: the roll accumulates
/// `speed*dt/SCALE`; everything else is untouched.
pub open spec fn spec_rolled(e: Entity, speed: int, dt: int) -> Entity {
    Entity {
        id: e.id,
        kind: e.kind,
        transform: (Transform {
            position: e.transform.position,
            orientation: (Orient {
                yaw: e.transform.orientation.yaw,
                roll: spec_turned(e.transform.orientation.roll as int, 1, speed, dt) as i64,
            }),
        }),
        velocity: e.velocity,
        acceleration: e.acceleration,
        radius: e.radius,
        model: e.model,
    }
}

/// The accumulated angle after one tick of turning in direction `dir` at
/// `speed`: the delta `dir*speed*dt/SCALE` is added and the result kept
/// inside the coordinate range.
pub fn turned_angle(angle: i64, dir: i64, speed: i64, dt: i64) -> (r: i64)
    requires
        -1 <= dir <= 1,
        0 <= speed <= VEL_LIMIT,
        0 <= dt,
    ensures
        r == clamp(angle + scale_mul(dir * speed, dt as int), COORD_LIMIT as int),
        -(COORD_LIMIT as int) <= r <= COORD_LIMIT as int,
{
    proof {
        assert(-(speed as int) <= (dir as int) * (speed as int) <= speed as int)
            by (nonlinear_arith)
            requires
                -1 <= dir as int <= 1 && 0 <= speed as int,
        ;
    }
    scaled_step(angle, dir * speed, dt, COORD_LIMIT)
}

/// Applies one tick of movement control to a ship: the rotate and roll
/// intents turn the orientation at the configured speeds, then the
/// velocity becomes the forward direction scaled by the thrust intent
/// times the ship speed.  Position and everything else are untouched;
/// `forward` is the caller-computed direction for the new orientation.
pub fn steer_ship(e: &mut Entity, intent: &ControlIntent, forward: Vec3, cfg: &Config, dt: i64)
    requires
        old(e).wf(),
        intent.valid(),
        cfg.valid(),
        0 <= dt,
        forward.in_box(SCALE as int),
    ensures
        final(e).wf(),
        *final(e) == spec_steered(*old(e), *intent, forward, *cfg, dt as int),
{
    e.transform.orientation.yaw = turned_angle(
        e.transform.orientation.yaw,
        intent.rotate,
        cfg.rotation_speed,
        dt,
    );
    e.transform.orientation.roll = turned_angle(
        e.transform.orientation.roll,
        intent.roll,
        cfg.roll_speed,
        dt,
    );
    proof {
        assert(-(cfg.ship_speed as int) <= (intent.thrust as int) * (cfg.ship_speed as int)
            <= cfg.ship_speed as int) by (nonlinear_arith)
            requires
                -1 <= intent.thrust as int <= 1 && 0 <= cfg.ship_speed as int,
        ;
    }
    let mag: i64 = intent.thrust * cfg.ship_speed;
    proof {
        lemma_scale_mul_bounded(forward.x as int, mag as int);
        lemma_scale_mul_bounded(forward.y as int, mag as int);
        lemma_scale_mul_bounded(forward.z as int, mag as int);
    }
    e.velocity = Vec3 {
        x: scale_mul_clamped(forward.x, mag, VEL_LIMIT),
        y: scale_mul_clamped(forward.y, mag, VEL_LIMIT),
        z: scale_mul_clamped(forward.z, mag, VEL_LIMIT),
    };
    proof {
        let spec = spec_steered(*old(e), *intent, forward, *cfg, dt as int);
        assert(e.transform.orientation == spec.transform.orientation);
        assert(e.velocity == spec.velocity);
        assert(*e == spec);
    }
}

/// The projectile creation request a firing entity produces: positioned
/// at the firing entity's position offset forward by the configured
/// scalar, moving forward at the configured speed, with the firing
/// entity's orientation, no acceleration, the configured projectile
/// radius and model handle.
pub open spec fn spec_projectile_request(ship: Entity, forward: Vec3, cfg: Config) -> SpawnRequest {
    SpawnRequest {
        kind: EntityKind::Projectile,
        transform: (Transform {
            position: (Vec3 {
                x: clamp(
                    ship.transform.position.x + scale_mul(
                        forward.x as int,
                        cfg.forward_offset as int,
                    ),
                    COORD_LIMIT as int,
                ) as i64,
                y: clamp(
                    ship.transform.position.y + scale_mul(
                        forward.y as int,
                        cfg.forward_offset as int,
                    ),
                    COORD_LIMIT as int,
                ) as i64,
                z: clamp(
                    ship.transform.position.z + scale_mul(
                        forward.z as int,
                        cfg.forward_offset as int,
                    ),
                    COORD_LIMIT as int,
                ) as i64,
            }),
            orientation: ship.transform.orientation,
        }),
        velocity: (Vec3 {
            x: scale_mul(forward.x as int, cfg.projectile_speed as int) as i64,
            y: scale_mul(forward.y as int, cfg.projectile_speed as int) as i64,
            z: scale_mul(forward.z as int, cfg.projectile_speed as int) as i64,
        }),
        acceleration: (Vec3 { x: 0i64, y: 0i64, z: 0i64 }),
        radius: cfg.projectile_radius,
        model: cfg.projectile_model,
    }
}

/// Level-triggered weapon control: a creation request for a projectile is
/// produced exactly when the fire intent is asserted.  The projectile
/// appears at the firing entity's position offset forward by the
/// configured scalar, moving forward at the configured speed, with the
/// firing entity's orientation and no acceleration.
pub fn fire_request(ship: &Entity, intent: &ControlIntent, forward: Vec3, cfg: &Config) -> (r:
    Option<SpawnRequest>)
    requires
        ship.wf(),
        cfg.valid(),
        forward.in_box(SCALE as int),
    ensures
        (r is Some) == intent.fire,
        intent.fire ==> r == Some(spec_projectile_request(*ship, forward, *cfg)),
        r matches Some(req) ==> req.wf(),
{
    if intent.fire {
        let position = ship.transform.position.stepped(forward, cfg.forward_offset, COORD_LIMIT);
        proof {
            lemma_scale_mul_bounded(forward.x as int, cfg.projectile_speed as int);
            lemma_scale_mul_bounded(forward.y as int, cfg.projectile_speed as int);
            lemma_scale_mul_bounded(forward.z as int, cfg.projectile_speed as int);
        }
        let velocity = Vec3 {
            x: scale_mul_clamped(forward.x, cfg.projectile_speed, VEL_LIMIT),
            y: scale_mul_clamped(forward.y, cfg.projectile_speed, VEL_LIMIT),
            z: scale_mul_clamped(forward.z, cfg.projectile_speed, VEL_LIMIT),
        };
        Some(
            SpawnRequest {
                kind: EntityKind::Projectile,
                transform: crate::entity::Transform {
                    position,
                    orientation: ship.transform.orientation,
                },
                velocity,
                acceleration: Vec3 { x: 0, y: 0, z: 0 },
                radius: cfg.projectile_radius,
                model: cfg.projectile_model,
            },
        )
    } else {
        None
    }
}

} // verus!
