//! Kinematic integration: semi-implicit Euler, per entity and per tick.
//!
//! Each entity is advanced from its own state alone — integrating one
//! entity never reads another's — so the update order across entities is
//! irrelevant.  `integrated` states the whole per-entity step as a
//! relation between the entity before and after the tick.

use vstd::prelude::*;
use crate::entity::Entity;
use crate::fixed::{clamp, scale_mul, COORD_LIMIT, SCALE, VEL_LIMIT};
use crate::registry::Registry;
use crate::vec3::Vec3;

verus! {

/// One scalar integration step: `b + d*dt/SCALE`, clamped to `[-lim, lim]`.
pub open spec fn step(b: int, d: int, dt: int, lim: int) -> int {
    clamp(b + scale_mul(d, dt), lim)
}

/// The full per-entity integration step: velocity picks up the
/// acceleration, then the position picks up the new velocity; everything
/// else is untouched.
pub open spec fn integrated(pre: Entity, post: Entity, dt: int) -> bool {
    &&& post.velocity.x == step(pre.velocity.x as int, pre.acceleration.x as int, dt, VEL_LIMIT as int)
    &&& post.velocity.y == step(pre.velocity.y as int, pre.acceleration.y as int, dt, VEL_LIMIT as int)
    &&& post.velocity.z == step(pre.velocity.z as int, pre.acceleration.z as int, dt, VEL_LIMIT as int)
    &&& post.transform.position.x == step(
        pre.transform.position.x as int,
        post.velocity.x as int,
        dt,
        COORD_LIMIT as int,
    )
    &&& post.transform.position.y == step(
        pre.transform.position.y as int,
        post.velocity.y as int,
        dt,
        COORD_LIMIT as int,
    )
    &&& post.transform.position.z == step(
        pre.transform.position.z as int,
        post.velocity.z as int,
        dt,
        COORD_LIMIT as int,
    )
    &&& post.id == pre.id
    &&& post.kind == pre.kind
    &&& post.radius == pre.radius
    &&& post.model == pre.model
    &&& post.acceleration == pre.acceleration
    &&& post.transform.orientation == pre.transform.orientation
}

/// Advances one entity by `dt`.
pub fn integrate_entity(e: &mut Entity, dt: i64)
    requires
        old(e).wf(),
        0 <= dt,
    ensures
        final(e).wf(),
        integrated(*old(e), *final(e), dt as int),
{
    let v: Vec3 = e.velocity.stepped(e.acceleration, dt, VEL_LIMIT);
    e.velocity = v;
    e.transform.position = e.transform.position.stepped(v, dt, COORD_LIMIT);
}

/// Advances every live entity by `dt`, independently.
pub fn integrate_all(reg: &mut Registry, dt: i64)
    requires
        old(reg).wf(),
        0 <= dt,
    ensures
        final(reg).wf(),
        final(reg).next_id == old(reg).next_id,
        final(reg).collisions == old(reg).collisions,
        final(reg).entities@.len() == old(reg).entities@.len(),
        forall|i: int|
            0 <= i < old(reg).entities@.len() ==> integrated(
                old(reg).entities@[i],
                #[trigger] final(reg).entities@[i],
                dt as int,
            ),
{
    let n = reg.entities.len();
    let mut i: usize = 0;
    while i < n
        invariant
            0 <= dt,
            n == reg.entities@.len(),
            n == old(reg).entities@.len(),
            reg.collisions == old(reg).collisions,
            reg.next_id == old(reg).next_id,
            0 <= i <= n,
            forall|k: int| i <= k < n ==> #[trigger] reg.entities@[k] == old(reg).entities@[k],
            forall|k: int|
                0 <= k < i ==> integrated(
                    old(reg).entities@[k],
                    #[trigger] reg.entities@[k],
                    dt as int,
                ),
            forall|k: int| 0 <= k < n ==> #[trigger] reg.entities@[k].wf(),
        decreases n - i,
    {
        let mut e: Entity = reg.entities[i];
        integrate_entity(&mut e, dt);
        reg.entities.set(i, e);
        i += 1;
    }
    proof {
        assert forall|a: int, b: int|
            0 <= a < b < reg.entities@.len() implies #[trigger] reg.entities@[a].id
            != #[trigger] reg.entities@[b].id by {
            assert(reg.entities@[a].id == old(reg).entities@[a].id);
            assert(reg.entities@[b].id == old(reg).entities@[b].id);
        }
        assert forall|a: int|
            0 <= a < reg.entities@.len() implies #[trigger] reg.entities@[a].id
            < reg.next_id by {
            assert(reg.entities@[a].id == old(reg).entities@[a].id);
        }
    }
}

/// The position of one coordinate after `k` ticks of size `dt` at constant
/// velocity `v`.
pub open spec fn position_after(p0: int, v: int, dt: int, k: nat) -> int
    decreases k,
{
    if k == 0 {
        p0
    } else {
        step(position_after(p0, v, dt, (k - 1) as nat), v, dt, COORD_LIMIT as int)
    }
}

/// Integration is deterministic and linear: at constant velocity, `k`
/// ticks of size `dt` land exactly on `p0 + k` times the per-tick step —
/// no drift, no dependence on anything but the inputs — as long as the
/// trajectory stays inside the coordinate range.
pub proof fn lemma_integration_determinism(p0: int, v: int, dt: int, k: nat)
    requires
        -(COORD_LIMIT as int) <= p0 <= COORD_LIMIT as int,
        -(COORD_LIMIT as int) <= p0 + k * scale_mul(v, dt) <= COORD_LIMIT as int,
    ensures
        position_after(p0, v, dt, k) == p0 + k * scale_mul(v, dt),
    decreases k,
{
    let s = scale_mul(v, dt);
    if k > 0 {
        let km = (k - 1) as nat;
        assert(km * s == k * s - s) by (nonlinear_arith)
            requires
                km == k - 1,
        ;
        if s >= 0 {
            assert(km * s <= k * s && 0 <= km * s) by (nonlinear_arith)
                requires
                    0 <= s && 0 <= km && km <= k,
            ;
        } else {
            assert(k * s <= km * s && km * s <= 0) by (nonlinear_arith)
                requires
                    s < 0 && 0 <= km && km <= k,
            ;
        }
        lemma_integration_determinism(p0, v, dt, km);
        assert(position_after(p0, v, dt, k) == clamp(p0 + km * s + s, COORD_LIMIT as int));
    } else {
        assert(k * s == 0) by (nonlinear_arith)
            requires
                k == 0,
        ;
    }
}

/// With zero acceleration the velocity of a well-formed entity is
/// unchanged by integration.
pub proof fn lemma_zero_acceleration_keeps_velocity(pre: Entity, post: Entity, dt: int)
    requires
        pre.wf(),
        integrated(pre, post, dt),
        pre.acceleration == (Vec3 { x: 0i64, y: 0i64, z: 0i64 }),
    ensures
        post.velocity == pre.velocity,
{
    assert(scale_mul(0, dt) == 0) by {
        assert(0 * dt == 0) by (nonlinear_arith);
    }
}

/// With zero acceleration, one integration step moves each position
/// coordinate by exactly the per-tick step of `position_after`: chaining
/// this over `k` ticks is what `lemma_integration_determinism` sums up.
pub proof fn lemma_zero_acceleration_position_step(pre: Entity, post: Entity, dt: int)
    requires
        pre.wf(),
        integrated(pre, post, dt),
        pre.acceleration == (Vec3 { x: 0i64, y: 0i64, z: 0i64 }),
    ensures
        post.velocity == pre.velocity,
        post.transform.position.x == step(
            pre.transform.position.x as int,
            pre.velocity.x as int,
            dt,
            COORD_LIMIT as int,
        ),
        post.transform.position.y == step(
            pre.transform.position.y as int,
            pre.velocity.y as int,
            dt,
            COORD_LIMIT as int,
        ),
        post.transform.position.z == step(
            pre.transform.position.z as int,
            pre.velocity.z as int,
            dt,
            COORD_LIMIT as int,
        ),
{
    lemma_zero_acceleration_keeps_velocity(pre, post, dt);
}

/// When `v*dt` is an exact multiple of `SCALE`, the per-tick step is
/// exactly `v*dt/SCALE`: `k` ticks land on `p0 + v*dt*k/SCALE`, the ideal
/// linear motion with no rounding at all.
pub proof fn lemma_exact_linear_motion(v: int, dt: int)
    requires
        (v * dt) % (SCALE as int) == 0,
    ensures
        scale_mul(v, dt) == (v * dt) / (SCALE as int),
{
    let p = v * dt;
    let sc = SCALE as int;
    if p < 0 {
        vstd::arithmetic::div_mod::lemma_fundamental_div_mod(p, sc);
        let q = p / sc;
        assert(p == sc * q);
        vstd::arithmetic::div_mod::lemma_div_multiples_vanish(-q, sc);
        assert((-p) / sc == -q);
    }
}

} // verus!
