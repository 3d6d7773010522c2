//! Three-component fixed-point vectors.

use vstd::prelude::*;
use crate::fixed::{clamp, scale_mul, scaled_step, COORD_LIMIT};

verus! {

/// A 3-vector with fixed-point components (`fixed::SCALE` units per world
/// unit).
#[derive(Clone, Copy, Debug, PartialEq, Eq, Structural)]
pub struct Vec3 {
    pub x: i64,
    pub y: i64,
    pub z: i64,
}

/// Squared Euclidean distance between two points, exact over `int`.
pub open spec fn dist_sq(a: Vec3, b: Vec3) -> int {
    (a.x - b.x) * (a.x - b.x) + (a.y - b.y) * (a.y - b.y) + (a.z - b.z) * (a.z - b.z)
}

/// Squared Euclidean norm, exact over `int`.
pub open spec fn norm_sq(v: Vec3) -> int {
    v.x * v.x + v.y * v.y + v.z * v.z
}

impl Vec3 {
    /// All components lie in `[-lim, lim]`.
    pub open spec fn in_box(self, lim: int) -> bool {
        &&& -lim <= self.x <= lim
        &&& -lim <= self.y <= lim
        &&& -lim <= self.z <= lim
    }

    pub fn new(x: i64, y: i64, z: i64) -> (v: Vec3)
        ensures
            v == (Vec3 { x, y, z }),
    {
        Vec3 { x, y, z }
    }

    pub fn zero() -> (v: Vec3)
        ensures
            v == (Vec3 { x: 0i64, y: 0i64, z: 0i64 }),
    {
        Vec3 { x: 0, y: 0, z: 0 }
    }

    /// Each component clamped to `[-lim, lim]`.
    pub fn clamped(self, lim: i64) -> (v: Vec3)
        requires
            0 <= lim,
        ensures
            v.x == clamp(self.x as int, lim as int),
            v.y == clamp(self.y as int, lim as int),
            v.z == clamp(self.z as int, lim as int),
            v.in_box(lim as int),
    {
        Vec3 {
            x: if self.x > lim { lim } else if self.x < -lim { -lim } else { self.x },
            y: if self.y > lim { lim } else if self.y < -lim { -lim } else { self.y },
            z: if self.z > lim { lim } else if self.z < -lim { -lim } else { self.z },
        }
    }

    /// One integration step: `self + d*dt/SCALE` componentwise, each
    /// component clamped to `[-lim, lim]`.
    pub fn stepped(self, d: Vec3, dt: i64, lim: i64) -> (v: Vec3)
        requires
            0 <= lim,
        ensures
            v.x == clamp(self.x + scale_mul(d.x as int, dt as int), lim as int),
            v.y == clamp(self.y + scale_mul(d.y as int, dt as int), lim as int),
            v.z == clamp(self.z + scale_mul(d.z as int, dt as int), lim as int),
            v.in_box(lim as int),
    {
        Vec3 {
            x: scaled_step(self.x, d.x, dt, lim),
            y: scaled_step(self.y, d.y, dt, lim),
            z: scaled_step(self.z, d.z, dt, lim),
        }
    }
}

/// Wide square of a bounded value.
fn sq_wide(x: i128) -> (r: i128)
    requires
        -0x10_0000_0000_0000 <= x <= 0x10_0000_0000_0000,
    ensures
        r == x * x,
        0 <= r <= 0x100_0000_0000_0000_0000_0000_0000,
{
    proof {
        assert(0 <= (x as int) * (x as int) <= 0x100_0000_0000_0000_0000_0000_0000int)
            by (nonlinear_arith)
            requires
                -0x10_0000_0000_0000 <= x as int <= 0x10_0000_0000_0000,
        ;
    }
    x * x
}

/// Exact squared distance between two in-bounds points.
pub fn dist_sq_exec(a: &Vec3, b: &Vec3) -> (r: i128)
    requires
        a.in_box(COORD_LIMIT as int),
        b.in_box(COORD_LIMIT as int),
    ensures
        r == dist_sq(*a, *b),
        r >= 0,
{
    let dx: i128 = a.x as i128 - b.x as i128;
    let dy: i128 = a.y as i128 - b.y as i128;
    let dz: i128 = a.z as i128 - b.z as i128;
    sq_wide(dx) + sq_wide(dy) + sq_wide(dz)
}

/// Exact squared norm of an in-bounds point.
pub fn norm_sq_exec(v: &Vec3) -> (r: i128)
    requires
        v.in_box(COORD_LIMIT as int),
    ensures
        r == norm_sq(*v),
        r >= 0,
{
    sq_wide(v.x as i128) + sq_wide(v.y as i128) + sq_wide(v.z as i128)
}

/// Distance is symmetric: both orders of the arguments give the same value.
pub proof fn lemma_dist_sq_symmetric(a: Vec3, b: Vec3)
    ensures
        dist_sq(a, b) == dist_sq(b, a),
{
    assert((a.x - b.x) * (a.x - b.x) == (b.x - a.x) * (b.x - a.x)) by (nonlinear_arith);
    assert((a.y - b.y) * (a.y - b.y) == (b.y - a.y) * (b.y - a.y)) by (nonlinear_arith);
    assert((a.z - b.z) * (a.z - b.z) == (b.z - a.z) * (b.z - a.z)) by (nonlinear_arith);
}

} // verus!
