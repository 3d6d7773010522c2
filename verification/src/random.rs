//! Random spawn sampling.
//!
//! The only unverified step is drawing a number from `rand`; everything
//! done with the drawn numbers — building a position inside the spawn
//! bounds, scaling a drawn direction to a configured magnitude with an
//! integer square root — is verified for every value the draw could
//! produce, and the scaled magnitude is exact up to truncation.

use vstd::prelude::*;
use crate::config::SpawnBounds;
use crate::fixed::{trunc_div, trunc_div_wide, lemma_trunc_div_unit, COORD_LIMIT, SCALE,
    VEL_LIMIT};
use crate::vec3::{norm_sq, Vec3};

verus! {

/// The integer square root: the greatest `r` with `r*r <= n`.
pub open spec fn isqrt_spec(n: int) -> int
    decreases n,
{
    if n < 1 {
        0
    } else {
        let r = isqrt_spec(n - 1);
        if (r + 1) * (r + 1) <= n {
            r + 1
        } else {
            r
        }
    }
}

/// `isqrt_spec(n)` squares to at most `n`, and is the greatest such value.
pub proof fn lemma_isqrt_spec_bounds(n: int)
    requires
        0 <= n,
    ensures
        0 <= isqrt_spec(n),
        isqrt_spec(n) * isqrt_spec(n) <= n,
        n < (isqrt_spec(n) + 1) * (isqrt_spec(n) + 1),
    decreases n,
{
    if n >= 1 {
        lemma_isqrt_spec_bounds(n - 1);
        let r = isqrt_spec(n - 1);
        if (r + 1) * (r + 1) <= n {
            assert(n < ((r + 1) + 1) * ((r + 1) + 1)) by (nonlinear_arith)
                requires
                    n - 1 < (r + 1) * (r + 1) && 0 <= r,
            ;
        }
    }
}

/// Any `r` in the right window is the integer square root.
pub proof fn lemma_isqrt_unique(n: int, r: int)
    requires
        0 <= n,
        0 <= r,
        r * r <= n,
        n < (r + 1) * (r + 1),
    ensures
        r == isqrt_spec(n),
{
    lemma_isqrt_spec_bounds(n);
    let s = isqrt_spec(n);
    if r < s {
        assert(s * s > n) by (nonlinear_arith)
            requires
                0 <= r < s && n < (r + 1) * (r + 1),
        ;
    } else if s < r {
        assert(r * r > n) by (nonlinear_arith)
            requires
                0 <= s < r && n < (s + 1) * (s + 1),
        ;
    }
}

/// The square root is monotone, and exact on squares.
pub proof fn lemma_isqrt_of_square_le(c: int, n: int)
    requires
        0 <= c,
        c * c <= n,
    ensures
        c <= isqrt_spec(n),
{
    lemma_isqrt_spec_bounds(n);
    let s = isqrt_spec(n);
    if s < c {
        assert(c * c >= (s + 1) * (s + 1)) by (nonlinear_arith)
            requires
                0 <= s < c,
        ;
    }
}

/// Computes the integer square root by binary search.
pub fn isqrt(n: u64) -> (r: u64)
    ensures
        r == isqrt_spec(n as int),
{
    let mut lo: u64 = 0;
    let mut hi: u64 = 0xFFFF_FFFF;
    proof {
        assert((0xFFFF_FFFFu64 as int + 1) * (0xFFFF_FFFFu64 as int + 1) > u64::MAX as int)
            by (nonlinear_arith);
    }
    while lo < hi
        invariant
            lo <= hi <= 0xFFFF_FFFF,
            (lo as int) * (lo as int) <= n as int,
            (hi as int + 1) * (hi as int + 1) > n as int,
        decreases hi - lo,
    {
        let mid: u64 = lo + (hi - lo + 1) / 2;
        proof {
            assert(0 <= (mid as int) * (mid as int) <= u64::MAX as int * u64::MAX as int)
                by (nonlinear_arith)
                requires
                    0 <= mid as int <= u64::MAX as int,
            ;
        }
        let sq: u128 = (mid as u128) * (mid as u128);
        if sq <= n as u128 {
            lo = mid;
        } else {
            hi = mid - 1;
        }
    }
    proof {
        lemma_isqrt_unique(n as int, lo as int);
    }
    lo
}

/// The largest of the two component magnitudes.
pub open spec fn mag(x: int, z: int) -> int {
    let ax = if x >= 0 {
        x
    } else {
        -x
    };
    let az = if z >= 0 {
        z
    } else {
        -z
    };
    if ax >= az {
        ax
    } else {
        az
    }
}

/// The truncating quotient `trunc_div(c*s, n)` has magnitude
/// `(|c|*s) / n`, squeezed by the floor bounds.
proof fn lemma_trunc_div_mag(c: int, n: int, s: int, a: int, u: int)
    requires
        0 < n,
        0 <= s,
        a == (if c >= 0 {
            c
        } else {
            -c
        }) * s,
        u == (if trunc_div(c * s, n) >= 0 {
            trunc_div(c * s, n)
        } else {
            -trunc_div(c * s, n)
        }),
    ensures
        0 <= u,
        n * u <= a,
        a < n * (u + 1),
{
    vstd::arithmetic::div_mod::lemma_div_of0(n);
    assert(n * (u + 1) == n * u + n) by (nonlinear_arith);
    if c >= 0 {
        assert(c * s >= 0) by (nonlinear_arith)
            requires
                0 <= c && 0 <= s,
        ;
        vstd::arithmetic::div_mod::lemma_div_is_ordered(0, c * s, n);
        assert((c * s) / n >= 0);
        assert(trunc_div(c * s, n) == (c * s) / n);
        assert(u == (c * s) / n && a == c * s);
        vstd::arithmetic::div_mod::lemma_fundamental_div_mod(c * s, n);
        vstd::arithmetic::div_mod::lemma_mod_division_less_than_divisor(c * s, n);
        assert(c * s == n * ((c * s) / n) + (c * s) % n);
        assert(n * u <= a && a < n * (u + 1));
    } else {
        assert(c * s <= 0 && (-c) * s == -(c * s)) by (nonlinear_arith)
            requires
                c < 0 && 0 <= s,
        ;
        if c * s == 0 {
            assert(u == 0 && a == 0);
            assert(n * u == 0 && n * (u + 1) == n) by (nonlinear_arith)
                requires
                    u == 0,
            ;
        } else {
            assert(trunc_div(c * s, n) == -(a / n));
            vstd::arithmetic::div_mod::lemma_div_is_ordered(0, a, n);
            assert(a / n >= 0);
            assert(u == a / n);
            vstd::arithmetic::div_mod::lemma_fundamental_div_mod(a, n);
            vstd::arithmetic::div_mod::lemma_mod_division_less_than_divisor(a, n);
            assert(a == n * (a / n) + a % n);
            assert(n * u <= a && a < n * (u + 1));
        }
    }
}

/// Relies on `rand::Rng::gen_range` over the half-open range `lo..hi`:
/// the sample lies in the range (the range is non-empty, so the call
/// cannot panic).
#[verifier::external_body]
fn sample_range(lo: i64, hi: i64) -> (r: i64)
    requires
        lo < hi,
    ensures
        lo <= r < hi,
{
    rand::Rng::gen_range(&mut rand::thread_rng(), lo..hi)
}

/// Draws a position uniformly within the spawn bounds (on the `y == 0`
/// plane, each axis independent).
pub fn sample_position(bounds: &SpawnBounds) -> (p: Vec3)
    requires
        bounds.wf(),
    ensures
        bounds.holds(p),
        p.in_box(COORD_LIMIT as int),
{
    let x = sample_range(bounds.min_x, bounds.max_x);
    let z = sample_range(bounds.min_z, bounds.max_z);
    Vec3 { x, y: 0, z }
}

/// The scaled norm of one-division normalization lies in a tight band
/// around the scalar: with a draw of magnitude at least the root, each
/// truncation loses less than one unit per component, and the root's own
/// truncation overshoots by at most a 251/250 factor on the square.
proof fn lemma_scaled_norm_band(x: int, z: int, n: int, s: int, vx: int, vz: int)
    requires
        500 <= n,
        n * n <= x * x + z * z,
        x * x + z * z <= n * n + 2 * n,
        -n <= x <= n,
        -n <= z <= n,
        0 <= s,
        vx == trunc_div(x * s, n),
        vz == trunc_div(z * s, n),
    ensures
        -s <= vx <= s,
        -s <= vz <= s,
        vx * vx + vz * vz >= s * s - 4 * s - 2,
        250 * (vx * vx + vz * vz) <= 251 * (s * s),
{
    lemma_trunc_div_unit(x, n, s);
    lemma_trunc_div_unit(z, n, s);
    let ax = if x >= 0 {
        x
    } else {
        -x
    };
    let az = if z >= 0 {
        z
    } else {
        -z
    };
    let ux = if vx >= 0 {
        vx
    } else {
        -vx
    };
    let uz = if vz >= 0 {
        vz
    } else {
        -vz
    };
    lemma_trunc_div_mag(x, n, s, ax * s, ux);
    lemma_trunc_div_mag(z, n, s, az * s, uz);
    assert(ax * ax == x * x && az * az == z * z && ux * ux == vx * vx && uz * uz == vz * vz)
        by (nonlinear_arith)
        requires
            (ax == x || ax == -x) && (az == z || az == -z) && (ux == vx || ux == -vx) && (uz == vz
                || uz == -vz),
    ;
    // Upper bound: squaring the floor bounds and summing.
    assert(n * n * (ux * ux) <= (ax * ax) * (s * s)) by (nonlinear_arith)
        requires
            0 <= n * ux && n * ux <= ax * s,
    ;
    assert(n * n * (uz * uz) <= (az * az) * (s * s)) by (nonlinear_arith)
        requires
            0 <= n * uz && n * uz <= az * s,
    ;
    assert(n * n * (ux * ux + uz * uz) <= (n * n + 2 * n) * (s * s)) by (nonlinear_arith)
        requires
            n * n * (ux * ux) <= (ax * ax) * (s * s) && n * n * (uz * uz) <= (az * az) * (s * s)
                && (ax * ax) + (az * az) <= n * n + 2 * n && 0 <= s * s,
    ;
    assert(250 * (ux * ux + uz * uz) <= 251 * (s * s)) by (nonlinear_arith)
        requires
            n * n * (ux * ux + uz * uz) <= (n * n + 2 * n) * (s * s) && 500 <= n && 0 <= s * s
                && 0 <= ux * ux + uz * uz,
    ;
    // Lower bound: each component misses its real value by less than one.
    assert(n * n * ((ux + 1) * (ux + 1)) > (ax * ax) * (s * s)) by (nonlinear_arith)
        requires
            0 <= ax * s && ax * s < n * (ux + 1),
    ;
    assert(n * n * ((uz + 1) * (uz + 1)) > (az * az) * (s * s)) by (nonlinear_arith)
        requires
            0 <= az * s && az * s < n * (uz + 1),
    ;
    assert((ux + 1) * (ux + 1) + (uz + 1) * (uz + 1) > s * s) by (nonlinear_arith)
        requires
            n * n * ((ux + 1) * (ux + 1)) > (ax * ax) * (s * s) && n * n * ((uz + 1) * (uz + 1))
                > (az * az) * (s * s) && (ax * ax) + (az * az) >= n * n && 0 < n && 0 <= s * s,
    ;
    assert(ux * ux + uz * uz >= s * s - 4 * s - 2) by (nonlinear_arith)
        requires
            (ux + 1) * (ux + 1) + (uz + 1) * (uz + 1) > s * s && 0 <= ux <= s && 0 <= uz <= s,
    ;
}

/// Draws a random planar direction and scales it to magnitude `scalar`:
/// whatever the draw, the result lies on the `y == 0` plane with every
/// component of magnitude at most `scalar` and its Euclidean norm in a
/// truncation-tight band around `scalar` — the squared norm is above
/// `scalar^2 - 4*scalar - 2` and at most a `251/250` factor over
/// `scalar^2` (a relative error of at most two parts in a thousand on the
/// magnitude, plus the absolute rounding units).  The one degenerate draw
/// (the zero vector) is mapped to an axis direction, and low-magnitude
/// draws are doubled into range, which preserves their direction exactly.
pub fn sample_scaled_direction(scalar: i64) -> (v: Vec3)
    requires
        0 <= scalar <= VEL_LIMIT,
    ensures
        v.y == 0,
        v.in_box(scalar as int),
        v.in_box(VEL_LIMIT as int),
        norm_sq(v) >= (scalar as int) * (scalar as int) - 4 * (scalar as int) - 2,
        250 * norm_sq(v) <= 251 * ((scalar as int) * (scalar as int)),
{
    let x0 = sample_range(-SCALE, SCALE);
    let z0 = sample_range(-SCALE, SCALE);
    let mut x: i64 = if x0 == 0 && z0 == 0 {
        SCALE
    } else {
        x0
    };
    let mut z: i64 = z0;
    while -500 < x && x < 500 && -500 < z && z < 500
        invariant
            -1000 <= x <= 1000,
            -1000 <= z <= 1000,
            !(x == 0 && z == 0),
        decreases 1000 - mag(x as int, z as int),
    {
        proof {
            assert(mag(2 * (x as int), 2 * (z as int)) == 2 * mag(x as int, z as int));
            assert(mag(x as int, z as int) >= 1);
        }
        x = x * 2;
        z = z * 2;
    }
    proof {
        assert(0 <= (x as int) * (x as int) <= 1_000_000 && 0 <= (z as int) * (z as int)
            <= 1_000_000) by (nonlinear_arith)
            requires
                -1000 <= x as int <= 1000 && -1000 <= z as int <= 1000,
        ;
        assert(250_000 <= (x as int) * (x as int) + (z as int) * (z as int)) by (nonlinear_arith)
            requires
                (500 <= x as int || x as int <= -500 || 500 <= z as int || z as int <= -500) && 0
                    <= (x as int) * (x as int) && 0 <= (z as int) * (z as int) && (-1000
                    <= x as int <= 1000) && (-1000 <= z as int <= 1000),
        ;
    }
    let nn: i64 = x * x + z * z;
    let n64: u64 = isqrt(nn as u64);
    proof {
        assert((nn as u64) as int == nn as int);
        lemma_isqrt_spec_bounds(nn as int);
        assert(n64 == isqrt_spec(nn as int));
        assert(500 * 500 <= nn as int);
        lemma_isqrt_of_square_le(500, nn as int);
        if x >= 0 {
            lemma_isqrt_of_square_le(x as int, nn as int);
        } else {
            assert((-(x as int)) * (-(x as int)) == (x as int) * (x as int)) by (nonlinear_arith);
            lemma_isqrt_of_square_le(-(x as int), nn as int);
        }
        if z >= 0 {
            lemma_isqrt_of_square_le(z as int, nn as int);
        } else {
            assert((-(z as int)) * (-(z as int)) == (z as int) * (z as int)) by (nonlinear_arith);
            lemma_isqrt_of_square_le(-(z as int), nn as int);
        }
        assert(((n64 as int) + 1) * ((n64 as int) + 1) == (n64 as int) * (n64 as int) + 2 * (
        n64 as int) + 1) by (nonlinear_arith);
        assert((nn as int) <= (n64 as int) * (n64 as int) + 2 * (n64 as int));
    }
    proof {
        assert(-(i128::MAX as int) <= (x as int) * (scalar as int) <= i128::MAX as int
            && -(i128::MAX as int) <= (z as int) * (scalar as int) <= i128::MAX as int)
            by (nonlinear_arith)
            requires
                -1000 <= x as int <= 1000 && -1000 <= z as int <= 1000 && 0 <= scalar as int
                    <= 0x1_0000_0000_0000,
        ;
    }
    let vx: i128 = trunc_div_wide((x as i128) * (scalar as i128), n64 as i128);
    let vz: i128 = trunc_div_wide((z as i128) * (scalar as i128), n64 as i128);
    proof {
        lemma_scaled_norm_band(
            x as int,
            z as int,
            n64 as int,
            scalar as int,
            vx as int,
            vz as int,
        );
    }
    Vec3 { x: vx as i64, y: 0, z: vz as i64 }
}

} // verus!
