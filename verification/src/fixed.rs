//! Fixed-point scalar arithmetic.
//!
//! Every world quantity (position, velocity, radius, time) is an `i64`
//! holding `SCALE` fixed-point units per world unit.  Products of two
//! quantities are computed in 128 bits and scaled back down with a
//! truncating division, so no operation here can overflow or panic.

use vstd::prelude::*;

verus! {

/// Number of fixed-point units in one world unit.
pub const SCALE: i64 = 1000;

/// Largest magnitude a position or orientation coordinate may take.
pub const COORD_LIMIT: i64 = 0x4_0000_0000_0000;

/// Largest magnitude a velocity or acceleration component may take.
pub const VEL_LIMIT: i64 = 0x1_0000_0000_0000;

/// Largest collider radius a configuration may ask for.
pub const RADIUS_LIMIT: i64 = 0x1_0000_0000_0000;

/// Truncating (toward zero) division of `a` by a positive `b`.
pub open spec fn trunc_div(a: int, b: int) -> int {
    if a >= 0 {
        a / b
    } else {
        -((-a) / b)
    }
}

/// Truncating (toward zero) division of `p` by `SCALE`.
pub open spec fn scale_div(p: int) -> int {
    trunc_div(p, SCALE as int)
}

/// The fixed-point product of `a` and `b`: the exact integer product,
/// scaled back down to fixed-point units.
pub open spec fn scale_mul(a: int, b: int) -> int {
    scale_div(a * b)
}

/// `x` clamped to the interval `[-lim, lim]`.
pub open spec fn clamp(x: int, lim: int) -> int {
    if x > lim {
        lim
    } else if x < -lim {
        -lim
    } else {
        x
    }
}

/// Truncating division of a wide value by a positive divisor.
pub fn trunc_div_wide(a: i128, b: i128) -> (r: i128)
    requires
        a != i128::MIN,
        0 < b,
    ensures
        r == trunc_div(a as int, b as int),
        0 <= a ==> 0 <= r <= a,
        a < 0 ==> a <= r <= 0,
{
    if a >= 0 {
        let q: u128 = (a as u128) / (b as u128);
        assert(q <= a as u128);
        q as i128
    } else {
        let m: i128 = -a;
        let q: u128 = (m as u128) / (b as u128);
        assert(q <= m as u128);
        -(q as i128)
    }
}

/// Dividing `a*s` by `b` when `|a| <= b` gives a value of magnitude at
/// most `s`.
pub proof fn lemma_trunc_div_unit(a: int, b: int, s: int)
    requires
        0 < b,
        -b <= a <= b,
        0 <= s,
    ensures
        -s <= trunc_div(a * s, b) <= s,
{
    if a * s >= 0 {
        assert(a * s <= b * s) by (nonlinear_arith)
            requires
                a <= b,
                0 <= s,
        ;
        vstd::arithmetic::div_mod::lemma_div_is_ordered(a * s, b * s, b);
        vstd::arithmetic::div_mod::lemma_div_multiples_vanish(s, b);
        vstd::arithmetic::div_mod::lemma_div_is_ordered(0, a * s, b);
    } else {
        assert(-(a * s) <= b * s) by (nonlinear_arith)
            requires
                -b <= a,
                0 <= s,
        ;
        vstd::arithmetic::div_mod::lemma_div_is_ordered(-(a * s), b * s, b);
        vstd::arithmetic::div_mod::lemma_div_multiples_vanish(s, b);
        vstd::arithmetic::div_mod::lemma_div_is_ordered(0, -(a * s), b);
    }
}

/// Wide product of two machine scalars; exact, never overflows.
fn mul_wide(a: i64, b: i64) -> (r: i128)
    ensures
        r == (a as int) * (b as int),
{
    proof {
        assert(-(i128::MAX as int) <= (a as int) * (b as int) <= i128::MAX as int)
            by (nonlinear_arith);
    }
    (a as i128) * (b as i128)
}

/// `clamp` of a wide value down to a machine scalar.
fn clamp_wide(x: i128, lim: i64) -> (r: i64)
    requires
        0 <= lim,
    ensures
        r == clamp(x as int, lim as int),
{
    if x > lim as i128 {
        lim
    } else if x < -(lim as i128) {
        -lim
    } else {
        x as i64
    }
}

/// One scaled step: `base + v*dt/SCALE`, clamped to `[-lim, lim]`.
pub fn scaled_step(base: i64, v: i64, dt: i64, lim: i64) -> (r: i64)
    requires
        0 <= lim,
    ensures
        r == clamp(base + scale_mul(v as int, dt as int), lim as int),
{
    let p: i128 = mul_wide(v, dt);
    proof {
        assert(-(i128::MAX as int) <= (v as int) * (dt as int) <= i128::MAX as int)
            by (nonlinear_arith);
    }
    let q: i128 = trunc_div_wide(p, SCALE as i128);
    clamp_wide(base as i128 + q, lim)
}

/// The fixed-point product `a*b/SCALE`, clamped to `[-lim, lim]`.
pub fn scale_mul_clamped(a: i64, b: i64, lim: i64) -> (r: i64)
    requires
        0 <= lim,
    ensures
        r == clamp(scale_mul(a as int, b as int), lim as int),
{
    scaled_step(0, a, b, lim)
}

/// Truncating division commutes with negating the numerator.
pub proof fn lemma_trunc_div_neg(a: int, b: int)
    requires
        0 < b,
    ensures
        trunc_div(-a, b) == -trunc_div(a, b),
{
    if a == 0 {
        assert(trunc_div(0, b) == 0) by {
            vstd::arithmetic::div_mod::lemma_div_of0(b);
        }
    }
}

/// A fixed-point factor of magnitude at most `SCALE` scales `s` to a value
/// of magnitude at most `s`.
pub proof fn lemma_scale_mul_unit(a: int, s: int)
    requires
        -(SCALE as int) <= a <= SCALE as int,
        0 <= s,
    ensures
        -s <= scale_mul(a, s) <= s,
{
    lemma_trunc_div_unit(a, SCALE as int, s);
}

/// The signed version: a factor of magnitude at most `SCALE` never grows
/// the magnitude of `s`, whatever the signs.
pub proof fn lemma_scale_mul_bounded(a: int, s: int)
    requires
        -(SCALE as int) <= a <= SCALE as int,
    ensures
        s >= 0 ==> -s <= scale_mul(a, s) <= s,
        s < 0 ==> s <= scale_mul(a, s) <= -s,
{
    if s >= 0 {
        lemma_scale_mul_unit(a, s);
    } else {
        lemma_scale_mul_unit(a, -s);
        assert(a * s == -(a * (-s))) by (nonlinear_arith);
        lemma_trunc_div_neg(a * (-s), SCALE as int);
    }
}

} // verus!
