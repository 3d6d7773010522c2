//! Spawn timers: fire when the accumulated time reaches the interval.
//!
//! On firing, a repeating timer resets its accumulator to zero — the
//! remainder beyond the interval is dropped, an explicit design choice —
//! while a one-shot timer pins the accumulator at the interval and never
//! fires again.

use vstd::prelude::*;

verus! {

#[derive(Clone, Copy, Debug, PartialEq, Eq, Structural)]
pub struct SpawnTimer {
    /// Time between firings, in fixed-point time units; always positive.
    pub interval: i64,
    /// Time accumulated since the last firing.
    pub elapsed: i64,
    /// Whether the timer re-arms itself after firing.
    pub repeating: bool,
}

impl SpawnTimer {
    pub open spec fn wf(self) -> bool {
        0 < self.interval && 0 <= self.elapsed <= self.interval
    }

    /// Advancing by `dt` crosses the interval boundary.
    pub open spec fn fires(self, dt: int) -> bool {
        self.elapsed < self.interval && self.elapsed + dt >= self.interval
    }

    pub fn new(interval: i64, repeating: bool) -> (t: SpawnTimer)
        requires
            0 < interval,
        ensures
            t == (SpawnTimer { interval, elapsed: 0i64, repeating }),
            t.wf(),
    {
        SpawnTimer { interval, elapsed: 0, repeating }
    }

    /// Advances the timer by `dt` and reports whether it fired.
    ///
    /// A one-shot timer that has already fired keeps `elapsed` pinned at
    /// `interval` and reports `false` forever after.
    pub fn tick(&mut self, dt: i64) -> (fired: bool)
        requires
            old(self).wf(),
            0 <= dt,
        ensures
            final(self).wf(),
            final(self).interval == old(self).interval,
            final(self).repeating == old(self).repeating,
            fired == old(self).fires(dt as int),
            final(self).elapsed == if fired {
                if old(self).repeating {
                    0int
                } else {
                    old(self).interval as int
                }
            } else {
                if old(self).elapsed < old(self).interval {
                    old(self).elapsed + dt
                } else {
                    old(self).interval as int
                }
            },
    {
        if self.elapsed < self.interval && dt >= self.interval - self.elapsed {
            self.elapsed = if self.repeating {
                0
            } else {
                self.interval
            };
            true
        } else {
            if self.elapsed < self.interval {
                self.elapsed = self.elapsed + dt;
            }
            false
        }
    }
}

/// The accumulator of a repeating timer started at zero, after `n` ticks
/// of size `dt`.
pub open spec fn elapsed_after(interval: int, dt: int, n: nat) -> int
    decreases n,
{
    if n == 0 {
        0
    } else {
        let e = elapsed_after(interval, dt, (n - 1) as nat);
        if e + dt >= interval {
            0
        } else {
            e + dt
        }
    }
}

/// How many of the first `n` ticks of size `dt` fired a repeating timer
/// started at zero.
pub open spec fn fire_count(interval: int, dt: int, n: nat) -> nat
    decreases n,
{
    if n == 0 {
        0
    } else {
        fire_count(interval, dt, (n - 1) as nat) + if elapsed_after(
            interval,
            dt,
            (n - 1) as nat,
        ) + dt >= interval {
            1nat
        } else {
            0nat
        }
    }
}

/// The executable `tick` of a repeating timer follows the cadence
/// functions step by step: if the accumulator matches `elapsed_after`
/// over `n` ticks, the firing decision and the new accumulator match
/// tick `n + 1`.
pub proof fn lemma_tick_matches_cadence(t: SpawnTimer, dt: int, n: nat)
    requires
        t.wf(),
        t.repeating,
        0 <= dt,
        t.elapsed < t.interval,
        t.elapsed == elapsed_after(t.interval as int, dt, n),
    ensures
        t.fires(dt) == (elapsed_after(t.interval as int, dt, n) + dt >= t.interval),
        (if t.fires(dt) {
            0int
        } else {
            t.elapsed + dt
        }) == elapsed_after(t.interval as int, dt, n + 1),
{
}

/// Incrementing the numerator of a division by one either steps the
/// remainder or rolls it over.
proof fn lemma_mod_step(n: int, m: int)
    requires
        0 <= n,
        0 < m,
    ensures
        (n + 1) % m == if n % m == m - 1 {
            0int
        } else {
            n % m + 1
        },
        (n + 1) / m == if n % m == m - 1 {
            n / m + 1
        } else {
            n / m
        },
{
    vstd::arithmetic::div_mod::lemma_fundamental_div_mod(n, m);
    vstd::arithmetic::div_mod::lemma_mod_division_less_than_divisor(n, m);
    let q = n / m;
    let r = n % m;
    assert(n == m * q + r);
    if r == m - 1 {
        assert(n + 1 == (q + 1) * m + 0) by (nonlinear_arith)
            requires
                n == m * q + r && r == m - 1,
        ;
        vstd::arithmetic::div_mod::lemma_fundamental_div_mod_converse_mod(n + 1, m, q + 1, 0);
        vstd::arithmetic::div_mod::lemma_fundamental_div_mod_converse_div(n + 1, m, q + 1, 0);
    } else {
        assert(n + 1 == q * m + (r + 1)) by (nonlinear_arith)
            requires
                n == m * q + r,
        ;
        vstd::arithmetic::div_mod::lemma_fundamental_div_mod_converse_mod(n + 1, m, q, r + 1);
        vstd::arithmetic::div_mod::lemma_fundamental_div_mod_converse_div(n + 1, m, q, r + 1);
    }
}

/// Spawn cadence: when the interval is an exact multiple `m` of the tick
/// size, a repeating timer started at zero fires exactly on every `m`-th
/// tick — `n` ticks produce exactly `n / m` firings — and the accumulator
/// never drifts: after `n` ticks it is exactly `dt` times `n mod m`.
pub proof fn lemma_spawn_cadence(dt: int, m: int, n: nat)
    requires
        0 < dt,
        0 < m,
    ensures
        elapsed_after(m * dt, dt, n) == dt * ((n as int) % m),
        fire_count(m * dt, dt, n) == (n as int) / m,
    decreases n,
{
    let interval = m * dt;
    if n == 0 {
        vstd::arithmetic::div_mod::lemma_small_mod(0, m as nat);
        vstd::arithmetic::div_mod::lemma_div_of0(m);
    } else {
        let p = (n - 1) as nat;
        lemma_spawn_cadence(dt, m, p);
        lemma_mod_step(p as int, m);
        let r = (p as int) % m;
        vstd::arithmetic::div_mod::lemma_mod_division_less_than_divisor(p as int, m);
        let e = elapsed_after(interval, dt, p);
        assert(e == dt * r);
        assert(n as int == p as int + 1);
        if r == m - 1 {
            assert(e + dt == m * dt) by (nonlinear_arith)
                requires
                    e == dt * r && r == m - 1,
            ;
            assert(elapsed_after(interval, dt, n) == 0);
            assert((n as int) % m == 0);
            assert(dt * ((n as int) % m) == 0);
        } else {
            assert(e + dt < m * dt) by (nonlinear_arith)
                requires
                    e == dt * r && 0 <= r < m - 1 && 0 < dt,
            ;
            assert(e + dt == dt * (r + 1)) by (nonlinear_arith)
                requires
                    e == dt * r,
            ;
            assert(elapsed_after(interval, dt, n) == e + dt);
            assert((n as int) % m == r + 1);
            assert(dt * ((n as int) % m) == dt * (r + 1));
        }
    }
}

} // verus!
