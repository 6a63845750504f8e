//! The repeating countdown that spawns a target every two seconds.
//!
//! Time is counted in whole nanoseconds. Elapsed time accumulates; when it
//! reaches the period the timer completes, and the remainder is carried
//! into the next period.

use vstd::prelude::*;

verus! {

/// Length of one spawn period: two seconds.
pub const SPAWN_PERIOD_NS: u64 = 2_000_000_000;

/// A repeating countdown with period [`SPAWN_PERIOD_NS`].
pub struct SpawnTimer {
    /// Time accumulated since the last completed period.
    pub elapsed_ns: u64,
}

/// Whether a tick of `delta` completes a period, starting from `elapsed`.
pub open spec fn tick_fires(elapsed: nat, delta: nat) -> bool {
    elapsed + delta >= SPAWN_PERIOD_NS
}

/// Time accumulated after a tick of `delta`, starting from `elapsed`.
pub open spec fn elapsed_after(elapsed: nat, delta: nat) -> nat {
    ((elapsed + delta) % (SPAWN_PERIOD_NS as nat)) as nat
}

impl SpawnTimer {
    pub open spec fn wf(&self) -> bool {
        self.elapsed_ns < SPAWN_PERIOD_NS
    }

    /// A timer at the start of its first period.
    pub fn new() -> (r: SpawnTimer)
        ensures
            r.elapsed_ns == 0,
            r.wf(),
    {
        SpawnTimer { elapsed_ns: 0 }
    }

    /// Advances the timer by `delta_ns`; true when a period completed
    /// during this tick.
    pub fn tick(&mut self, delta_ns: u64) -> (fired: bool)
        requires
            old(self).wf(),
        ensures
            final(self).wf(),
            fired == tick_fires(old(self).elapsed_ns as nat, delta_ns as nat),
            final(self).elapsed_ns == elapsed_after(old(self).elapsed_ns as nat, delta_ns as nat),
    {
        let rest = delta_ns % SPAWN_PERIOD_NS;
        let total = self.elapsed_ns + rest;
        let fired = delta_ns >= SPAWN_PERIOD_NS || total >= SPAWN_PERIOD_NS;
        self.elapsed_ns = total % SPAWN_PERIOD_NS;
        proof {
            let p = SPAWN_PERIOD_NS as int;
            let e = old(self).elapsed_ns as int;
            let d = delta_ns as int;
            assert((e + d) % p == (e + d % p) % p) by {
                vstd::arithmetic::div_mod::lemma_add_mod_noop(e, d, p);
                vstd::arithmetic::div_mod::lemma_mod_twice(e, p);
                assert(e % p == e) by {
                    vstd::arithmetic::div_mod::lemma_small_mod(e as nat, p as nat);
                }
            }
        }
        fired
    }
}

} // verus!
