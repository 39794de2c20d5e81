//! Fixed-timestep scheduling: turns "some wall-clock time passed" into
//! "advance the sim N whole ticks", using an accumulator so time is never
//! lost or double-counted.
use vstd::prelude::*;
use crate::sim_core::time::{Duration, MAX_NANOS, TICK_NANOS, tick_duration};

verus! {

/// Accumulator-based fixed timestep driver. Feed it elapsed wall-clock
/// time with `advance`, then drain whole ticks with `step`.
#[derive(Debug)]
pub struct FixedTimestep {
    accumulator: Duration,
}

impl FixedTimestep {
    /// Nanoseconds accumulated and not yet turned into ticks.
    pub closed spec fn pending(self) -> nat {
        self.accumulator.nanos as nat
    }

    pub fn new() -> (r: FixedTimestep)
        ensures
            r.pending() == 0,
    {
        FixedTimestep { accumulator: Duration::zero() }
    }

    /// Record that `elapsed` wall-clock time has passed.
    pub fn advance(&mut self, elapsed: Duration)
        requires
            old(self).pending() + elapsed.nanos <= MAX_NANOS,
        ensures
            final(self).pending() == old(self).pending() + elapsed.nanos,
            timestep_call(old(self).pending(), TimestepCall::Advance(elapsed.nanos), final(self).pending()),
    {
        self.accumulator = Duration { nanos: self.accumulator.nanos + elapsed.nanos };
    }

    /// Consume one tick's worth of accumulated time, if there is one. Call
    /// until it returns `false` to drain every tick owed: a slow frame
    /// yields several ticks, not one giant one.
    pub fn step(&mut self) -> (r: bool)
        ensures
            timestep_call(old(self).pending(), TimestepCall::Step(r), final(self).pending()),
            r == (old(self).pending() >= TICK_NANOS),
            r ==> final(self).pending() == old(self).pending() - TICK_NANOS,
            !r ==> final(self).pending() == old(self).pending(),
    {
        let tick = tick_duration();
        if self.accumulator.nanos >= tick.nanos {
            self.accumulator = Duration { nanos: self.accumulator.nanos - tick.nanos };
            true
        } else {
            false
        }
    }

    /// Time accumulated toward the next tick.
    pub fn accumulator(&self) -> (r: Duration)
        ensures
            r.nanos == self.pending(),
    {
        self.accumulator
    }
}

impl Default for FixedTimestep {
    fn default() -> (r: FixedTimestep)
        ensures
            r.pending() == 0,
    {
        FixedTimestep::new()
    }
}

/// One call on a `FixedTimestep`: `advance` by some nanoseconds, or `step`
/// with the answer it gave.
pub enum TimestepCall {
    Advance(u128),
    Step(bool),
}

/// Nanoseconds handed to `advance` by the first `k` calls.
pub open spec fn advanced(calls: Seq<TimestepCall>, k: int) -> nat
    decreases k,
{
    if k <= 0 {
        0
    } else {
        advanced(calls, k - 1) + match calls[k - 1] {
            TimestepCall::Advance(d) => d as nat,
            TimestepCall::Step(_) => 0nat,
        }
    }
}

/// Steps among the first `k` calls that yielded a tick.
pub open spec fn ticks_taken(calls: Seq<TimestepCall>, k: int) -> nat
    decreases k,
{
    if k <= 0 {
        0
    } else {
        ticks_taken(calls, k - 1) + match calls[k - 1] {
            TimestepCall::Step(true) => 1nat,
            _ => 0nat,
        }
    }
}

/// `after` is what call `c` leaves of `before` pending nanoseconds, by
/// the contracts of `advance` and `step`.
pub open spec fn timestep_call(before: nat, c: TimestepCall, after: nat) -> bool {
    match c {
        TimestepCall::Advance(d) => after == before + d,
        TimestepCall::Step(b) => {
            &&& b == (before >= TICK_NANOS)
            &&& b ==> after == before - TICK_NANOS
            &&& !b ==> after == before
        },
    }
}

/// Time is never lost or double-counted, whatever the interleaving of
/// `advance` and `step` calls from a fresh accumulator: what is pending is
/// everything advanced less one tick per tick taken, and a step yields a
/// tick exactly when the time advanced so far covers one more tick than
/// those already taken.
pub proof fn law_time_is_never_lost(calls: Seq<TimestepCall>, pending: Seq<nat>)
    requires
        pending.len() == calls.len() + 1,
        pending[0] == 0,
        forall|k: int| 0 <= k < calls.len() ==> timestep_call(pending[k], #[trigger] calls[k], pending[k + 1]),
    ensures
        forall|k: int| 0 <= k <= calls.len() ==> #[trigger] pending[k] == advanced(calls, k) - ticks_taken(calls, k) * TICK_NANOS,
        forall|k: int| 0 <= k < calls.len() ==> (#[trigger] calls[k] matches TimestepCall::Step(b) ==> b == (
            advanced(calls, k) >= (ticks_taken(calls, k) + 1) * TICK_NANOS)),
    decreases calls.len(),
{
    if calls.len() > 0 {
        let n = calls.len() - 1;
        let c0 = calls.drop_last();
        let p0 = pending.drop_last();
        assert forall|k: int| 0 <= k < c0.len() implies timestep_call(p0[k], #[trigger] c0[k], p0[k + 1]) by {
            assert(c0[k] == calls[k]);
            assert(timestep_call(pending[k], calls[k], pending[k + 1]));
        }
        law_time_is_never_lost(c0, p0);
        assert forall|k: int| 0 <= k <= n implies advanced(calls, k) == advanced(c0, k) && ticks_taken(calls, k) == ticks_taken(c0, k) by {
            lemma_prefix_sums(calls, c0, k);
        }
        assert(p0[n] == pending[n]);
        assert(pending[n] == advanced(calls, n) - ticks_taken(calls, n) * TICK_NANOS);
        assert(timestep_call(pending[n], calls[n], pending[n + 1]));
        assert forall|k: int| 0 <= k <= calls.len() implies #[trigger] pending[k] == advanced(calls, k) - ticks_taken(calls, k) * TICK_NANOS by {
            if k < calls.len() {
                assert(p0[k] == pending[k]);
            }
        }
        assert forall|k: int| 0 <= k < calls.len() implies (#[trigger] calls[k] matches TimestepCall::Step(b) ==> b == (
            advanced(calls, k) >= (ticks_taken(calls, k) + 1) * TICK_NANOS)) by {
            if k < n {
                assert(c0[k] == calls[k]);
            }
        }
    }
}

/// The running sums over a prefix do not look past it.
proof fn lemma_prefix_sums(calls: Seq<TimestepCall>, c0: Seq<TimestepCall>, k: int)
    requires
        c0.len() + 1 == calls.len(),
        forall|i: int| 0 <= i < c0.len() ==> c0[i] == calls[i],
        0 <= k <= c0.len(),
    ensures
        advanced(calls, k) == advanced(c0, k),
        ticks_taken(calls, k) == ticks_taken(c0, k),
    decreases k,
{
    if k > 0 {
        lemma_prefix_sums(calls, c0, k - 1);
        assert(c0[k - 1] == calls[k - 1]);
    }
}

/// Whole ticks owed for `pending` nanoseconds.
pub open spec fn ticks_owed(pending: nat) -> nat {
    pending / (TICK_NANOS as nat)
}

/// Time is neither lost nor double-counted: a step that succeeds owes one
/// tick fewer and keeps the sub-tick remainder; a step that fails leaves
/// nothing owed.
pub proof fn law_step_drains_one_tick(before: nat, after: nat, stepped: bool)
    requires
        stepped == (before >= TICK_NANOS),
        stepped ==> after == before - TICK_NANOS,
        !stepped ==> after == before,
    ensures
        stepped ==> ticks_owed(after) + 1 == ticks_owed(before),
        stepped ==> after % (TICK_NANOS as nat) == before % (TICK_NANOS as nat),
        !stepped ==> ticks_owed(before) == 0,
{
    if stepped {
        vstd::arithmetic::div_mod::lemma_fundamental_div_mod(after as int, TICK_NANOS as int);
        vstd::arithmetic::div_mod::lemma_mod_pos_bound(after as int, TICK_NANOS as int);
        let q = after as int / TICK_NANOS as int;
        let r = after as int % TICK_NANOS as int;
        vstd::arithmetic::div_mod::lemma_fundamental_div_mod_converse(
            before as int,
            TICK_NANOS as int,
            q + 1,
            r,
        );
    }
}

} // verus!
