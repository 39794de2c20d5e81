//! Typed identifiers for simulation entities. Distinct newtypes keep a
//! `SensorId` from being mixed up with a `TaskId` at a call site.
use vstd::prelude::*;

verus! {

/// Monotonically increasing counter used to hand out fresh ids, one per
/// id namespace (sensors, tasks, ...).
#[derive(Debug)]
pub struct IdGenerator {
    next_value: u64,
}

impl IdGenerator {
    /// The value the next call to `next` returns.
    pub closed spec fn upcoming(self) -> u64 {
        self.next_value
    }

    pub fn new() -> (r: IdGenerator)
        ensures
            r.upcoming() == 0,
    {
        IdGenerator { next_value: 0 }
    }

    /// Hand out the current value and move on to the following one,
    /// wrapping around after `u64::MAX`.
    pub fn next(&mut self) -> (r: u64)
        ensures
            next_step(*old(self), *final(self), r),
            r == old(self).upcoming(),
            final(self).upcoming() == (if r == u64::MAX {
                0
            } else {
                (r + 1) as u64
            }),
    {
        let r = self.next_value;
        self.next_value = r.wrapping_add(1);
        r
    }
}

impl Default for IdGenerator {
    fn default() -> (r: IdGenerator)
        ensures
            r.upcoming() == 0,
    {
        IdGenerator::new()
    }
}

/// `after` and `out` are what `next` gives on `before`, by its contract.
pub open spec fn next_step(before: IdGenerator, after: IdGenerator, out: u64) -> bool {
    &&& out == before.upcoming()
    &&& after.upcoming() == if out == u64::MAX {
        0
    } else {
        (out + 1) as u64
    }
}

/// A fresh generator hands out 0, 1, 2, ... in order: over a run of
/// `next` calls starting from `new`, the `k`-th id is `k` (for up to 2^64
/// calls, the last of which hands out `u64::MAX`), so ids strictly increase
/// and never repeat.
pub proof fn law_fresh_ids_count_up(states: Seq<IdGenerator>, outs: Seq<u64>)
    requires
        states.len() == outs.len() + 1,
        outs.len() <= u64::MAX + 1,
        states[0].upcoming() == 0,
        forall|k: int| 0 <= k < outs.len() ==> next_step(states[k], states[k + 1], #[trigger] outs[k]),
    ensures
        forall|k: int| 0 <= k < outs.len() ==> #[trigger] outs[k] == k,
        forall|a: int, b: int| 0 <= a < b < outs.len() ==> outs[a] < outs[b],
    decreases outs.len(),
{
    if outs.len() > 0 {
        let n = outs.len() - 1;
        law_fresh_ids_count_up(states.drop_last(), outs.drop_last());
        assert forall|k: int| 0 <= k < outs.len() implies #[trigger] outs[k] == k by {
            if k < n {
                assert(outs.drop_last()[k] == outs[k]);
            } else {
                if n > 0 {
                    assert(outs.drop_last()[n - 1] == outs[n - 1]);
                    assert(next_step(states[n - 1], states[n], outs[n - 1]));
                }
                assert(next_step(states[n], states[n + 1], outs[n]));
            }
        }
    }
}

#[derive(Debug, Clone, Copy, PartialEq, Eq, Structural, Hash, PartialOrd, Ord)]
pub struct SensorId(pub u64);

#[derive(Debug, Clone, Copy, PartialEq, Eq, Structural, Hash, PartialOrd, Ord)]
pub struct TaskId(pub u64);

#[derive(Debug, Clone, Copy, PartialEq, Eq, Structural, Hash, PartialOrd, Ord)]
pub struct EntityId(pub u64);

} // verus!
