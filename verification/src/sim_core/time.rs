//! Simulation time.
//!
//! The sim never reads the wall clock outside the top-level loop.
//! Everything else operates on `SimTime` / tick counts so that a recorded
//! replay is reproducible regardless of how fast real time passed.
use vstd::prelude::*;

verus! {

/// How many simulation ticks happen per second of sim time.
pub const TICKS_PER_SECOND: u32 = 10;

/// Nanoseconds in one tick.
pub const TICK_NANOS: u64 = 100_000_000;

/// The longest span: `u64::MAX` seconds and 999 999 999 nanoseconds.
pub const MAX_NANOS: u128 = 18_446_744_073_709_551_615_999_999_999;

/// A span of time, counted in whole nanoseconds, up to `MAX_NANOS`.
#[derive(Debug, Clone, Copy, PartialEq, Eq, Structural, PartialOrd, Ord, Hash)]
pub struct Duration {
    pub nanos: u128,
}

/// Whole seconds in `nanos` nanoseconds, held to `u64::MAX` (which only a
/// span beyond `MAX_NANOS` would pass).
pub open spec fn whole_secs(nanos: int) -> int {
    if nanos / 1_000_000_000 <= u64::MAX {
        nanos / 1_000_000_000
    } else {
        u64::MAX as int
    }
}

impl Duration {
    /// The empty span.
    pub fn zero() -> (r: Duration)
        ensures
            r.nanos == 0,
    {
        Duration { nanos: 0 }
    }

    pub fn from_nanos(nanos: u64) -> (r: Duration)
        ensures
            r.nanos == nanos,
    {
        Duration { nanos: nanos as u128 }
    }

    pub fn from_millis(millis: u64) -> (r: Duration)
        ensures
            r.nanos == millis * 1_000_000,
    {
        Duration { nanos: (millis as u128) * 1_000_000 }
    }

    pub fn from_secs(secs: u64) -> (r: Duration)
        ensures
            r.nanos == secs * 1_000_000_000,
    {
        Duration { nanos: (secs as u128) * 1_000_000_000 }
    }

    pub fn as_nanos(&self) -> (r: u128)
        ensures
            r == self.nanos,
    {
        self.nanos
    }

    /// Whole seconds in this span.
    pub fn as_secs(&self) -> (r: u64)
        ensures
            r == whole_secs(self.nanos as int),
    {
        let s: u128 = self.nanos / 1_000_000_000;
        if s <= 0xffff_ffff_ffff_ffffu128 {
            s as u64
        } else {
            0xffff_ffff_ffff_ffffu64
        }
    }

    /// `self + other`, or `None` if that is longer than `MAX_NANOS`.
    pub fn checked_add(self, other: Duration) -> (r: Option<Duration>)
        ensures
            self.nanos + other.nanos <= MAX_NANOS ==> r == Some(
                Duration { nanos: (self.nanos + other.nanos) as u128 },
            ),
            self.nanos + other.nanos > MAX_NANOS ==> r.is_none(),
    {
        if self.nanos <= MAX_NANOS && other.nanos <= MAX_NANOS - self.nanos {
            Some(Duration { nanos: self.nanos + other.nanos })
        } else {
            None
        }
    }

    /// `self * k`, or `None` if that is longer than `MAX_NANOS`.
    pub fn checked_mul(self, k: u32) -> (r: Option<Duration>)
        ensures
            self.nanos * k <= MAX_NANOS ==> r == Some(Duration { nanos: (self.nanos * k) as u128 }),
            self.nanos * k > MAX_NANOS ==> r.is_none(),
    {
        if k == 0 {
            assert(self.nanos * k == 0) by (nonlinear_arith)
                requires
                    k == 0,
            ;
            Some(Duration { nanos: 0 })
        } else if self.nanos > MAX_NANOS {
            assert(self.nanos * k > MAX_NANOS) by (nonlinear_arith)
                requires
                    k >= 1,
                    self.nanos > MAX_NANOS,
            ;
            None
        } else {
            let n: u128 = self.nanos;
            assert(n * k <= MAX_NANOS * 0xffff_ffff) by (nonlinear_arith)
                requires
                    n <= MAX_NANOS,
                    k <= 0xffff_ffff,
            ;
            let p: u128 = n * (k as u128);
            if p <= MAX_NANOS {
                Some(Duration { nanos: p })
            } else {
                None
            }
        }
    }

    /// `self / k` rounded down, or `None` when `k` is zero.
    pub fn checked_div(self, k: u32) -> (r: Option<Duration>)
        ensures
            k != 0 ==> r == Some(Duration { nanos: (self.nanos / (k as u128)) as u128 }),
            k == 0 ==> r.is_none(),
    {
        if k == 0 {
            None
        } else {
            Some(Duration { nanos: self.nanos / (k as u128) })
        }
    }
}

/// One tick of simulation time: a tenth of a second.
pub fn tick_duration() -> (r: Duration)
    ensures
        r.nanos == TICK_NANOS,
{
    Duration { nanos: TICK_NANOS as u128 }
}

/// A point in simulation time, expressed as an elapsed tick count.
#[derive(Debug, Clone, Copy, PartialEq, Eq, Structural, PartialOrd, Ord)]
pub struct SimTime {
    ticks: u64,
}

impl SimTime {
    pub closed spec fn tick_value(self) -> u64 {
        self.ticks
    }

    /// The start of simulation time.
    pub fn zero() -> (r: SimTime)
        ensures
            r.tick_value() == 0,
    {
        SimTime { ticks: 0 }
    }

    pub fn from_ticks(ticks: u64) -> (r: SimTime)
        ensures
            r.tick_value() == ticks,
    {
        SimTime { ticks }
    }

    pub fn ticks(&self) -> (r: u64)
        ensures
            r == self.tick_value(),
    {
        self.ticks
    }

    /// Elapsed time as a duration: one tick duration per tick, with the
    /// tick count taken modulo 2^32 as the tick multiplier is 32 bits wide,
    /// so the duration wraps after 2^32 ticks (about 13.6 years of
    /// simulation time at 10 Hz).
    pub fn as_duration(&self) -> (r: Duration)
        ensures
            r.nanos == TICK_NANOS * (self.tick_value() % 0x1_0000_0000),
    {
        let t: u64 = self.ticks;
        let k: u32 = t as u32;
        assert(k == t % 0x1_0000_0000) by (bit_vector)
            requires
                k == t as u32,
        ;
        assert(TICK_NANOS * k <= u64::MAX) by (nonlinear_arith)
            requires
                k <= 0xffff_ffffu32,
        ;
        Duration { nanos: (TICK_NANOS as u128) * (k as u128) }
    }

    pub fn advance(&mut self, ticks: u64)
        requires
            old(self).tick_value() + ticks <= u64::MAX,
        ensures
            final(self).tick_value() == old(self).tick_value() + ticks,
    {
        self.ticks = self.ticks + ticks;
    }
}

impl Default for SimTime {
    fn default() -> (r: SimTime)
        ensures
            r.tick_value() == 0,
    {
        SimTime { ticks: 0 }
    }
}

/// Owns the simulation's current time and advances it one whole tick at a
/// time. Subsystems read it; only the sim loop advances it.
#[derive(Debug)]
pub struct SimClock {
    now: SimTime,
}

impl SimClock {
    pub closed spec fn spec_now(self) -> SimTime {
        self.now
    }

    pub fn new() -> (r: SimClock)
        ensures
            r.spec_now().tick_value() == 0,
    {
        SimClock { now: SimTime::zero() }
    }

    pub fn now(&self) -> (r: SimTime)
        ensures
            r == self.spec_now(),
    {
        self.now
    }

    pub fn tick_count(&self) -> (r: u64)
        ensures
            r == self.spec_now().tick_value(),
    {
        self.now.ticks()
    }

    /// Advance the clock by exactly one tick.
    pub fn tick(&mut self)
        requires
            old(self).spec_now().tick_value() < u64::MAX,
        ensures
            final(self).spec_now().tick_value() == old(self).spec_now().tick_value() + 1,
    {
        self.now.advance(1);
    }
}

impl Default for SimClock {
    fn default() -> (r: SimClock)
        ensures
            r.spec_now().tick_value() == 0,
    {
        SimClock::new()
    }
}

} // verus!
