//! Durations and readings of a monotonic clock, in nanoseconds.

use vstd::prelude::*;

verus! {

/// The greatest length of time: so many seconds as 64 bits count, and all but a
/// nanosecond of one more.
pub const MAX_DURATION_NANOS: u128 = 18_446_744_073_709_551_615_999_999_999;

/// A length of time.
#[derive(Clone, Copy, Debug, PartialEq, Eq, PartialOrd, Ord, Hash, Structural)]
pub struct Duration {
    pub nanos: u128,
}

/// A reading of a monotonic clock.
#[derive(Clone, Copy, Debug, PartialEq, Eq, PartialOrd, Ord, Hash, Structural)]
pub struct Instant {
    pub nanos: u128,
}

/// The greatest 64-bit integer at or below `value`.
pub open spec fn held(value: nat) -> u64 {
    if value <= u64::MAX {
        value as u64
    } else {
        u64::MAX
    }
}

impl Duration {
    pub open spec fn spec_of_micros(micros: u64) -> Duration {
        Duration { nanos: (micros * 1_000) as u128 }
    }

    pub open spec fn spec_of_millis(millis: u64) -> Duration {
        Duration { nanos: (millis * 1_000_000) as u128 }
    }

    /// So many seconds and nanoseconds.
    pub fn new(seconds: u64, nanos: u32) -> (duration: Self)
        requires
            seconds * 1_000_000_000 + nanos <= MAX_DURATION_NANOS,
        ensures
            duration.nanos == seconds * 1_000_000_000 + nanos,
    {
        Duration { nanos: seconds as u128 * 1_000_000_000 + nanos as u128 }
    }

    pub fn from_nanos(nanos: u64) -> (duration: Self)
        ensures
            duration == (Duration { nanos: nanos as u128 }),
    {
        Duration { nanos: nanos as u128 }
    }

    pub fn from_micros(micros: u64) -> (duration: Self)
        ensures
            duration == Duration::spec_of_micros(micros),
    {
        Duration { nanos: micros as u128 * 1_000 }
    }

    pub fn from_millis(millis: u64) -> (duration: Self)
        ensures
            duration == Duration::spec_of_millis(millis),
    {
        Duration { nanos: millis as u128 * 1_000_000 }
    }

    pub fn from_secs(seconds: u64) -> (duration: Self)
        ensures
            duration.nanos == seconds * 1_000_000_000,
    {
        Duration { nanos: seconds as u128 * 1_000_000_000 }
    }

    /// Whole microseconds.
    pub fn as_micros(self) -> (micros: u128)
        ensures
            micros == self.nanos / 1_000,
    {
        self.nanos / 1_000
    }

    /// Whole milliseconds.
    pub fn as_millis(self) -> (millis: u128)
        ensures
            millis == self.nanos / 1_000_000,
    {
        self.nanos / 1_000_000
    }

    pub open spec fn spec_held_micros(self) -> u64 {
        held((self.nanos / 1_000) as nat)
    }

    /// Whole microseconds, or the greatest 64-bit integer where they are more.
    pub fn held_micros(self) -> (micros: u64)
        ensures
            micros == self.spec_held_micros(),
    {
        let micros: u128 = self.as_micros();
        if micros <= u64::MAX as u128 {
            micros as u64
        } else {
            u64::MAX
        }
    }

    pub fn saturating_mul(self, factor: u32) -> (product: Self)
        ensures
            product.nanos == if self.nanos * factor <= MAX_DURATION_NANOS {
                self.nanos * factor
            } else {
                MAX_DURATION_NANOS as int
            },
    {
        match self.nanos.checked_mul(factor as u128) {
            Some(nanos) if nanos <= MAX_DURATION_NANOS => Duration { nanos },
            _ => Duration { nanos: MAX_DURATION_NANOS },
        }
    }
}

impl Instant {
    pub open spec fn spec_after(self, duration: Duration) -> Instant {
        Instant {
            nanos: if self.nanos + duration.nanos <= u128::MAX {
                (self.nanos + duration.nanos) as u128
            } else {
                u128::MAX
            },
        }
    }

    pub open spec fn spec_since(self, earlier: Instant) -> Duration {
        Duration {
            nanos: if self.nanos >= earlier.nanos {
                (self.nanos - earlier.nanos) as u128
            } else {
                0
            },
        }
    }

    pub fn from_nanos(nanos: u64) -> (instant: Self)
        ensures
            instant == (Instant { nanos: nanos as u128 }),
    {
        Instant { nanos: nanos as u128 }
    }

    /// The reading `duration` later.
    pub fn after(self, duration: Duration) -> (later: Self)
        ensures
            later == self.spec_after(duration),
    {
        match self.nanos.checked_add(duration.nanos) {
            Some(nanos) => Instant { nanos },
            None => Instant { nanos: u128::MAX },
        }
    }

    /// The time since `earlier`, or none where that is later.
    pub fn saturating_duration_since(self, earlier: Instant) -> (duration: Duration)
        ensures
            duration == self.spec_since(earlier),
    {
        if self.nanos >= earlier.nanos {
            Duration { nanos: self.nanos - earlier.nanos }
        } else {
            Duration { nanos: 0 }
        }
    }
}

/// A reading and the time to a later one give that one back, as far as the
/// clock reaches.
pub proof fn law_time_passes(start: Instant, duration: Duration)
    requires
        start.nanos + duration.nanos <= u128::MAX,
    ensures
        start.spec_after(duration).nanos == start.nanos + duration.nanos,
        start.spec_after(duration).spec_since(start) == duration,
        start.spec_since(start.spec_after(duration)).nanos == 0,
{
}

/// The time between two readings is their difference, or none where the first
/// is the later one. No reading is later than the last of the clock.
pub proof fn law_time_between(earlier: Instant, later: Instant, duration: Duration)
    ensures
        earlier.nanos <= later.nanos ==> later.spec_since(earlier).nanos == later.nanos
            - earlier.nanos,
        later.nanos <= earlier.nanos ==> later.spec_since(earlier).nanos == 0,
        earlier.nanos <= earlier.spec_after(duration).nanos,
        earlier.nanos + duration.nanos > u128::MAX ==> earlier.spec_after(duration).nanos
            == u128::MAX,
{
}

/// A microsecond is a thousand nanoseconds, a millisecond a million, and what
/// 64 bits do not hold is cut off at their greatest integer.
pub proof fn law_units(count: u64, duration: Duration)
    ensures
        Duration::spec_of_micros(count).nanos == 1_000 * count,
        Duration::spec_of_millis(count).nanos == 1_000_000 * count,
        Duration::spec_of_micros(count).spec_held_micros() == count,
        1_000 * duration.spec_held_micros() <= duration.nanos,
        duration.spec_held_micros() < u64::MAX ==> duration.nanos < 1_000
            * duration.spec_held_micros() + 1_000,
{
}

} // verus!
