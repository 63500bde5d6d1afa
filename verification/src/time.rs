//! Lengths of time and points on a monotonic clock.
//!
//! A point in time is a count of nanoseconds (`u128`) since some fixed moment;
//! the callers of the library read the clock.
use vstd::prelude::*;

verus! {

/// The longest length of time that can be expressed, in nanoseconds.
pub const MAX_DELAY_NANOS: u128 = 18_446_744_073_709_551_615_999_999_999;

/// Nanoseconds in a millisecond.
pub const NANOS_PER_MILLI: u128 = 1_000_000;

/// A length of time.
#[derive(Clone, Copy, Debug, PartialEq, Eq, Structural)]
pub struct Delay {
    /// The length in nanoseconds.
    pub nanos: u128,
}

impl Delay {
    /// Every length of time is at most the longest one.
    pub open spec fn wf(self) -> bool {
        self.nanos <= MAX_DELAY_NANOS
    }

    /// The length of `millis` milliseconds.
    pub fn from_millis(millis: u64) -> (r: Delay)
        ensures
            r.wf(),
            r.nanos == millis * NANOS_PER_MILLI,
    {
        Delay { nanos: (millis as u128) * NANOS_PER_MILLI }
    }

    /// Twice this length, or the longest length if that cannot be expressed.
    pub fn saturating_double(self) -> (r: Delay)
        requires
            self.wf(),
        ensures
            r.wf(),
            r.nanos == if 2 * self.nanos <= MAX_DELAY_NANOS { 2 * self.nanos } else {
                MAX_DELAY_NANOS as int
            },
    {
        let d: u128 = self.nanos * 2;
        if d <= MAX_DELAY_NANOS {
            Delay { nanos: d }
        } else {
            Delay { nanos: MAX_DELAY_NANOS }
        }
    }
}

/// How long before `now` the moment `since` was; nothing if it lies ahead.
pub open spec fn spec_elapsed(now: u128, since: u128) -> int {
    if now >= since {
        now - since
    } else {
        0
    }
}

/// How long before `now` the moment `since` was; nothing if it lies ahead.
pub fn elapsed(now: u128, since: u128) -> (r: u128)
    ensures
        r == spec_elapsed(now, since),
{
    if now >= since {
        now - since
    } else {
        0
    }
}

/// The time that has passed takes the earlier moment to the later one, and is nothing where
/// the earlier one lies ahead.
pub proof fn law_elapsed(now: u128, since: u128)
    ensures
        spec_elapsed(now, since) >= 0,
        since <= now ==> since + spec_elapsed(now, since) == now,
        since > now ==> spec_elapsed(now, since) == 0,
{
}

} // verus!
