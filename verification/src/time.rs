//! Lengths of time.

use vstd::prelude::*;

verus! {

/// A length of time in nanoseconds.
#[derive(Clone, Copy, Debug, PartialEq, Eq, Structural)]
pub struct Duration {
    pub nanos: u128,
}

impl Duration {
    /// `secs` seconds.
    pub fn from_secs(secs: u64) -> (d: Duration)
        ensures
            d.nanos == secs * 1_000_000_000,
    {
        Duration { nanos: secs as u128 * 1_000_000_000 }
    }

    /// `millis` milliseconds.
    pub fn from_millis(millis: u64) -> (d: Duration)
        ensures
            d.nanos == millis * 1_000_000,
    {
        Duration { nanos: millis as u128 * 1_000_000 }
    }

    /// The whole milliseconds in this length of time.
    pub fn as_millis(&self) -> (millis: u128)
        ensures
            millis == self.nanos / 1_000_000,
    {
        self.nanos / 1_000_000
    }
}

/// The shorter of two lengths of time.
pub open spec fn shorter(a: Duration, b: Duration) -> Duration {
    if a.nanos <= b.nanos {
        a
    } else {
        b
    }
}

/// The shorter of two lengths of time.
pub fn min(a: Duration, b: Duration) -> (d: Duration)
    ensures
        d == shorter(a, b),
        d == a || d == b,
        d.nanos <= a.nanos,
        d.nanos <= b.nanos,
{
    if a.nanos <= b.nanos {
        a
    } else {
        b
    }
}

} // verus!
