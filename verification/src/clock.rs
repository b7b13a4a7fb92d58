//! Monotonic time, as whole nanoseconds since a clock was started.

use std::time::Instant;
use vstd::prelude::*;

verus! {

/// A monotonic clock that counts from the moment it was started.
pub struct Clock {
    origin: Instant,
}

impl Clock {
    /// Starts a clock at the present moment.
    pub fn start() -> (clock: Clock) {
        Clock { origin: Instant::now() }
    }

    /// Nanoseconds since the clock was started, held at `u64::MAX` once the
    /// count no longer fits.
    pub fn now(&self) -> (t: u64) {
        clamp_nanos(Instant::now().saturating_duration_since(self.origin).as_nanos())
    }
}

/// A count of nanoseconds as a time of the clock: the count itself where it
/// fits, else `u64::MAX`.
pub open spec fn spec_clamp_nanos(nanos: u128) -> u64 {
    if nanos > u64::MAX {
        u64::MAX
    } else {
        nanos as u64
    }
}

/// Turns a count of nanoseconds into a time of the clock.
pub fn clamp_nanos(nanos: u128) -> (t: u64)
    ensures
        t == spec_clamp_nanos(nanos),
{
    if nanos > u64::MAX as u128 {
        u64::MAX
    } else {
        nanos as u64
    }
}

} // verus!
