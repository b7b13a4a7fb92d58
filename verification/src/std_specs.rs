//! What this library takes on trust of the standard library, where `vstd`
//! says nothing of it.

use vstd::prelude::*;

verus! {

/// `std::time::Instant`, a reading of the monotonic clock of the machine.
/// Nothing is known of what a value holds.
#[verifier::external_type_specification]
#[verifier::external_body]
pub struct ExInstant(std::time::Instant);

/// `Instant::now` reads the monotonic clock. Nothing is claimed of the result.
pub assume_specification[ std::time::Instant::now ]() -> (t: std::time::Instant);

/// `Instant::saturating_duration_since` gives the time from `earlier` to the
/// instant, or no time at all where `earlier` is the later of the two. Nothing
/// is claimed of the result.
pub assume_specification[ std::time::Instant::saturating_duration_since ](
    t: &std::time::Instant,
    earlier: std::time::Instant,
) -> (d: std::time::Duration);

/// `Duration::as_nanos` gives the whole duration in nanoseconds. Nothing is
/// claimed of the result.
pub assume_specification[ std::time::Duration::as_nanos ](d: &std::time::Duration) -> (n: u128);

/// `==` on `str`: two strings are equal exactly when they hold the same
/// characters in the same order.
pub assume_specification[ <str as PartialEq>::eq ](a: &str, b: &str) -> (r: bool)
    ensures
        r == (a@ == b@),
;

} // verus!
