//! The monotonic clock, as far as the registry needs it.

use std::time::{Duration, Instant};
use vstd::prelude::*;

verus! {

/// Makes `std::time::Instant` known to the verifier as a type whose
/// inside it does not see.
#[verifier::external_type_specification]
#[verifier::external_body]
pub struct ExInstant(Instant);

/// Reads the monotonic clock with `Instant::now`. What comes back depends
/// on when the call is made, so nothing is said of it.
#[verifier::external_body]
pub(crate) fn clock_now() -> Instant {
    Instant::now()
}

/// The time that has gone by since `since`, by `Instant::elapsed`. It
/// depends on when the call is made, so nothing is said of it.
#[verifier::external_body]
pub(crate) fn clock_elapsed(since: &Instant) -> Duration {
    since.elapsed()
}

/// A duration in whole nanoseconds, by `Duration::as_nanos`. Nothing is
/// said of the number.
#[verifier::external_body]
pub(crate) fn duration_nanos(duration: &Duration) -> u128 {
    duration.as_nanos()
}

} // verus!
