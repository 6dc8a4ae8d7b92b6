//! The monotonic clock, read in nanoseconds.

use vstd::prelude::*;

use std::time::{Duration, Instant};

verus! {

/// A point in time of the standard library. Nothing is assumed of it.
#[verifier::external_type_specification]
#[verifier::external_body]
pub struct ExInstant(std::time::Instant);

/// The longest span that a `Duration` holds, in nanoseconds.
pub const LATEST: u128 = 18_446_744_073_709_551_615_999_999_999;

/// `Instant::now`: the current time. Nothing is promised of it.
pub assume_specification[ std::time::Instant::now ]() -> (now: std::time::Instant)
;

/// `Instant::elapsed`: the time since `earlier`. Nothing is promised of it.
pub assume_specification[ std::time::Instant::elapsed ](
    earlier: &std::time::Instant,
) -> (span: std::time::Duration)
;

/// `Duration::as_nanos`: the whole nanoseconds of a span, whose seconds are a
/// `u64`.
pub assume_specification[ std::time::Duration::as_nanos ](
    span: &std::time::Duration,
) -> (nanos: u128)
    ensures
        nanos <= LATEST,
;

/// A clock that counts from the moment it was started.
#[derive(Debug, Clone, Copy)]
pub struct Clock {
    origin: Instant,
}

impl Clock {
    /// Whether the clock can show this time. Only a look at it tells.
    pub closed spec fn shows(&self, nanos: u128) -> bool {
        nanos <= LATEST
    }

    /// Starts a clock.
    pub fn start() -> (clock: Clock) {
        Clock { origin: Instant::now() }
    }

    /// Nanoseconds since the clock was started.
    pub fn now(&self) -> (nanos: u128)
        ensures
            nanos <= LATEST,
            self.shows(nanos),
    {
        let span: Duration = self.origin.elapsed();
        span.as_nanos()
    }
}

} // verus!
