//! The monotonic clock by which the recording engine measures its sampling windows.

use vstd::prelude::*;

verus! {

/// `std::time::Instant`, a reading of the monotonic clock. Nothing is known of what it holds.
#[verifier::external_type_specification]
#[verifier::external_body]
pub struct ExInstant(std::time::Instant);

/// `std::time::Instant::now` reads the monotonic clock. Nothing is claimed of the reading.
pub assume_specification[ std::time::Instant::now ]() -> (now: std::time::Instant);

/// `std::time::Instant::elapsed` gives the time that has passed since the
/// reading was taken. Nothing is claimed of its length.
pub assume_specification[ std::time::Instant::elapsed ](start: &std::time::Instant) -> (elapsed:
    core::time::Duration);

/// `core::time::Duration::as_nanos` gives the length of a duration in whole
/// nanoseconds. Nothing is claimed of the number.
pub assume_specification[ core::time::Duration::as_nanos ](duration: &core::time::Duration) -> (nanos:
    u128);

/// A monotonic clock that counts nanoseconds from the moment it was started.
#[derive(Debug, Clone, Copy)]
pub struct MonotonicClock {
    origin: std::time::Instant,
}

impl MonotonicClock {
    /// Starts a clock.
    pub fn start() -> (clock: Self) {
        MonotonicClock { origin: std::time::Instant::now() }
    }

    /// The nanoseconds that have passed since the clock was started.
    pub fn nanos(&self) -> (nanos: u128) {
        let elapsed = self.origin.elapsed();
        elapsed.as_nanos()
    }
}

} // verus!
