//! The session clock.
use vstd::prelude::*;

verus! {

#[verifier::external_type_specification]
#[verifier::external_body]
pub struct ExInstant(std::time::Instant);

/// Reads the monotonic clock through `std::time::Instant::now`. Nothing is
/// claimed of the instant that comes back.
#[verifier::external_body]
fn read_instant() -> std::time::Instant {
    std::time::Instant::now()
}

/// The time since an instant through `std::time::Instant::elapsed`, as
/// nanoseconds. Nothing is claimed of its value.
#[verifier::external_body]
fn nanos_since(origin: &std::time::Instant) -> u64 {
    origin.elapsed().as_nanos() as u64
}

/// A monotonic clock that counts nanoseconds from when it was started.
#[derive(Debug, Clone, Copy)]
pub struct Clock {
    origin: std::time::Instant,
}

impl Clock {
    /// Starts a clock at zero.
    pub fn start() -> Clock {
        Clock { origin: read_instant() }
    }

    /// Nanoseconds since the clock was started. What a reading decides is
    /// stated by the functions that take one.
    pub fn now(&self) -> u64 {
        nanos_since(&self.origin)
    }
}

} // verus!
