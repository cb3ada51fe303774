//! Reading the time.

use vstd::prelude::*;

verus! {

/// A point in time of the standard library, which is only held.
#[verifier::external_type_specification]
#[verifier::external_body]
pub struct ExInstant(std::time::Instant);

/// `std::time::Instant::now`. Nothing is promised of the instant.
pub assume_specification[ std::time::Instant::now ]() -> std::time::Instant;

/// Calls `std::time::Instant::elapsed` and gives the time in nanoseconds. Nothing is promised of
/// it, not even that a later call gives no less: any number may come.
#[verifier::external_body]
fn elapsed_nanos(start: &std::time::Instant) -> u128 {
    start.elapsed().as_nanos()
}

/// A clock that counts nanoseconds since it was started.
pub struct Clock {
    start: std::time::Instant,
}

impl Clock {
    /// The clock's start is a time that the system may have given.
    pub closed spec fn is_started(&self) -> bool {
        call_ensures(std::time::Instant::now, (), self.start)
    }

    /// This clock may read `nanos`: the system may give that as the time since its start.
    pub closed spec fn may_read(&self, nanos: u128) -> bool {
        call_ensures(elapsed_nanos, (&self.start,), nanos)
    }

    /// A clock that starts now.
    pub fn start() -> (clock: Clock)
        ensures
            clock.is_started(),
    {
        Clock { start: std::time::Instant::now() }
    }

    /// The nanoseconds since the clock was started.
    pub fn now(&self) -> (nanos: u128)
        ensures
            self.may_read(nanos),
    {
        elapsed_nanos(&self.start)
    }
}

/// What a clock may read is the time since its start, and its start is the time of the system.
proof fn law_clock(clock: Clock, nanos: u128)
    ensures
        clock.is_started() <==> call_ensures(std::time::Instant::now, (), clock.start),
        clock.may_read(nanos) <==> call_ensures(elapsed_nanos, (&clock.start,), nanos),
{
}

} // verus!
