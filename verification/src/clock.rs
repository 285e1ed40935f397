//! The wall clock, as far as the shrinking budget needs it.

use crate::time::Duration;
use std::time::Instant;
use vstd::prelude::*;

verus! {

/// `std::time::Instant`, a point in time that only the clock can interpret.
#[verifier::external_type_specification]
#[verifier::external_body]
pub struct ExInstant(std::time::Instant);

/// `Instant::now` reads the clock. Nothing is claimed of the reading.
pub assume_specification[ Instant::now ]() -> Instant;

/// `Instant::elapsed` gives the time since the instant was taken. Nothing is
/// claimed of its length.
pub assume_specification[ Instant::elapsed ](start: &Instant) -> core::time::Duration;

/// `Duration::as_secs` gives the whole seconds of a span. Nothing is claimed
/// of their number.
pub assume_specification[ core::time::Duration::as_secs ](span: &core::time::Duration) -> u64;

/// `Duration::subsec_nanos` gives the part of a span below one second, in
/// nanoseconds: always less than a thousand million.
pub assume_specification[ core::time::Duration::subsec_nanos ](
    span: &core::time::Duration,
) -> (nanos: u32)
    ensures
        nanos < 1_000_000_000,
;

/// A running clock that tells how long ago it was started.
pub struct Stopwatch {
    start: Instant,
}

impl Stopwatch {
    /// A clock that starts now.
    pub fn start() -> Stopwatch {
        Stopwatch { start: Instant::now() }
    }

    /// The time since the clock was started.
    pub fn elapsed(&self) -> Duration {
        let span = self.start.elapsed();
        Duration::new(span.as_secs(), span.subsec_nanos())
    }

    /// Whether more than `budget` has passed since the clock was started.
    /// The clock decides, but for the longest span that there is: that
    /// budget is never exceeded.
    pub fn exceeds(&self, budget: &Duration) -> (exceeded: bool)
        ensures
            exceeded ==> budget@ < Duration::spec_longest(),
    {
        self.elapsed().exceeds(budget)
    }
}

} // verus!
