//! Spans of time and the clock.
use vstd::prelude::*;

verus! {

/// A span of time: whole seconds, and nanoseconds under one second.
#[derive(Debug, Clone, Copy, PartialEq, Eq, Structural)]
pub struct Duration {
    secs: u64,
    nanos: u32,
}

impl Duration {
    /// The nanoseconds are under one second.
    #[verifier::type_invariant]
    spec fn well_formed(self) -> bool {
        self.nanos < 1_000_000_000
    }

    /// The whole span in nanoseconds.
    pub closed spec fn total_nanos(self) -> int {
        self.secs * 1_000_000_000 + self.nanos
    }

    pub fn from_secs(secs: u64) -> (span: Duration)
        ensures
            span.total_nanos() == secs * 1_000_000_000,
    {
        Duration { secs, nanos: 0 }
    }

    pub fn from_millis(millis: u64) -> (span: Duration)
        ensures
            span.total_nanos() == millis * 1_000_000,
    {
        let nanos: u64 = (millis % 1000) * 1_000_000;
        Duration { secs: millis / 1000, nanos: nanos as u32 }
    }

    /// The span of `secs` seconds and `nanos` nanoseconds, where `nanos` is under one second.
    pub fn from_parts(secs: u64, nanos: u32) -> (span: Option<Duration>)
        ensures
            span is Some <==> nanos < 1_000_000_000,
            span matches Some(span) ==> span.total_nanos() == secs * 1_000_000_000 + nanos,
    {
        if nanos < 1_000_000_000 {
            Some(Duration { secs, nanos })
        } else {
            None
        }
    }

    /// The whole seconds of the span.
    pub fn as_secs(&self) -> (secs: u64)
        ensures
            secs == self.total_nanos() / 1_000_000_000,
    {
        proof {
            use_type_invariant(self);
        }
        self.secs
    }

    /// The nanoseconds of the span that are over its whole seconds.
    pub fn subsec_nanos(&self) -> (nanos: u32)
        ensures
            nanos == self.total_nanos() % 1_000_000_000,
    {
        proof {
            use_type_invariant(self);
        }
        self.nanos
    }

    /// The whole milliseconds of the span.
    pub fn as_millis(&self) -> (millis: u128)
        ensures
            millis == self.total_nanos() / 1_000_000,
            millis <= MAX_MILLIS,
    {
        proof {
            use_type_invariant(self);
        }
        self.secs as u128 * 1000 + (self.nanos / 1_000_000) as u128
    }
}

/// A point on the monotonic clock of `std::time`.
#[verifier::external_type_specification]
#[verifier::external_body]
pub struct ExInstant(std::time::Instant);

/// `Instant::now`: the clock's present reading, of which nothing is stated.
#[verifier::external_body]
pub(crate) fn clock_now() -> std::time::Instant {
    std::time::Instant::now()
}

/// `Instant::elapsed`, as a span of this library, whose nanoseconds are under a second: the result
/// depends on the clock, and nothing else is stated of it.
#[verifier::external_body]
pub(crate) fn elapsed_since(start: &std::time::Instant) -> Duration {
    let span = start.elapsed();
    Duration { secs: span.as_secs(), nanos: span.subsec_nanos() }
}

/// The most milliseconds that a span of time can hold.
pub const MAX_MILLIS: u128 = 18_446_744_073_709_551_615_999;

/// The whole milliseconds since `start`, by the clock: no more than a span of time can hold.
pub(crate) fn millis_since(start: &std::time::Instant) -> (millis: u128)
    ensures
        millis <= MAX_MILLIS,
{
    elapsed_since(start).as_millis()
}

} // verus!
