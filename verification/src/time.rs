//! Time spans as the server's limits and waits use them.
use vstd::prelude::*;

verus! {

pub const NANOS_PER_SEC: u32 = 1_000_000_000;

pub const NANOS_PER_MILLI: u32 = 1_000_000;

pub const MILLIS_PER_SEC: u64 = 1_000;

/// A span of time in whole seconds and a fraction in nanoseconds.
#[derive(Clone, Copy, Debug, PartialEq, Eq, Structural)]
pub struct Duration {
    pub secs: u64,
    pub nanos: u32,
}

impl Duration {
    /// The fraction stays below one second.
    pub open spec fn wf(self) -> bool {
        self.nanos < NANOS_PER_SEC
    }

    /// The span in nanoseconds.
    pub open spec fn total_nanos(self) -> nat {
        self.secs as nat * NANOS_PER_SEC as nat + self.nanos as nat
    }

    pub fn from_secs(secs: u64) -> (span: Duration)
        ensures
            span.wf(),
            span == (Duration { secs, nanos: 0 }),
    {
        Duration { secs, nanos: 0 }
    }

    pub fn from_millis(millis: u64) -> (span: Duration)
        ensures
            span.wf(),
            span.total_nanos() == millis * NANOS_PER_MILLI,
    {
        let secs: u64 = millis / MILLIS_PER_SEC;
        let rest: u64 = millis % MILLIS_PER_SEC;
        let span = Duration { secs, nanos: rest as u32 * NANOS_PER_MILLI };
        assert(millis == secs * 1_000 + rest);
        span
    }

    /// The number of whole seconds that covers the span, never zero: what a client that
    /// counts in seconds must wait at least.
    pub open spec fn covering_secs(self) -> nat {
        let up = self.secs + if self.nanos != 0 { 1int } else { 0int };
        if up > u64::MAX {
            u64::MAX as nat
        } else if up == 0 {
            1
        } else {
            up as nat
        }
    }

    pub fn whole_secs_at_least_one(self) -> (secs: u64)
        ensures
            secs == self.covering_secs(),
    {
        let fraction: u64 = if self.nanos != 0 { 1 } else { 0 };
        let up: u64 = self.secs.saturating_add(fraction);
        if up == 0 {
            1
        } else {
            up
        }
    }
}

/// Waiting the covering number of seconds waits out the span, unless the span is longer than
/// the largest number of seconds.
pub proof fn law_covering_secs_cover(span: Duration)
    requires
        span.wf(),
        span.covering_secs() < u64::MAX,
    ensures
        span.covering_secs() * NANOS_PER_SEC >= span.total_nanos(),
        span.covering_secs() >= 1,
{
}

/// The seconds that a client is told to wait are the fewest that cover the span, and at least one.
pub proof fn law_waits_are_as_short_as_they_can_be(span: Duration, secs: nat)
    requires
        span.wf(),
        secs >= 1,
        secs * 1_000_000_000 >= span.secs * 1_000_000_000 + span.nanos,
        secs <= u64::MAX,
    ensures
        1 <= span.covering_secs() <= secs,
{
}

} // verus!
