//! Time as the decisions see it: instants and spans, counted in nanoseconds.

use vstd::prelude::*;

verus! {

/// Nanoseconds in a second.
pub const NANOS: u128 = 1_000_000_000;

/// One more than the largest number of nanoseconds that a span or an instant holds: what is left
/// of it in whole seconds fits in 64 bits.
pub const NANOS_END: u128 = 18_446_744_073_709_551_616_000_000_000;

/// A span of time.
#[derive(Debug, Clone, Copy)]
pub struct Duration {
    nanos: u128,
}

/// A point in time, as the span since some fixed start.
#[derive(Debug, Clone, Copy)]
pub struct Instant {
    nanos: u128,
}

impl View for Duration {
    type V = int;

    closed spec fn view(&self) -> int {
        self.nanos as int
    }
}

impl View for Instant {
    type V = int;

    closed spec fn view(&self) -> int {
        self.nanos as int
    }
}

/// The span from one instant to another, none where the second is not the later one.
pub open spec fn span(from: int, to: int) -> int {
    if from <= to {
        to - from
    } else {
        0
    }
}

/// The whole seconds of a span.
pub open spec fn whole_secs(nanos: int) -> int {
    nanos / (NANOS as int)
}

/// A number of seconds in nanoseconds.
pub open spec fn secs(n: int) -> int {
    n * NANOS
}

impl Duration {
    #[verifier::type_invariant]
    spec fn fits(self) -> bool {
        self.nanos < NANOS_END
    }

    /// A span of whole seconds.
    pub fn from_secs(n: u64) -> (r: Duration)
        ensures
            r@ == secs(n as int),
    {
        Duration { nanos: n as u128 * NANOS }
    }

    /// A span of seconds and nanoseconds, or nothing where the nanoseconds make up a second.
    pub fn from_parts(n: u64, nanos: u32) -> (r: Option<Duration>)
        ensures
            r is Some <==> nanos < NANOS,
            r is Some ==> r->Some_0@ == secs(n as int) + nanos,
    {
        if (nanos as u128) < NANOS {
            Some(Duration { nanos: n as u128 * NANOS + nanos as u128 })
        } else {
            None
        }
    }

    /// The whole seconds of the span.
    pub fn as_secs(&self) -> (r: u64)
        ensures
            r == whole_secs(self@),
    {
        proof {
            use_type_invariant(self);
        }
        (self.nanos / NANOS) as u64
    }

    /// Whether the span is no shorter than another.
    pub fn at_least(&self, other: &Duration) -> (r: bool)
        ensures
            r == (self@ >= other@),
    {
        self.nanos >= other.nanos
    }
}

impl Instant {
    #[verifier::type_invariant]
    spec fn fits(self) -> bool {
        self.nanos < NANOS_END
    }

    /// The instant that lies a span after the start.
    pub fn from_start(d: Duration) -> (r: Instant)
        ensures
            r@ == d@,
    {
        proof {
            use_type_invariant(&d);
        }
        Instant { nanos: d.nanos }
    }

    /// The instant that lies a span after this one, or nothing where that is out of range.
    pub fn checked_plus(&self, d: Duration) -> (r: Option<Instant>)
        ensures
            r is Some <==> self@ + d@ < NANOS_END,
            r is Some ==> r->Some_0@ == self@ + d@,
    {
        proof {
            use_type_invariant(self);
            use_type_invariant(&d);
        }
        let nanos: u128 = self.nanos + d.nanos;
        if nanos < NANOS_END {
            Some(Instant { nanos })
        } else {
            None
        }
    }

    /// The span from an earlier instant to this one; none where the other is the later one.
    pub fn duration_since(&self, earlier: Instant) -> (r: Duration)
        ensures
            r@ == span(earlier@, self@),
    {
        proof {
            use_type_invariant(self);
        }
        if earlier.nanos <= self.nanos {
            Duration { nanos: self.nanos - earlier.nanos }
        } else {
            Duration { nanos: 0 }
        }
    }
}

/// A span is the time that has passed, and none where the clock has run backwards.
pub proof fn law_spans(from: int, to: int)
    ensures
        from <= to ==> from + span(from, to) == to,
        to < from ==> span(from, to) == 0,
{
}

/// The whole seconds of a span are as many as have passed, of a thousand million nanoseconds each.
pub proof fn law_whole_seconds(nanos: int, n: int)
    requires
        0 <= nanos,
    ensures
        whole_secs(nanos) >= n <==> nanos >= n * 1_000_000_000,
        secs(n) == n * 1_000_000_000,
        whole_secs(secs(n)) == n,
{
}

} // verus!
