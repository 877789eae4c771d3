//! Time points and spans used by deterministic controllers.
//!
//! A time point counts nanoseconds from an origin chosen by the host (for
//! example the instant its frame clock started); spans count nanoseconds.
//! [`now`] reads the wall clock, with the Unix epoch as origin.
use vstd::prelude::*;

verus! {

/// A point on the host's clock, in nanoseconds from its origin.
#[derive(Clone, Copy, Debug, PartialEq, Eq, PartialOrd, Ord, Hash, Structural)]
pub struct Instant {
    pub nanos: u64,
}

/// A span of time, in nanoseconds.
#[derive(Clone, Copy, Debug, PartialEq, Eq, PartialOrd, Ord, Hash, Default, Structural)]
pub struct Duration {
    pub nanos: u64,
}

impl View for Instant {
    type V = u64;

    open spec fn view(&self) -> u64 {
        self.nanos
    }
}

impl View for Duration {
    type V = u64;

    open spec fn view(&self) -> u64 {
        self.nanos
    }
}

/// `now + span`, or `now` when the sum does not fit.
pub open spec fn deadline_spec(now: u64, span: u64) -> u64 {
    if now + span <= u64::MAX { (now + span) as u64 } else { now }
}

/// The deadline `span` after `now`, saturating at `now`.
pub open spec fn deadline_instant(now: Instant, span: Duration) -> Instant {
    Instant { nanos: deadline_spec(now.nanos, span.nanos) }
}

impl Instant {
    /// The point `nanos` nanoseconds after the origin.
    pub fn from_nanos(nanos: u64) -> (r: Self)
        ensures
            r@ == nanos,
    {
        Instant { nanos }
    }

    /// Nanoseconds since the origin.
    pub fn as_nanos(self) -> (r: u64)
        ensures
            r == self@,
    {
        self.nanos
    }

    /// Whether `self` is not earlier than `other`.
    pub fn is_at_or_after(self, other: Instant) -> (r: bool)
        ensures
            r == (self@ >= other@),
    {
        self.nanos >= other.nanos
    }

    /// The earlier of two points.
    pub fn earlier(self, other: Instant) -> (r: Instant)
        ensures
            r@ == if self@ <= other@ { self@ } else { other@ },
    {
        if self.nanos <= other.nanos { self } else { other }
    }

    /// `self + span`, or `None` when it does not fit.
    pub fn checked_add(self, span: Duration) -> (r: Option<Instant>)
        ensures
            self@ + span@ <= u64::MAX ==> (r matches Some(i) && i@ == self@ + span@),
            self@ + span@ > u64::MAX ==> r is None,
    {
        match self.nanos.checked_add(span.nanos) {
            Some(n) => Some(Instant { nanos: n }),
            None => None,
        }
    }

    /// The deadline `span` after `self`, saturating at `self` when the sum
    /// does not fit.
    pub fn deadline(self, span: Duration) -> (r: Instant)
        ensures
            r == deadline_instant(self, span),
    {
        match self.nanos.checked_add(span.nanos) {
            Some(n) => Instant { nanos: n },
            None => self,
        }
    }
}

impl Duration {
    /// A span of `nanos` nanoseconds.
    pub fn from_nanos(nanos: u64) -> (r: Self)
        ensures
            r@ == nanos,
    {
        Duration { nanos }
    }

    /// A span of `millis` milliseconds. A span counts at most `u64::MAX`
    /// nanoseconds (about 584 years); a longer one is held as that longest
    /// span.
    pub fn from_millis(millis: u64) -> (r: Self)
        ensures
            millis * 1_000_000 <= u64::MAX ==> r@ == millis * 1_000_000,
            millis * 1_000_000 > u64::MAX ==> r@ == u64::MAX,
    {
        match millis.checked_mul(1_000_000) {
            Some(n) => Duration { nanos: n },
            None => Duration { nanos: u64::MAX },
        }
    }

    /// The empty span.
    pub fn zero() -> (r: Self)
        ensures
            r@ == 0,
    {
        Duration { nanos: 0 }
    }

    /// Nanoseconds in the span.
    pub fn as_nanos(self) -> (r: u64)
        ensures
            r == self@,
    {
        self.nanos
    }

    /// Whether the span is empty.
    pub fn is_zero(self) -> (r: bool)
        ensures
            r == (self@ == 0),
    {
        self.nanos == 0
    }
}

/// Reads the wall clock: the time elapsed since the Unix epoch
/// (`SystemTime::elapsed` on `UNIX_EPOCH`) in nanoseconds, zero if the
/// clock is set before the epoch. The reading depends on the moment;
/// nothing is stated of it.
#[verifier::external_body]
pub fn now() -> Instant {
    Instant { nanos: std::time::UNIX_EPOCH.elapsed().map_or(0, |d| d.as_nanos() as u64) }
}

} // verus!
