//! Spans of time and the monotonic clock.

use vstd::prelude::*;

verus! {

/// Nanoseconds in a second.
pub const NANOS_PER_SEC: u128 = 1_000_000_000;

/// Nanoseconds in a millisecond.
pub const NANOS_PER_MILLI: u128 = 1_000_000;

/// A span of time, exact to the nanosecond.
#[derive(Debug, Clone, Copy, PartialEq, Eq, Structural)]
pub struct Duration {
    nanos: u128,
}

impl View for Duration {
    type V = nat;

    /// The span in nanoseconds.
    closed spec fn view(&self) -> nat {
        self.nanos as nat
    }
}

impl Duration {
    /// Spans of equal length are equal.
    pub proof fn lemma_view_determines(a: Duration, b: Duration)
        ensures
            a@ == b@ ==> a == b,
            a@ <= u128::MAX,
    {
    }

    /// A span of `secs` seconds.
    pub fn from_secs(secs: u64) -> (d: Duration)
        ensures
            d@ == secs * NANOS_PER_SEC,
    {
        assert(secs * 1_000_000_000 <= u128::MAX);
        Duration { nanos: secs as u128 * NANOS_PER_SEC }
    }

    /// A span of `millis` milliseconds.
    pub fn from_millis(millis: u64) -> (d: Duration)
        ensures
            d@ == millis * NANOS_PER_MILLI,
    {
        Duration { nanos: millis as u128 * NANOS_PER_MILLI }
    }

    /// A span of `nanos` nanoseconds.
    pub fn from_nanos(nanos: u128) -> (d: Duration)
        ensures
            d@ == nanos,
    {
        Duration { nanos }
    }

    /// The span in nanoseconds.
    pub fn as_nanos(&self) -> (n: u128)
        ensures
            n == self@,
    {
        self.nanos
    }

    /// Whether this span is at least as long as `other`.
    pub fn at_least(&self, other: Duration) -> (b: bool)
        ensures
            b == (self@ >= other@),
    {
        self.nanos >= other.nanos
    }
}

/// A reading of the monotonic clock.
#[verifier::external_type_specification]
#[verifier::external_body]
pub struct ExInstant(std::time::Instant);

/// `Instant::now` reads the monotonic clock. Nothing is claimed of the reading.
#[verifier::external_body]
fn instant_now() -> std::time::Instant {
    std::time::Instant::now()
}

/// Whether `now` is a reading of the monotonic clock.
pub closed spec fn clock_reads(now: std::time::Instant) -> bool {
    call_ensures(instant_now, (), now)
}

/// What the monotonic clock says.
pub(crate) fn clock_now() -> (now: std::time::Instant)
    ensures
        clock_reads(now),
{
    instant_now()
}

/// `Instant::elapsed` gives the time since a reading of the clock. Nothing is
/// claimed of how long that is.
#[verifier::external_body]
fn instant_elapsed(start: &std::time::Instant) -> Duration {
    Duration { nanos: start.elapsed().as_nanos() }
}

/// Whether `elapsed` is the time since `start` by a reading of the monotonic
/// clock.
pub closed spec fn clock_reads_since(start: std::time::Instant, elapsed: Duration) -> bool {
    call_ensures(instant_elapsed, (&start,), elapsed)
}

/// The time since `start` by the monotonic clock.
pub(crate) fn elapsed_since(start: &std::time::Instant) -> (elapsed: Duration)
    ensures
        clock_reads_since(*start, elapsed),
{
    instant_elapsed(start)
}

/// `SystemTime::elapsed` on the start of 1970 gives the time since then, and
/// fails if the wall clock is set before. Nothing is claimed of the reading.
#[verifier::external_body]
fn secs_since_epoch() -> Option<u64> {
    std::time::UNIX_EPOCH.elapsed().ok().map(|d| d.as_secs())
}

/// The seconds since 1970 that were read, zero if the clock is set before.
pub fn secs_or_zero(secs: Option<u64>) -> (s: u64)
    ensures
        s == (match secs {
            Some(secs) => secs,
            None => 0,
        }),
{
    match secs {
        Some(secs) => secs,
        None => 0,
    }
}

/// Whether `secs` are the seconds since 1970 by a reading of the wall clock, zero
/// if it is set before.
pub closed spec fn wall_clock_reads(secs: u64) -> bool {
    exists|read: Option<u64>| #[trigger]
        call_ensures(secs_since_epoch, (), read) && secs == (match read {
            Some(secs) => secs,
            None => 0,
        })
}

/// The seconds since 1970 by the wall clock: [`secs_or_zero`] of its reading.
pub(crate) fn wall_clock_secs() -> (secs: u64)
    ensures
        wall_clock_reads(secs),
{
    secs_or_zero(secs_since_epoch())
}

/// A second has a thousand milliseconds, and a millisecond a million
/// nanoseconds.
pub proof fn lemma_units_of_time()
    ensures
        NANOS_PER_MILLI == 1_000_000,
        NANOS_PER_SEC == 1_000 * NANOS_PER_MILLI,
{
}

} // verus!
