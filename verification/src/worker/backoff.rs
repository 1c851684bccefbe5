//! Exponential backoff: one second after the first failure, twice as long
//! after each further one, five minutes at most.

use crate::time::{clock_reads_since, Duration, NANOS_PER_SEC};
use std::time::Instant;
use vstd::prelude::*;

verus! {

/// Backoff after the first failure, in seconds.
pub const INITIAL_BACKOFF_SECS: u64 = 1;

/// Longest backoff, in seconds.
pub const MAX_BACKOFF_SECS: u64 = 300;

/// The backoff after the first failure, in nanoseconds.
pub open spec fn initial_backoff() -> nat {
    (INITIAL_BACKOFF_SECS * NANOS_PER_SEC) as nat
}

/// The longest backoff, in nanoseconds.
pub open spec fn max_backoff() -> nat {
    (MAX_BACKOFF_SECS * NANOS_PER_SEC) as nat
}

/// The backoff after one more failure, given the one before it, if any.
pub open spec fn backoff_after_failure(previous: Option<nat>) -> nat {
    match previous {
        None => initial_backoff(),
        Some(b) => if 2 * b < max_backoff() {
            2 * b
        } else {
            max_backoff()
        },
    }
}

/// The backoff after one more failure, given the one before it, if any.
pub fn next_backoff(previous: Option<Duration>) -> (next: Duration)
    requires
        previous matches Some(b) ==> b@ <= max_backoff(),
    ensures
        next@ == backoff_after_failure(
            match previous {
                Some(b) => Some(b@),
                None => None,
            },
        ),
        next@ <= max_backoff(),
{
    match previous {
        None => Duration::from_secs(INITIAL_BACKOFF_SECS),
        Some(b) => {
            let longest = Duration::from_secs(MAX_BACKOFF_SECS);
            let doubled: u128 = b.as_nanos() * 2;
            if doubled < longest.as_nanos() {
                Duration::from_nanos(doubled)
            } else {
                longest
            }
        },
    }
}

/// Whether `b` is what a reading of the clock decides: whether `backoff`, if
/// there is one, has passed since `since`.
pub open spec fn clock_decides(since: Instant, backoff: Option<nat>, b: bool) -> bool {
    exists|elapsed: Duration| #[trigger]
        clock_reads_since(since, elapsed) && b == (backoff matches Some(nanos) ==> elapsed@
            >= nanos)
}

/// The backoff after `n` failures in a row, `None` before the first.
pub open spec fn backoff_after(n: nat) -> Option<nat>
    decreases n,
{
    if n == 0 {
        None
    } else {
        Some(backoff_after_failure(backoff_after((n - 1) as nat)))
    }
}

/// 2 to the power `n`.
pub open spec fn doublings(n: nat) -> nat
    decreases n,
{
    if n == 0 {
        1
    } else {
        2 * doublings((n - 1) as nat)
    }
}

/// The backoff doubles with every failure in a row, from one second up to five
/// minutes.
pub proof fn lemma_backoff_doubles_up_to_cap(n: nat)
    requires
        n >= 1,
    ensures
        backoff_after(n) == Some(
            if doublings((n - 1) as nat) * initial_backoff() < max_backoff() {
                doublings((n - 1) as nat) * initial_backoff()
            } else {
                max_backoff()
            },
        ),
    decreases n,
{
    if n == 1 {
        reveal_with_fuel(backoff_after, 3);
        assert(doublings(0) == 1);
    } else {
        lemma_backoff_doubles_up_to_cap((n - 1) as nat);
        let d = doublings((n - 2) as nat);
        assert(doublings((n - 1) as nat) == 2 * d);
        assert(2 * d * initial_backoff() == 2 * (d * initial_backoff())) by (nonlinear_arith);
    }
}

/// One more failure doubles the wait: one second after the first failure, twice
/// the wait before it after any other, and never more than five minutes.
pub proof fn lemma_failure_doubles_the_wait(previous: nat)
    ensures
        backoff_after_failure(None) == 1_000_000_000,
        2 * previous <= 300_000_000_000 ==> backoff_after_failure(Some(previous)) == 2 * previous,
        2 * previous > 300_000_000_000 ==> backoff_after_failure(Some(previous))
            == 300_000_000_000,
        initial_backoff() == 1_000_000_000,
        max_backoff() == 300_000_000_000,
{
}

/// The clock decides by how much time has passed: an attempt is made exactly if
/// the backoff has, and always where there is none.
pub proof fn lemma_clock_decides_by_elapsed_time(
    since: Instant,
    backoff: Option<nat>,
    b: bool,
) -> (elapsed: Duration)
    requires
        clock_decides(since, backoff, b),
    ensures
        clock_reads_since(since, elapsed),
        backoff is None ==> b,
        backoff matches Some(nanos) ==> (b <==> elapsed@ >= nanos),
{
    choose|elapsed: Duration| #[trigger]
        clock_reads_since(since, elapsed) && b == (backoff matches Some(nanos) ==> elapsed@
            >= nanos)
}

} // verus!
