//! Circuit breaker for S3 uploads.
//!
//! Tracks whether S3 is reachable and manages exponential backoff when uploads
//! fail, so that an unreachable S3 is not spammed with requests.

use crate::time::{clock_now, clock_reads, elapsed_since, Duration};
use crate::worker::backoff::{backoff_after_failure, clock_decides, max_backoff, next_backoff};
use std::time::Instant;
use vstd::prelude::*;

verus! {

/// Circuit breaker for S3 upload attempts.
#[derive(Debug)]
pub enum CircuitBreaker {
    /// S3 is reachable. Normal upload + delete.
    Closed,
    /// S3 is unreachable. Skip uploads until `backoff` has passed since
    /// `since`.
    Open { since: Instant, backoff: Duration },
}

impl Default for CircuitBreaker {
    fn default() -> (s: CircuitBreaker)
        ensures
            s is Closed,
    {
        CircuitBreaker::Closed
    }
}

impl CircuitBreaker {
    /// The backoff never exceeds its cap.
    pub open spec fn wf(self) -> bool {
        self matches CircuitBreaker::Open { backoff, .. } ==> backoff@ <= max_backoff()
    }

    /// The backoff in nanoseconds, `None` if closed.
    pub open spec fn backoff_nanos(self) -> Option<nat> {
        match self {
            CircuitBreaker::Closed => None,
            CircuitBreaker::Open { backoff, .. } => Some(backoff@),
        }
    }

    /// Create a new closed (healthy) circuit breaker.
    pub fn new() -> (s: CircuitBreaker)
        ensures
            s is Closed,
    {
        CircuitBreaker::Closed
    }

    /// Whether uploads are attempted `elapsed` nanoseconds after the last
    /// failure: always where there is no backoff, else once it has passed.
    pub open spec fn attempts_after(self, elapsed: nat) -> bool {
        self.backoff_nanos() matches Some(backoff) ==> elapsed >= backoff
    }

    /// Whether `after` is this state after a failure at `now`: the wait begins
    /// at `now`, with the next backoff.
    pub open spec fn fails_at(self, now: Instant, after: CircuitBreaker) -> bool {
        after matches CircuitBreaker::Open { since, backoff } && since == now && backoff@
            == backoff_after_failure(self.backoff_nanos())
    }

    /// Whether uploads should be attempted when `elapsed` has passed since the
    /// last failure.
    pub fn should_attempt_after(&self, elapsed: Duration) -> (b: bool)
        ensures
            b == self.attempts_after(elapsed@),
    {
        match self {
            CircuitBreaker::Closed => true,
            CircuitBreaker::Open { backoff, .. } => elapsed.at_least(*backoff),
        }
    }

    /// Whether uploads should be attempted right now. What the clock says
    /// decides while there is a backoff to wait for.
    pub fn should_attempt(&self) -> (b: bool)
        ensures
            self is Closed ==> b,
            self.backoff_nanos() == Some(0nat) ==> b,
            self matches CircuitBreaker::Open { since, .. } ==> clock_decides(
                *since,
                self.backoff_nanos(),
                b,
            ),
    {
        match self {
            CircuitBreaker::Closed => true,
            CircuitBreaker::Open { since, .. } => self.should_attempt_after(elapsed_since(since)),
        }
    }

    /// Record a successful upload. Closes the circuit.
    pub fn on_success(&mut self)
        ensures
            *final(self) is Closed,
    {
        *self = CircuitBreaker::Closed;
    }

    /// Record a failed upload. Opens the circuit with exponential backoff.
    /// The clock says when that is.
    pub fn on_failure(&mut self)
        requires
            old(self).wf(),
        ensures
            final(self).wf(),
            exists|now: Instant| #[trigger]
                clock_reads(now) && old(self).fails_at(now, *final(self)),
            final(self).backoff_nanos() == Some(
                backoff_after_failure(old(self).backoff_nanos()),
            ),
    {
        self.on_failure_at(clock_now());
    }

    /// Record a upload that failed at `now`: the wait begins anew, at
    /// `now`, whatever was waited for before.
    pub fn on_failure_at(&mut self, now: Instant)
        requires
            old(self).wf(),
        ensures
            final(self).wf(),
            old(self).fails_at(now, *final(self)),
    {
        let backoff = next_backoff(self.current_backoff());
        *self = CircuitBreaker::Open { since: now, backoff };
    }

    /// Whether the circuit is currently closed (healthy).
    pub fn is_closed(&self) -> (b: bool)
        ensures
            b == (self is Closed),
    {
        match self {
            CircuitBreaker::Closed => true,
            _ => false,
        }
    }

    /// Current backoff duration. None if closed.
    pub fn current_backoff(&self) -> (d: Option<Duration>)
        ensures
            d == (match *self {
                CircuitBreaker::Closed => None,
                CircuitBreaker::Open { backoff, .. } => Some(backoff),
            }),
    {
        match self {
            CircuitBreaker::Closed => None,
            CircuitBreaker::Open { backoff, .. } => Some(*backoff),
        }
    }
}

/// After a failure uploads are held back until its own backoff has passed since
/// it: the wait begins with this failure, not with an earlier one, and it is
/// over from the moment on at which the backoff has passed.
pub proof fn lemma_failure_holds_uploads_back(
    before: CircuitBreaker,
    now: Instant,
    after: CircuitBreaker,
    elapsed: nat,
)
    requires
        before.fails_at(now, after),
    ensures
        after matches CircuitBreaker::Open { since, .. } && since == now,
        after.attempts_after(elapsed) <==> elapsed >= backoff_after_failure(
            before.backoff_nanos(),
        ),
{
}

/// Uploads are attempted at any time while S3 can be reached, and from the end
/// of the wait on while it cannot. A failure makes the wait begin at its own
/// time: one second after the first failure, twice the wait before it after any
/// other, five minutes at most.
pub proof fn lemma_wait_after_a_failure(
    before: CircuitBreaker,
    now: Instant,
    after: CircuitBreaker,
    elapsed: nat,
)
    requires
        before.fails_at(now, after),
    ensures
        match before {
            CircuitBreaker::Closed => before.backoff_nanos() is None && before.attempts_after(elapsed),
            CircuitBreaker::Open { backoff, .. } => before.backoff_nanos() == Some(backoff@) && (
            before.attempts_after(elapsed) <==> elapsed >= backoff@),
        },
        after matches CircuitBreaker::Open { since, backoff } && since == now && match before {
            CircuitBreaker::Closed => backoff@ == 1_000_000_000,
            CircuitBreaker::Open { backoff: waited, .. } => if waited@ <= 150_000_000_000 {
                backoff@ == 2 * waited@
            } else {
                backoff@ == 300_000_000_000
            },
        },
{
}

} // verus!
