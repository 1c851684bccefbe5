//! S3 connection state machine.
//!
//! Tracks whether S3 is reachable and manages exponential backoff when uploads
//! fail.

use crate::time::{clock_now, clock_reads, elapsed_since, Duration};
use crate::worker::backoff::{backoff_after_failure, clock_decides, max_backoff, next_backoff};
use std::time::Instant;
use vstd::prelude::*;

verus! {

/// S3 connection health state.
#[derive(Debug)]
pub enum S3ConnectionState {
    /// S3 is reachable. Normal upload + delete.
    Healthy,
    /// S3 is unreachable. Skip uploads until `backoff` has passed since
    /// `since`.
    Degraded { since: Instant, backoff: Duration },
}

impl S3ConnectionState {
    /// The backoff never exceeds its cap.
    pub open spec fn wf(self) -> bool {
        self matches S3ConnectionState::Degraded { backoff, .. } ==> backoff@ <= max_backoff()
    }

    /// The backoff in nanoseconds, `None` if healthy.
    pub open spec fn backoff_nanos(self) -> Option<nat> {
        match self {
            S3ConnectionState::Healthy => None,
            S3ConnectionState::Degraded { backoff, .. } => Some(backoff@),
        }
    }

    /// Create a new healthy state.
    pub fn healthy() -> (s: S3ConnectionState)
        ensures
            s is Healthy,
    {
        S3ConnectionState::Healthy
    }

    /// Whether uploads are attempted `elapsed` nanoseconds after the last
    /// failure: always where there is no backoff, else once it has passed.
    pub open spec fn attempts_after(self, elapsed: nat) -> bool {
        self.backoff_nanos() matches Some(backoff) ==> elapsed >= backoff
    }

    /// Whether `after` is this state after a failure at `now`: the wait begins
    /// at `now`, with the next backoff.
    pub open spec fn fails_at(self, now: Instant, after: S3ConnectionState) -> bool {
        after matches S3ConnectionState::Degraded { since, backoff } && since == now && backoff@
            == backoff_after_failure(self.backoff_nanos())
    }

    /// Whether uploads should be attempted when `elapsed` has passed since the
    /// last failure.
    pub fn should_attempt_upload_after(&self, elapsed: Duration) -> (b: bool)
        ensures
            b == self.attempts_after(elapsed@),
    {
        match self {
            S3ConnectionState::Healthy => true,
            S3ConnectionState::Degraded { backoff, .. } => elapsed.at_least(*backoff),
        }
    }

    /// Whether uploads should be attempted right now. What the clock says
    /// decides while there is a backoff to wait for.
    pub fn should_attempt_upload(&self) -> (b: bool)
        ensures
            self is Healthy ==> b,
            self.backoff_nanos() == Some(0nat) ==> b,
            self matches S3ConnectionState::Degraded { since, .. } ==> clock_decides(
                *since,
                self.backoff_nanos(),
                b,
            ),
    {
        match self {
            S3ConnectionState::Healthy => true,
            S3ConnectionState::Degraded { since, .. } => {
                self.should_attempt_upload_after(elapsed_since(since))
            },
        }
    }

    /// Record a successful upload or validation. Transitions to Healthy.
    pub fn on_success(&mut self)
        ensures
            *final(self) is Healthy,
    {
        *self = S3ConnectionState::Healthy;
    }

    /// Record a failed upload or validation. Transitions to Degraded with
    /// exponential backoff.
    /// The clock says when that is.
    pub fn on_failure(&mut self)
        requires
            old(self).wf(),
        ensures
            final(self).wf(),
            exists|now: Instant| #[trigger]
                clock_reads(now) && old(self).fails_at(now, *final(self)),
            final(self).backoff_nanos() == Some(
                backoff_after_failure(old(self).backoff_nanos()),
            ),
    {
        self.on_failure_at(clock_now());
    }

    /// Record a upload or validation that failed at `now`: the wait begins anew, at
    /// `now`, whatever was waited for before.
    pub fn on_failure_at(&mut self, now: Instant)
        requires
            old(self).wf(),
        ensures
            final(self).wf(),
            old(self).fails_at(now, *final(self)),
    {
        let backoff = next_backoff(self.current_backoff());
        *self = S3ConnectionState::Degraded { since: now, backoff };
    }

    /// Whether the connection is currently healthy.
    pub fn is_healthy(&self) -> (b: bool)
        ensures
            b == (self is Healthy),
    {
        match self {
            S3ConnectionState::Healthy => true,
            _ => false,
        }
    }

    /// Current backoff duration. None if healthy.
    pub fn current_backoff(&self) -> (d: Option<Duration>)
        ensures
            d == (match *self {
                S3ConnectionState::Healthy => None,
                S3ConnectionState::Degraded { backoff, .. } => Some(backoff),
            }),
    {
        match self {
            S3ConnectionState::Healthy => None,
            S3ConnectionState::Degraded { backoff, .. } => Some(*backoff),
        }
    }
}

/// After a failure uploads are held back until its own backoff has passed since
/// it: the wait begins with this failure, not with an earlier one, and it is
/// over from the moment on at which the backoff has passed.
pub proof fn lemma_failure_holds_uploads_back(
    before: S3ConnectionState,
    now: Instant,
    after: S3ConnectionState,
    elapsed: nat,
)
    requires
        before.fails_at(now, after),
    ensures
        after matches S3ConnectionState::Degraded { since, .. } && since == now,
        after.attempts_after(elapsed) <==> elapsed >= backoff_after_failure(
            before.backoff_nanos(),
        ),
{
}

/// Uploads are attempted at any time while S3 can be reached, and from the end
/// of the wait on while it cannot. A failure makes the wait begin at its own
/// time: one second after the first failure, twice the wait before it after any
/// other, five minutes at most.
pub proof fn lemma_wait_after_a_failure(
    before: S3ConnectionState,
    now: Instant,
    after: S3ConnectionState,
    elapsed: nat,
)
    requires
        before.fails_at(now, after),
    ensures
        match before {
            S3ConnectionState::Healthy => before.backoff_nanos() is None && before.attempts_after(elapsed),
            S3ConnectionState::Degraded { backoff, .. } => before.backoff_nanos() == Some(backoff@) && (
            before.attempts_after(elapsed) <==> elapsed >= backoff@),
        },
        after matches S3ConnectionState::Degraded { since, backoff } && since == now && match before {
            S3ConnectionState::Healthy => backoff@ == 1_000_000_000,
            S3ConnectionState::Degraded { backoff: waited, .. } => if waited@ <= 150_000_000_000 {
                backoff@ == 2 * waited@
            } else {
                backoff@ == 300_000_000_000
            },
        },
{
}

} // verus!
