//! Configuration for task dump capture.
//!
//! Task dumps capture async backtraces at yield points for tasks that have
//! been idle.

use crate::time::{Duration, NANOS_PER_MILLI};
use vstd::prelude::*;

verus! {

/// Default idle threshold in milliseconds.
pub const DEFAULT_IDLE_THRESHOLD_MILLIS: u64 = 10;

/// Configuration for task dump capture.
#[derive(Debug, Clone, Copy, PartialEq, Eq, Structural)]
pub struct TaskDumpConfig {
    idle_threshold: Duration,
}

/// Collects the fields of a [`TaskDumpConfig`].
#[derive(Debug, Clone, Copy, PartialEq, Eq, Structural)]
pub struct TaskDumpConfigBuilder {
    idle_threshold: Option<Duration>,
}

impl TaskDumpConfigBuilder {
    /// The threshold, if it was given.
    pub closed spec fn given(self) -> Option<Duration> {
        self.idle_threshold
    }

    /// How long a task may be idle without a dump: one is made exactly if its
    /// idle time exceeds this. Defaults to 10ms.
    pub fn idle_threshold(self, idle_threshold: Duration) -> (b: TaskDumpConfigBuilder)
        ensures
            b.given() == Some(idle_threshold),
    {
        TaskDumpConfigBuilder { idle_threshold: Some(idle_threshold) }
    }

    pub fn build(self) -> (c: TaskDumpConfig)
        ensures
            c.spec_idle_threshold()@ == (match self.given() {
                Some(d) => d@,
                None => (DEFAULT_IDLE_THRESHOLD_MILLIS * NANOS_PER_MILLI) as nat,
            }),
    {
        TaskDumpConfig {
            idle_threshold: match self.idle_threshold {
                Some(d) => d,
                None => Duration::from_millis(DEFAULT_IDLE_THRESHOLD_MILLIS),
            },
        }
    }
}

impl Default for TaskDumpConfig {
    fn default() -> (c: TaskDumpConfig)
        ensures
            c.spec_idle_threshold()@ == DEFAULT_IDLE_THRESHOLD_MILLIS * NANOS_PER_MILLI,
    {
        TaskDumpConfig::builder().build()
    }
}

impl TaskDumpConfig {
    /// The idle threshold.
    pub closed spec fn spec_idle_threshold(self) -> Duration {
        self.idle_threshold
    }

    /// Start with nothing given.
    pub fn builder() -> (b: TaskDumpConfigBuilder)
        ensures
            b.given() is None,
    {
        TaskDumpConfigBuilder { idle_threshold: None }
    }

    /// How long a task may be idle without a dump.
    pub fn idle_threshold(&self) -> (d: Duration)
        ensures
            d == self.spec_idle_threshold(),
    {
        self.idle_threshold
    }
}

/// Unless another threshold is given, a task may be idle for ten milliseconds.
pub proof fn lemma_default_idle_threshold()
    ensures
        DEFAULT_IDLE_THRESHOLD_MILLIS * NANOS_PER_MILLI == 10_000_000,
{
}

} // verus!
