//! Configuration of the worker pipeline.

use crate::text::IntoText;
use crate::time::{Duration, NANOS_PER_SEC};
use crate::worker::s3::S3Config;
use crate::worker::trace_path::{
    dir_or_here, file_stem_of, is_parent, is_plain_path, is_stem, parent_of, parent_reads,
    stem_or_trace, stem_reads,
};
use vstd::prelude::*;

verus! {

/// Configuration for the in-process worker pipeline.
#[derive(Debug)]
pub struct WorkerConfig {
    trace_path: String,
    poll_interval: Duration,
    s3: S3Config,
}

/// Collects the fields of a [`WorkerConfig`].
pub struct WorkerConfigBuilder {
    trace_path: Option<String>,
    poll_interval: Option<Duration>,
    s3: Option<S3Config>,
}

impl WorkerConfigBuilder {
    /// The trace path, if it was given.
    pub closed spec fn given_trace_path(self) -> Option<Seq<char>> {
        crate::worker::s3::text_of(self.trace_path)
    }

    /// The poll interval, if it was given.
    pub closed spec fn given_poll_interval(self) -> Option<Duration> {
        self.poll_interval
    }

    /// The S3 configuration, if it was given.
    pub closed spec fn given_s3(self) -> Option<S3Config> {
        self.s3
    }

    /// The trace base path (same path passed to `RotatingWriter::new`).
    pub fn trace_path<T: IntoText>(self, trace_path: T) -> (b: WorkerConfigBuilder)
        ensures
            b.given_trace_path() == Some(trace_path.text()),
            b.given_poll_interval() == self.given_poll_interval(),
            b.given_s3() == self.given_s3(),
    {
        WorkerConfigBuilder { trace_path: Some(trace_path.into_text()), ..self }
    }

    /// How often the worker checks for sealed segments. Defaults to 1 second.
    pub fn poll_interval(self, poll_interval: Duration) -> (b: WorkerConfigBuilder)
        ensures
            b.given_trace_path() == self.given_trace_path(),
            b.given_poll_interval() == Some(poll_interval),
            b.given_s3() == self.given_s3(),
    {
        WorkerConfigBuilder { poll_interval: Some(poll_interval), ..self }
    }

    /// S3 upload configuration.
    pub fn s3(self, s3: S3Config) -> (b: WorkerConfigBuilder)
        ensures
            b.given_trace_path() == self.given_trace_path(),
            b.given_poll_interval() == self.given_poll_interval(),
            b.given_s3() == Some(s3),
    {
        WorkerConfigBuilder { s3: Some(s3), ..self }
    }

    /// The configuration. Trace path and S3 configuration must have been given.
    pub fn build(self) -> (c: WorkerConfig)
        requires
            self.given_trace_path() is Some,
            self.given_s3() is Some,
        ensures
            Some(c.spec_trace_path()) == self.given_trace_path(),
            c.spec_poll_interval()@ == (match self.given_poll_interval() {
                Some(interval) => interval@,
                None => NANOS_PER_SEC as nat,
            }),
            Some(c.spec_s3()) == self.given_s3(),
    {
        WorkerConfig {
            trace_path: self.trace_path.unwrap(),
            poll_interval: match self.poll_interval {
                Some(interval) => interval,
                None => Duration::from_secs(1),
            },
            s3: self.s3.unwrap(),
        }
    }
}

impl WorkerConfig {
    /// The trace base path.
    pub closed spec fn spec_trace_path(self) -> Seq<char> {
        self.trace_path@
    }

    /// The time between two polls.
    pub closed spec fn spec_poll_interval(self) -> Duration {
        self.poll_interval
    }

    /// The S3 configuration.
    pub closed spec fn spec_s3(self) -> S3Config {
        self.s3
    }

    /// Start with nothing given.
    pub fn builder() -> (b: WorkerConfigBuilder)
        ensures
            b.given_trace_path() is None,
            b.given_poll_interval() is None,
            b.given_s3() is None,
    {
        WorkerConfigBuilder { trace_path: None, poll_interval: None, s3: None }
    }

    /// How often the worker checks for sealed segments.
    pub fn poll_interval(&self) -> (d: Duration)
        ensures
            d == self.spec_poll_interval(),
    {
        self.poll_interval
    }

    /// Directory containing trace segments: [`dir_or_here`] of the parent of
    /// the trace path. What is the parent of any but an ordinary path rests on
    /// the platform.
    pub fn trace_dir(&self) -> (dir: String)
        ensures
            is_plain_path(self.spec_trace_path()) ==> is_parent(self.spec_trace_path(), dir@),
            self.spec_trace_path().len() == 0 ==> dir@ == "."@,
            exists|parent: Option<String>| #[trigger]
                parent_reads(self.spec_trace_path(), parent) && dir@ == (match parent {
                    Some(p) => p@,
                    None => "."@,
                }),
    {
        let parent = parent_of(self.trace_path.as_str());
        assert(parent_reads(self.spec_trace_path(), parent));
        dir_or_here(parent)
    }

    /// File stem used for segment matching (e.g. "trace" for "trace.0.bin"):
    /// [`stem_or_trace`] of the stem of the trace path. What is the stem of
    /// any but an ordinary path rests on the platform.
    pub fn trace_stem(&self) -> (stem: String)
        ensures
            is_plain_path(self.spec_trace_path()) ==> is_stem(self.spec_trace_path(), stem@),
            exists|read: Option<String>| #[trigger]
                stem_reads(self.spec_trace_path(), read) && stem@ == (match read {
                    Some(s) => s@,
                    None => "trace"@,
                }),
    {
        let stem = file_stem_of(self.trace_path.as_str());
        assert(stem_reads(self.spec_trace_path(), stem));
        stem_or_trace(stem)
    }

    /// S3 upload configuration.
    pub fn s3(&self) -> (s3: &S3Config)
        ensures
            *s3 == self.spec_s3(),
    {
        &self.s3
    }
}

} // verus!
