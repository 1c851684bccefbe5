//! Uploads of compressed segments behind a circuit breaker.

use crate::background_task::connection::CircuitBreaker;
use crate::background_task::pipeline::CompressedSegment;
use crate::time::{clock_now, clock_reads, Duration};
use crate::worker::backoff::{backoff_after_failure, clock_decides};
use crate::worker::s3::{
    send_step, S3Config, S3ConfigModel, UploadAction, UploadState,
};
use crate::worker::sealed::SealedSegment;
use std::time::Instant;
use vstd::prelude::*;

verus! {

/// What S3 answered when it was asked for a bucket.
#[derive(Debug)]
pub enum HeadBucketReply {
    /// The bucket was found, with its region if the answer named one.
    Found(Option<String>),
    /// The request failed, with the region in the `x-amz-bucket-region` header
    /// if the answer had one.
    Failed(Option<String>),
}

/// How to come by the region of a bucket.
#[derive(Debug)]
pub enum RegionPlan {
    /// It is configured.
    Use(String),
    /// S3 is to be asked for this bucket.
    Ask(String),
}

/// A configured region is used as it is; otherwise S3 is asked.
pub fn region_plan(config: &S3Config) -> (p: RegionPlan)
    ensures
        match (config@.region, p) {
            (Some(region), RegionPlan::Use(r)) => r@ == region,
            (None, RegionPlan::Ask(bucket)) => bucket@ == config@.bucket,
            _ => false,
        },
{
    match config.region() {
        Some(region) => RegionPlan::Use(region.to_string()),
        None => RegionPlan::Ask(config.bucket().to_string()),
    }
}

/// Detect the region of an S3 bucket from the answer to HeadBucket.
///
/// On success the response includes the region directly. On a 301 redirect
/// (wrong region) the `x-amz-bucket-region` header contains the correct one.
/// Where neither names one, it is taken to be `us-east-1`.
pub fn detect_bucket_region(reply: HeadBucketReply) -> (region: String)
    ensures
        region@ == (match reply {
            HeadBucketReply::Found(Some(r)) => r@,
            HeadBucketReply::Failed(Some(r)) => r@,
            _ => "us-east-1"@,
        }),
{
    match reply {
        HeadBucketReply::Found(Some(r)) => r,
        HeadBucketReply::Failed(Some(r)) => r,
        _ => "us-east-1".to_string(),
    }
}

/// How an upload ended.
#[derive(Debug, Clone, Copy, PartialEq, Eq, Structural)]
pub enum UploadOutcome {
    /// The object is stored and the file is gone.
    Uploaded,
    /// The file was gone before: the segment was evicted meanwhile.
    FileMissing,
    /// Anything else.
    Failed,
}

/// Uploads compressed segments while S3 can be reached.
#[derive(Debug)]
pub struct S3Uploader {
    uploader: crate::worker::s3::S3Uploader,
    circuit_breaker: CircuitBreaker,
}

impl S3Uploader {
    /// The backoff never exceeds its cap.
    pub closed spec fn wf(self) -> bool {
        self.circuit_breaker.wf()
    }

    /// The configuration of the uploads.
    pub closed spec fn config(self) -> S3ConfigModel {
        self.uploader.config()
    }

    /// The backoff in nanoseconds, `None` if S3 can be reached.
    pub closed spec fn backoff_nanos(self) -> Option<nat> {
        self.circuit_breaker.backoff_nanos()
    }

    /// When the last failure was, `None` if S3 can be reached.
    pub closed spec fn failed_at(self) -> Option<Instant> {
        match self.circuit_breaker {
            CircuitBreaker::Closed => None,
            CircuitBreaker::Open { since, .. } => Some(since),
        }
    }

    /// Uploads as `config` says, S3 taken to be reachable.
    pub fn new(config: S3Config) -> (u: S3Uploader)
        ensures
            u.wf(),
            u.config() == config@,
            u.backoff_nanos() is None,
            u.failed_at() is None,
    {
        S3Uploader {
            uploader: crate::worker::s3::S3Uploader::new(config),
            circuit_breaker: CircuitBreaker::new(),
        }
    }

    /// The uploader behind the circuit breaker.
    pub fn uploader(&self) -> (u: &crate::worker::s3::S3Uploader)
        ensures
            u.config() == self.config(),
    {
        &self.uploader
    }

    /// Whether the circuit breaker lets uploads through.
    pub fn is_closed(&self) -> (b: bool)
        ensures
            b == (self.backoff_nanos() is None),
    {
        self.circuit_breaker.is_closed()
    }

    /// Begin the upload of a compressed segment, when `elapsed` has passed
    /// since the last failure; `None` if it is too early for another attempt.
    pub fn upload_compressed_after(
        &self,
        segment: &SealedSegment,
        compressed: CompressedSegment,
        elapsed: Duration,
    ) -> (s: Option<(UploadState, UploadAction)>)
        ensures
            s is Some <==> (self.backoff_nanos() matches Some(backoff) ==> elapsed@ >= backoff),
            s matches Some(s) ==> (s.0@, s.1@) == send_step(
                self.config(),
                segment.index,
                compressed.epoch_secs,
                compressed.data@,
            ),
    {
        if self.circuit_breaker.should_attempt_after(elapsed) {
            Some(self.uploader.compressed(segment, compressed.epoch_secs, Ok(compressed.data)))
        } else {
            None
        }
    }

    /// Begin the upload of a compressed segment; `None` if it is too early for
    /// another attempt, for which the clock decides.
    pub fn upload_compressed(&self, segment: &SealedSegment, compressed: CompressedSegment) -> (s:
        Option<(UploadState, UploadAction)>)
        ensures
            self.backoff_nanos() is None ==> s is Some,
            self.failed_at() matches Some(since) ==> clock_decides(
                since,
                self.backoff_nanos(),
                s is Some,
            ),
            s matches Some(s) ==> (s.0@, s.1@) == send_step(
                self.config(),
                segment.index,
                compressed.epoch_secs,
                compressed.data@,
            ),
    {
        if self.circuit_breaker.should_attempt() {
            Some(self.uploader.compressed(segment, compressed.epoch_secs, Ok(compressed.data)))
        } else {
            None
        }
    }

    /// Take note of how an upload ended, at the time that the clock says. An
    /// evicted file says nothing of S3 and leaves the circuit breaker as it is.
    pub fn upload_finished(&mut self, outcome: UploadOutcome)
        requires
            old(self).wf(),
        ensures
            final(self).wf(),
            final(self).config() == old(self).config(),
            exists|now: Instant| #[trigger]
                clock_reads(now) && final(self).failed_at() == (match outcome {
                    UploadOutcome::Uploaded => None,
                    UploadOutcome::FileMissing => old(self).failed_at(),
                    UploadOutcome::Failed => Some(now),
                }),
            final(self).backoff_nanos() == (match outcome {
                UploadOutcome::Uploaded => None,
                UploadOutcome::FileMissing => old(self).backoff_nanos(),
                UploadOutcome::Failed => Some(backoff_after_failure(old(self).backoff_nanos())),
            }),
    {
        self.upload_finished_at(outcome, clock_now());
    }

    /// Take note of how an upload ended at `now`. After a failure the wait for
    /// the next attempt begins at `now`.
    pub fn upload_finished_at(&mut self, outcome: UploadOutcome, now: Instant)
        requires
            old(self).wf(),
        ensures
            final(self).wf(),
            final(self).config() == old(self).config(),
            final(self).backoff_nanos() == (match outcome {
                UploadOutcome::Uploaded => None,
                UploadOutcome::FileMissing => old(self).backoff_nanos(),
                UploadOutcome::Failed => Some(backoff_after_failure(old(self).backoff_nanos())),
            }),
            final(self).failed_at() == (match outcome {
                UploadOutcome::Uploaded => None,
                UploadOutcome::FileMissing => old(self).failed_at(),
                UploadOutcome::Failed => Some(now),
            }),
    {
        match outcome {
            UploadOutcome::Uploaded => self.circuit_breaker.on_success(),
            UploadOutcome::FileMissing => {},
            UploadOutcome::Failed => self.circuit_breaker.on_failure_at(now),
        }
    }
}

} // verus!
