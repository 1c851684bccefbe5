//! The worker loop: polls for sealed segments and uploads them one by one.
//!
//! The loop itself only decides. It says what to do next; whoever runs it does
//! that and hands back what came of it.

use crate::time::{
    clock_now, clock_reads, wall_clock_reads, wall_clock_secs, Duration,
};
use crate::worker::backoff::{backoff_after_failure, clock_decides};
use crate::worker::connection::S3ConnectionState;
use crate::worker::s3::{
    S3ConfigModel, S3Uploader, UploadAction, UploadActionModel, UploadState, UploadStateModel,
};
use crate::worker::sealed::{segment_models, SealedSegment, SegmentModel};
use std::time::Instant;
use vstd::prelude::*;

verus! {

/// What the worker loop waits for.
#[derive(Debug)]
enum LoopState {
    /// Whether to stop.
    Checking,
    /// The files of the trace directory; for the last time if `draining`.
    Scanning { draining: bool },
    /// The upload of `segments[at]`; the others follow.
    Uploading { segments: Vec<SealedSegment>, at: usize, draining: bool },
    /// The end of the pause between two polls.
    Sleeping,
    /// Nothing.
    Stopped,
}

/// What the worker loop waits for, with the segments that are still to be
/// uploaded.
#[verifier::ext_equal]
pub enum LoopModel {
    Checking,
    Scanning { draining: bool },
    Uploading { segments: Seq<SegmentModel>, draining: bool },
    Sleeping,
    Stopped,
}

/// What is to be done next.
#[derive(Debug)]
pub enum LoopAction {
    /// Find out whether the worker is to stop.
    CheckStop,
    /// List the sealed segments with this stem in this directory.
    Scan { dir: String, stem: String },
    /// Upload this segment.
    Upload(SealedSegment),
    /// Pause this long.
    Sleep(Duration),
    /// Nothing any more.
    Return,
}

/// What came of the last action.
#[derive(Debug)]
pub enum LoopEvent {
    /// Whether the worker is to stop.
    Stop(bool),
    /// The segments that were found; `None` if the scan failed.
    Scanned(Option<Vec<SealedSegment>>),
    /// The upload was handled, successfully or not.
    Uploaded,
    /// The pause is over.
    Slept,
}

/// The value of a [`LoopEvent`].
#[verifier::ext_equal]
pub enum LoopEventModel {
    Stop(bool),
    Scanned(Option<Seq<SegmentModel>>),
    Uploaded,
    Slept,
}

impl View for LoopEvent {
    type V = LoopEventModel;

    open spec fn view(&self) -> LoopEventModel {
        match *self {
            LoopEvent::Stop(stop) => LoopEventModel::Stop(stop),
            LoopEvent::Scanned(Some(segments)) => LoopEventModel::Scanned(
                Some(segment_models(segments@)),
            ),
            LoopEvent::Scanned(None) => LoopEventModel::Scanned(None),
            LoopEvent::Uploaded => LoopEventModel::Uploaded,
            LoopEvent::Slept => LoopEventModel::Slept,
        }
    }
}

/// What follows when `segments` are left to upload: the next upload; with none
/// left, the pause, or the end when draining.
pub open spec fn left_to_upload(segments: Seq<SegmentModel>, draining: bool) -> LoopModel {
    if segments.len() > 0 {
        LoopModel::Uploading { segments, draining }
    } else if draining {
        LoopModel::Stopped
    } else {
        LoopModel::Sleeping
    }
}

/// The state after `event`. An event that does not answer what the loop waits
/// for changes nothing.
pub open spec fn loop_step(state: LoopModel, event: LoopEventModel) -> LoopModel {
    match (state, event) {
        (LoopModel::Checking, LoopEventModel::Stop(stop)) => LoopModel::Scanning {
            draining: stop,
        },
        (LoopModel::Scanning { draining }, LoopEventModel::Scanned(found)) => left_to_upload(
            match found {
                Some(segments) => segments,
                None => Seq::empty(),
            },
            draining,
        ),
        (
            LoopModel::Uploading { segments, draining },
            LoopEventModel::Uploaded,
        ) => left_to_upload(segments.drop_first(), draining),
        (LoopModel::Sleeping, LoopEventModel::Slept) => LoopModel::Checking,
        _ => state,
    }
}

/// The worker loop.
#[derive(Debug)]
pub struct WorkerLoop {
    dir: String,
    stem: String,
    poll_interval: Duration,
    state: LoopState,
}

impl View for WorkerLoop {
    type V = LoopModel;

    closed spec fn view(&self) -> LoopModel {
        match self.state {
            LoopState::Checking => LoopModel::Checking,
            LoopState::Scanning { draining } => LoopModel::Scanning { draining },
            LoopState::Uploading { segments, at, draining } => LoopModel::Uploading {
                segments: segment_models(segments@).skip(at as int),
                draining,
            },
            LoopState::Sleeping => LoopModel::Sleeping,
            LoopState::Stopped => LoopModel::Stopped,
        }
    }
}

impl WorkerLoop {
    /// There is a segment to upload while uploading.
    pub closed spec fn wf(self) -> bool {
        self.state matches LoopState::Uploading { segments, at, .. } ==> at < segments@.len()
    }

    /// The trace directory.
    pub closed spec fn spec_dir(self) -> Seq<char> {
        self.dir@
    }

    /// The stem of the segments.
    pub closed spec fn spec_stem(self) -> Seq<char> {
        self.stem@
    }

    /// The time between two polls.
    pub closed spec fn spec_poll_interval(self) -> Duration {
        self.poll_interval
    }

    /// A loop over the segments with stem `stem` in `dir`.
    pub fn new(dir: String, stem: String, poll_interval: Duration) -> (w: WorkerLoop)
        ensures
            w.wf(),
            w@ == LoopModel::Checking,
            w.spec_dir() == dir@,
            w.spec_stem() == stem@,
            w.spec_poll_interval() == poll_interval,
    {
        WorkerLoop { dir, stem, poll_interval, state: LoopState::Checking }
    }

    /// What is to be done next.
    pub fn action(&self) -> (a: LoopAction)
        requires
            self.wf(),
        ensures
            match (self@, a) {
                (LoopModel::Checking, LoopAction::CheckStop) => true,
                (LoopModel::Scanning { .. }, LoopAction::Scan { dir, stem }) => dir@
                    == self.spec_dir() && stem@ == self.spec_stem(),
                (LoopModel::Uploading { segments, .. }, LoopAction::Upload(segment)) => segment@
                    == segments[0],
                (LoopModel::Sleeping, LoopAction::Sleep(d)) => d == self.spec_poll_interval(),
                (LoopModel::Stopped, LoopAction::Return) => true,
                _ => false,
            },
    {
        match &self.state {
            LoopState::Checking => LoopAction::CheckStop,
            LoopState::Scanning { .. } => LoopAction::Scan {
                dir: self.dir.clone(),
                stem: self.stem.clone(),
            },
            LoopState::Uploading { segments, at, .. } => {
                let path = segments[*at].path.clone();
                LoopAction::Upload(SealedSegment { path, index: segments[*at].index })
            },
            LoopState::Sleeping => LoopAction::Sleep(self.poll_interval),
            LoopState::Stopped => LoopAction::Return,
        }
    }

    /// Go on after the last action has led to `event`.
    pub fn on_event(&mut self, event: LoopEvent)
        requires
            old(self).wf(),
        ensures
            final(self).wf(),
            final(self)@ == loop_step(old(self)@, event@),
            final(self).spec_dir() == old(self).spec_dir(),
            final(self).spec_stem() == old(self).spec_stem(),
            final(self).spec_poll_interval() == old(self).spec_poll_interval(),
    {
        let ghost before = self@;
        let mut state = LoopState::Stopped;
        std::mem::swap(&mut state, &mut self.state);
        self.state = match (state, event) {
            (LoopState::Checking, LoopEvent::Stop(stop)) => LoopState::Scanning { draining: stop },
            (LoopState::Scanning { draining }, LoopEvent::Scanned(found)) => {
                match found {
                    Some(segments) => {
                        assert(segment_models(segments@).skip(0) =~= segment_models(segments@));
                        upload_from(segments, 0, draining)
                    },
                    None => after_uploads(draining),
                }
            },
            (LoopState::Uploading { segments, at, draining }, LoopEvent::Uploaded) => {
                assert(segment_models(segments@).skip(at as int).drop_first()
                    =~= segment_models(segments@).skip(at + 1));
                let len: usize = segments.len();
                assert(at < len);
                upload_from(segments, at + 1, draining)
            },
            (LoopState::Sleeping, LoopEvent::Slept) => LoopState::Checking,
            (state, _) => state,
        };
    }
}

fn after_uploads(draining: bool) -> (s: LoopState)
    ensures
        s == (if draining {
            LoopState::Stopped
        } else {
            LoopState::Sleeping
        }),
{
    if draining {
        LoopState::Stopped
    } else {
        LoopState::Sleeping
    }
}

fn upload_from(segments: Vec<SealedSegment>, at: usize, draining: bool) -> (s: LoopState)
    requires
        at <= segments@.len(),
    ensures
        s == (if at < segments@.len() {
            LoopState::Uploading { segments, at, draining }
        } else if draining {
            LoopState::Stopped
        } else {
            LoopState::Sleeping
        }),
{
    if at < segments.len() {
        LoopState::Uploading { segments, at, draining }
    } else {
        after_uploads(draining)
    }
}

/// The states after `n` answered uploads.
pub open spec fn after_uploads_of(state: LoopModel, n: nat) -> LoopModel
    decreases n,
{
    if n == 0 {
        state
    } else {
        loop_step(after_uploads_of(state, (n - 1) as nat), LoopEventModel::Uploaded)
    }
}

/// Stopping loses nothing: once the worker is told to stop, it scans once more,
/// uploads every segment that it finds, in order, and then ends without another
/// pause.
pub proof fn lemma_stop_drains(found: Seq<SegmentModel>)
    ensures
        forall|n: nat|
            n < found.len() ==> #[trigger] after_uploads_of(
                loop_step(
                    loop_step(LoopModel::Checking, LoopEventModel::Stop(true)),
                    LoopEventModel::Scanned(Some(found)),
                ),
                n,
            ) == (LoopModel::Uploading { segments: found.skip(n as int), draining: true }),
        after_uploads_of(
            loop_step(
                loop_step(LoopModel::Checking, LoopEventModel::Stop(true)),
                LoopEventModel::Scanned(Some(found)),
            ),
            found.len(),
        ) == LoopModel::Stopped,
{
    let start = loop_step(
        loop_step(LoopModel::Checking, LoopEventModel::Stop(true)),
        LoopEventModel::Scanned(Some(found)),
    );
    assert forall|n: nat| n < found.len() implies #[trigger] after_uploads_of(start, n) == (
    LoopModel::Uploading { segments: found.skip(n as int), draining: true }) by {
        lemma_uploads_in_order(found, true, n);
    }
    if found.len() > 0 {
        lemma_uploads_in_order(found, true, (found.len() - 1) as nat);
        assert(found.skip(found.len() - 1).drop_first() =~= Seq::empty());
    }
}

proof fn lemma_uploads_in_order(found: Seq<SegmentModel>, draining: bool, n: nat)
    requires
        n < found.len(),
    ensures
        after_uploads_of(left_to_upload(found, draining), n) == (LoopModel::Uploading {
            segments: found.skip(n as int),
            draining,
        }),
    decreases n,
{
    if n == 0 {
        assert(found.skip(0) =~= found);
    } else {
        lemma_uploads_in_order(found, draining, (n - 1) as nat);
        assert(found.skip(n - 1).drop_first() =~= found.skip(n as int));
    }
}

/// A failed scan stops nothing: the worker pauses and polls again.
pub proof fn lemma_failed_scan_goes_on()
    ensures
        loop_step(
            loop_step(
                LoopModel::Scanning { draining: false },
                LoopEventModel::Scanned(None),
            ),
            LoopEventModel::Slept,
        ) == LoopModel::Checking,
{
}

/// Uploads segments while S3 can be reached.
#[derive(Debug)]
pub struct RealWorkerDeps {
    uploader: S3Uploader,
    connection: S3ConnectionState,
}

impl RealWorkerDeps {
    /// The backoff never exceeds its cap.
    pub closed spec fn wf(self) -> bool {
        self.connection.wf()
    }

    /// The configuration of the uploads.
    pub closed spec fn config(self) -> S3ConfigModel {
        self.uploader.config()
    }

    /// The backoff in nanoseconds, `None` if S3 can be reached.
    pub closed spec fn backoff_nanos(self) -> Option<nat> {
        self.connection.backoff_nanos()
    }

    /// When the last failure was, `None` if S3 can be reached.
    pub closed spec fn failed_at(self) -> Option<Instant> {
        match self.connection {
            S3ConnectionState::Healthy => None,
            S3ConnectionState::Degraded { since, .. } => Some(since),
        }
    }

    /// Uploads with `uploader`, S3 taken to be reachable.
    pub fn new(uploader: S3Uploader) -> (d: RealWorkerDeps)
        ensures
            d.wf(),
            d.config() == uploader.config(),
            d.backoff_nanos() is None,
            d.failed_at() is None,
    {
        RealWorkerDeps { uploader, connection: S3ConnectionState::healthy() }
    }

    /// The uploader.
    pub fn uploader(&self) -> (u: &S3Uploader)
        ensures
            u.config() == self.config(),
    {
        &self.uploader
    }

    /// Begin an upload, when `elapsed` has passed since the last failure;
    /// `None` if it is too early for another attempt.
    pub fn begin_after(&self, segment: &SealedSegment, elapsed: Duration) -> (s: Option<
        (UploadState, UploadAction),
    >)
        ensures
            s is Some <==> (self.backoff_nanos() matches Some(backoff) ==> elapsed@ >= backoff),
            s matches Some(s) ==> s.0@ == UploadStateModel::Reading && s.1@
                == UploadActionModel::Read(segment@.path),
    {
        if self.connection.should_attempt_upload_after(elapsed) {
            Some(self.uploader.begin(segment))
        } else {
            None
        }
    }

    /// Begin an upload, and the seconds since 1970 that its key shall hold;
    /// `None` if it is too early for another attempt. Both rest on the clock.
    pub fn begin(&self, segment: &SealedSegment) -> (s: Option<
        (u64, (UploadState, UploadAction)),
    >)
        ensures
            self.backoff_nanos() is None ==> s is Some,
            self.failed_at() matches Some(since) ==> clock_decides(
                since,
                self.backoff_nanos(),
                s is Some,
            ),
            s matches Some(s) ==> wall_clock_reads(s.0),
            s matches Some(s) ==> s.1.0@ == UploadStateModel::Reading && s.1.1@
                == UploadActionModel::Read(segment@.path),
    {
        if self.connection.should_attempt_upload() {
            Some((wall_clock_secs(), self.uploader.begin(segment)))
        } else {
            None
        }
    }

    /// Take note of how an upload ended, at the time that the clock says.
    pub fn finish(&mut self, state: &UploadState)
        requires
            old(self).wf(),
        ensures
            final(self).wf(),
            final(self).config() == old(self).config(),
            final(self).backoff_nanos() == (if state@ is Done {
                None
            } else {
                Some(backoff_after_failure(old(self).backoff_nanos()))
            }),
            exists|now: Instant| #[trigger]
                clock_reads(now) && final(self).failed_at() == (if state@ is Done {
                    None
                } else {
                    Some(now)
                }),
    {
        self.finish_at(state, clock_now());
    }

    /// Take note of how an upload ended at `now`. After a failure the wait for
    /// the next attempt begins at `now`.
    pub fn finish_at(&mut self, state: &UploadState, now: Instant)
        requires
            old(self).wf(),
        ensures
            final(self).wf(),
            final(self).config() == old(self).config(),
            final(self).backoff_nanos() == (if state@ is Done {
                None
            } else {
                Some(backoff_after_failure(old(self).backoff_nanos()))
            }),
            final(self).failed_at() == (if state@ is Done {
                None
            } else {
                Some(now)
            }),
    {
        match state {
            UploadState::Done(_) => self.connection.on_success(),
            _ => self.connection.on_failure_at(now),
        }
    }
}

/// What was found is uploaded one by one, from the first on, each once; with
/// none left the worker pauses, or ends where it was told to stop. After a pause
/// it asks whether to stop, and then scans in any case. An event that answers
/// nothing changes nothing.
pub proof fn lemma_loop_goes_on_as_told(state: LoopModel, event: LoopEventModel)
    ensures
        match (state, event) {
            (LoopModel::Checking, LoopEventModel::Stop(stop)) => loop_step(state, event) matches
                LoopModel::Scanning { draining } && draining == stop,
            (LoopModel::Scanning { draining }, LoopEventModel::Scanned(Some(found))) => if found.len()
                > 0 {
                loop_step(state, event) == (LoopModel::Uploading { segments: found, draining })
            } else if draining {
                loop_step(state, event) is Stopped
            } else {
                loop_step(state, event) is Sleeping
            },
            (LoopModel::Scanning { draining }, LoopEventModel::Scanned(None)) => if draining {
                loop_step(state, event) is Stopped
            } else {
                loop_step(state, event) is Sleeping
            },
            (LoopModel::Uploading { segments, draining }, LoopEventModel::Uploaded) => if segments.len()
                > 1 {
                loop_step(state, event) == (LoopModel::Uploading {
                    segments: segments.drop_first(),
                    draining,
                })
            } else if segments.len() == 1 && draining {
                loop_step(state, event) is Stopped
            } else {
                segments.len() == 1 ==> loop_step(state, event) is Sleeping
            },
            (LoopModel::Sleeping, LoopEventModel::Slept) => loop_step(state, event) is Checking,
            _ => loop_step(state, event) == state,
        },
{
}

/// The value of an event is of the same kind and has what it has.
pub proof fn lemma_value_of_a_loop_event(e: LoopEvent)
    ensures
        match e {
            LoopEvent::Stop(stop) => e@ == LoopEventModel::Stop(stop),
            LoopEvent::Scanned(Some(found)) => e@ matches LoopEventModel::Scanned(Some(f)) && f.len()
                == found@.len() && forall|i: int|
                0 <= i < f.len() ==> (#[trigger] f[i]).path == found@[i].path@ && f[i].index
                    == found@[i].index,
            LoopEvent::Scanned(None) => e@ matches LoopEventModel::Scanned(None),
            LoopEvent::Uploaded => e@ is Uploaded,
            LoopEvent::Slept => e@ is Slept,
        },
{
}

} // verus!
