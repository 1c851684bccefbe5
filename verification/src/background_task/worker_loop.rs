//! The loop of the background task: polls for sealed segments and hands them to
//! the pipeline.
//!
//! The loop itself only decides. It says what to do next; whoever runs it does
//! that and hands back what came of it.

use crate::background_task::config::BackgroundTaskConfig;
use crate::time::Duration;
use crate::worker::sealed::{segment_models, SealedSegment, SegmentModel};
use crate::worker::trace_path::{
    is_parent, is_plain_path, is_stem, parent_reads, stem_reads,
};
use vstd::prelude::*;

verus! {

/// What the loop waits for.
#[derive(Debug, Clone, Copy, PartialEq, Eq, Structural)]
pub enum LoopState {
    /// Whether to stop.
    Checking,
    /// The files of the trace directory; for the last time if `draining`.
    Scanning { draining: bool },
    /// The pipeline.
    Processing { draining: bool },
    /// The end of the pause between two polls.
    Sleeping,
    /// Nothing.
    Stopped,
}

/// What is to be done next.
#[derive(Debug)]
pub enum LoopAction {
    /// Find out whether the worker is to stop.
    CheckStop,
    /// List the sealed segments with this stem in this directory.
    Scan { dir: String, stem: String },
    /// Run the pipeline over these segments.
    Process(Vec<SealedSegment>),
    /// Pause this long.
    Sleep(Duration),
    /// Nothing any more.
    Return,
}

/// The value of a [`LoopAction`].
#[verifier::ext_equal]
pub enum LoopActionModel {
    CheckStop,
    Scan { dir: Seq<char>, stem: Seq<char> },
    Process(Seq<SegmentModel>),
    Sleep(Duration),
    Return,
}

impl View for LoopAction {
    type V = LoopActionModel;

    open spec fn view(&self) -> LoopActionModel {
        match *self {
            LoopAction::CheckStop => LoopActionModel::CheckStop,
            LoopAction::Scan { dir, stem } => LoopActionModel::Scan { dir: dir@, stem: stem@ },
            LoopAction::Process(segments) => LoopActionModel::Process(segment_models(segments@)),
            LoopAction::Sleep(d) => LoopActionModel::Sleep(d),
            LoopAction::Return => LoopActionModel::Return,
        }
    }
}

/// What came of the last action.
#[derive(Debug)]
pub enum LoopEvent {
    /// Whether the worker is to stop.
    Stop(bool),
    /// The segments that were found; `None` if the scan failed.
    Scanned(Option<Vec<SealedSegment>>),
    /// The pipeline is done.
    Processed,
    /// The pause is over.
    Slept,
}

/// The value of a [`LoopEvent`].
#[verifier::ext_equal]
pub enum LoopEventModel {
    Stop(bool),
    Scanned(Option<Seq<SegmentModel>>),
    Processed,
    Slept,
}

impl View for LoopEvent {
    type V = LoopEventModel;

    open spec fn view(&self) -> LoopEventModel {
        match *self {
            LoopEvent::Stop(stop) => LoopEventModel::Stop(stop),
            LoopEvent::Scanned(Some(segments)) => LoopEventModel::Scanned(
                Some(segment_models(segments@)),
            ),
            LoopEvent::Scanned(None) => LoopEventModel::Scanned(None),
            LoopEvent::Processed => LoopEventModel::Processed,
            LoopEvent::Slept => LoopEventModel::Slept,
        }
    }
}

/// The loop of the background task.
#[derive(Debug)]
pub struct WorkerLoop {
    dir: String,
    stem: String,
    poll_interval: Duration,
    state: LoopState,
}

/// The value of a [`WorkerLoop`].
#[verifier::ext_equal]
pub struct WorkerLoopModel {
    pub dir: Seq<char>,
    pub stem: Seq<char>,
    pub poll_interval: Duration,
    pub state: LoopState,
}

impl View for WorkerLoop {
    type V = WorkerLoopModel;

    closed spec fn view(&self) -> WorkerLoopModel {
        WorkerLoopModel {
            dir: self.dir@,
            stem: self.stem@,
            poll_interval: self.poll_interval,
            state: self.state,
        }
    }
}

/// After the last work of a poll: the pause, or the end when draining.
pub open spec fn after_work(w: WorkerLoopModel, draining: bool) -> (LoopState, LoopActionModel) {
    if draining {
        (LoopState::Stopped, LoopActionModel::Return)
    } else {
        (LoopState::Sleeping, LoopActionModel::Sleep(w.poll_interval))
    }
}

/// The state after `event` and what is to be done in it. `None` if the event
/// does not answer what the loop waits for.
pub open spec fn loop_step(w: WorkerLoopModel, event: LoopEventModel) -> Option<
    (LoopState, LoopActionModel),
> {
    match (w.state, event) {
        (LoopState::Checking, LoopEventModel::Stop(stop)) => Some(
            (
                LoopState::Scanning { draining: stop },
                LoopActionModel::Scan { dir: w.dir, stem: w.stem },
            ),
        ),
        (LoopState::Scanning { draining }, LoopEventModel::Scanned(Some(segments))) => Some(
            (LoopState::Processing { draining }, LoopActionModel::Process(segments)),
        ),
        (LoopState::Scanning { draining }, LoopEventModel::Scanned(None)) => Some(
            after_work(w, draining),
        ),
        (LoopState::Processing { draining }, LoopEventModel::Processed) => Some(
            after_work(w, draining),
        ),
        (LoopState::Sleeping, LoopEventModel::Slept) => Some(
            (LoopState::Checking, LoopActionModel::CheckStop),
        ),
        _ => None,
    }
}

impl WorkerLoop {
    /// A loop over the segments with stem `stem` in `dir`. It first asks
    /// whether to stop.
    pub fn new(dir: String, stem: String, poll_interval: Duration) -> (w: WorkerLoop)
        ensures
            w@ == (WorkerLoopModel {
                dir: dir@,
                stem: stem@,
                poll_interval,
                state: LoopState::Checking,
            }),
    {
        WorkerLoop { dir, stem, poll_interval, state: LoopState::Checking }
    }

    /// A loop as `config` says. Directory and stem are those of
    /// [`BackgroundTaskConfig::trace_dir`] and
    /// [`BackgroundTaskConfig::trace_stem`].
    pub fn from_config(config: &BackgroundTaskConfig) -> (w: WorkerLoop)
        ensures
            w@.poll_interval == config.spec_poll_interval(),
            w@.state == LoopState::Checking,
            w@.stem.len() > 0,
            is_plain_path(config.spec_trace_path()) ==> is_parent(
                config.spec_trace_path(),
                w@.dir,
            ) && is_stem(config.spec_trace_path(), w@.stem),
            exists|parent: Option<String>| #[trigger]
                parent_reads(config.spec_trace_path(), parent) && w@.dir == (match parent {
                    Some(p) => p@,
                    None => "."@,
                }),
            exists|read: Option<String>| #[trigger]
                stem_reads(config.spec_trace_path(), read) && w@.stem == (match read {
                    Some(s) => if s@.len() > 0 {
                        s@
                    } else {
                        "trace"@
                    },
                    None => "trace"@,
                }),
    {
        WorkerLoop::new(config.trace_dir(), config.trace_stem(), config.poll_interval())
    }

    /// Go on after the last action has led to `event`. Nothing changes if that
    /// is no answer to it.
    pub fn on_event(&mut self, event: LoopEvent) -> (a: Option<LoopAction>)
        ensures
            match loop_step(old(self)@, event@) {
                Some(next) => final(self)@ == (WorkerLoopModel { state: next.0, ..old(self)@ })
                    && (a matches Some(a) && a@ == next.1),
                None => final(self)@ == old(self)@ && a is None,
            },
    {
        match (self.state, event) {
            (LoopState::Checking, LoopEvent::Stop(stop)) => {
                self.state = LoopState::Scanning { draining: stop };
                Some(LoopAction::Scan { dir: self.dir.clone(), stem: self.stem.clone() })
            },
            (LoopState::Scanning { draining }, LoopEvent::Scanned(Some(segments))) => {
                self.state = LoopState::Processing { draining };
                Some(LoopAction::Process(segments))
            },
            (LoopState::Scanning { draining }, LoopEvent::Scanned(None)) => {
                Some(self.finish_work(draining))
            },
            (LoopState::Processing { draining }, LoopEvent::Processed) => {
                Some(self.finish_work(draining))
            },
            (LoopState::Sleeping, LoopEvent::Slept) => {
                self.state = LoopState::Checking;
                Some(LoopAction::CheckStop)
            },
            _ => None,
        }
    }

    fn finish_work(&mut self, draining: bool) -> (a: LoopAction)
        ensures
            final(self)@ == (WorkerLoopModel {
                state: after_work(old(self)@, draining).0,
                ..old(self)@
            }),
            a@ == after_work(old(self)@, draining).1,
    {
        if draining {
            self.state = LoopState::Stopped;
            LoopAction::Return
        } else {
            self.state = LoopState::Sleeping;
            LoopAction::Sleep(self.poll_interval)
        }
    }
}

/// Stopping loses nothing: once the worker is told to stop, it scans once more,
/// hands all that it finds to the pipeline, and then ends without another pause.
pub proof fn lemma_stop_drains(w: WorkerLoopModel, found: Seq<SegmentModel>)
    requires
        w.state == LoopState::Checking,
    ensures
        ({
            let scanning = LoopState::Scanning { draining: true };
            let processing = LoopState::Processing { draining: true };
            &&& loop_step(w, LoopEventModel::Stop(true)) == Some(
                (scanning, LoopActionModel::Scan { dir: w.dir, stem: w.stem }),
            )
            &&& loop_step(
                WorkerLoopModel { state: scanning, ..w },
                LoopEventModel::Scanned(Some(found)),
            ) == Some((processing, LoopActionModel::Process(found)))
            &&& loop_step(
                WorkerLoopModel { state: processing, ..w },
                LoopEventModel::Processed,
            ) == Some((LoopState::Stopped, LoopActionModel::Return))
        }),
{
}

/// What was found goes to the pipeline as it was found, and only what was asked
/// for is scanned. After the work of a poll comes a pause of the poll interval,
/// or the end where the worker was told to stop; a scan that failed is no
/// different. After a pause the worker asks whether to stop. An event that
/// answers nothing has no effect.
pub proof fn lemma_loop_goes_on_as_told(w: WorkerLoopModel, event: LoopEventModel)
    ensures
        match (w.state, event) {
            (LoopState::Checking, LoopEventModel::Stop(stop)) => loop_step(w, event) matches Some(
                next,
            ) && next.0 == (LoopState::Scanning { draining: stop }) && (next.1 matches
                LoopActionModel::Scan { dir, stem } && dir == w.dir && stem == w.stem),
            (
                LoopState::Scanning { draining },
                LoopEventModel::Scanned(Some(found)),
            ) => loop_step(w, event) matches Some(next) && next.0 == (LoopState::Processing {
                draining,
            }) && next.1 == LoopActionModel::Process(found),
            (LoopState::Scanning { draining }, LoopEventModel::Scanned(None)) => loop_step(w, event)
                matches Some(next) && if draining {
                next.0 == LoopState::Stopped && next.1 is Return
            } else {
                next.0 == LoopState::Sleeping && next.1 == LoopActionModel::Sleep(w.poll_interval)
            },
            (LoopState::Processing { draining }, LoopEventModel::Processed) => loop_step(w, event)
                matches Some(next) && if draining {
                next.0 == LoopState::Stopped && next.1 is Return
            } else {
                next.0 == LoopState::Sleeping && next.1 == LoopActionModel::Sleep(w.poll_interval)
            },
            (LoopState::Sleeping, LoopEventModel::Slept) => loop_step(w, event) matches Some(next)
                && next.0 == LoopState::Checking && next.1 is CheckStop,
            _ => loop_step(w, event) is None,
        },
{
}

/// The value of an action or an event is of the same kind and has what it has.
pub proof fn lemma_values_of_the_loop(a: LoopAction, e: LoopEvent)
    ensures
        match a {
            LoopAction::CheckStop => a@ is CheckStop,
            LoopAction::Scan { dir, stem } => a@ matches LoopActionModel::Scan { dir: d, stem: s }
                && d == dir@ && s == stem@,
            LoopAction::Process(segments) => a@ matches LoopActionModel::Process(p) && p.len()
                == segments@.len() && forall|i: int|
                0 <= i < p.len() ==> (#[trigger] p[i]).path == segments@[i].path@ && p[i].index
                    == segments@[i].index,
            LoopAction::Sleep(d) => a@ == LoopActionModel::Sleep(d),
            LoopAction::Return => a@ is Return,
        },
        match e {
            LoopEvent::Stop(stop) => e@ == LoopEventModel::Stop(stop),
            LoopEvent::Scanned(Some(found)) => e@ matches LoopEventModel::Scanned(Some(f)) && f.len()
                == found@.len() && forall|i: int|
                0 <= i < f.len() ==> (#[trigger] f[i]).path == found@[i].path@ && f[i].index
                    == found@[i].index,
            LoopEvent::Scanned(None) => e@ matches LoopEventModel::Scanned(None),
            LoopEvent::Processed => e@ is Processed,
            LoopEvent::Slept => e@ is Slept,
        },
{
}

} // verus!
