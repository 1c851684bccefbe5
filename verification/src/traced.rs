//! What a traced future keeps between polls: wake events and the per-task
//! opt-in to task dumps.

use crate::task_dumped::{current_stack, stack_walks, StackFrame};
use crate::telemetry::events::RawEvent;
use crate::telemetry::recorder::shared_state::{SharedModel, SharedState};
use crate::telemetry::recorder::worker_thread::{create_wake_event, current_worker_id};
use crate::telemetry::task_metadata::TaskId;
use vstd::prelude::*;

verus! {

/// Per-task opt-in override for task dump capture, one for each thread.
/// Set by [`enable_task_dumps`], read and latched by a traced future on each
/// poll. Once a future reads `true`, it keeps the flag for itself and the
/// override is cleared so it doesn't leak to other tasks on the same thread.
#[derive(Debug, Clone, Copy, PartialEq, Eq, Structural)]
pub struct TaskDumpOverride {
    set: bool,
}

impl TaskDumpOverride {
    /// Whether the override is set.
    pub closed spec fn is_set(self) -> bool {
        self.set
    }

    /// An override that is not set.
    pub fn new() -> (o: TaskDumpOverride)
        ensures
            !o.is_set(),
    {
        TaskDumpOverride { set: false }
    }
}

/// Enable task dump capture for the current task, given its thread's override.
///
/// Call this inside a traced future to opt in to task dump capture even when
/// global task dumps are disabled. The next poll of the enclosing wrapper will
/// latch this flag, enabling dumps for that task only.
pub fn enable_task_dumps(flag: &mut TaskDumpOverride)
    ensures
        final(flag).is_set(),
{
    flag.set = true;
}

/// Read and clear the per-task override.
pub fn take_task_dump_override(flag: &mut TaskDumpOverride) -> (was_set: bool)
    ensures
        was_set == old(flag).is_set(),
        !final(flag).is_set(),
{
    if flag.set {
        flag.set = false;
        true
    } else {
        false
    }
}

/// Record that the task `woken` is woken by the thread `thread`. `waker` is the
/// task that runs the wake, if a task does, and `worker_id` the worker that it
/// runs on — not the one that will execute the woken task, which is unknowable
/// at wake time.
pub fn record_wake_event(
    shared: &mut SharedState,
    thread: u64,
    now_nanos: u64,
    waker: Option<TaskId>,
    woken: TaskId,
    worker_id: Option<usize>,
)
    requires
        old(shared)@.wf(),
    ensures
        final(shared)@.wf(),
        final(shared)@ == old(shared)@.recorded(
            thread,
            wake_event(now_nanos, waker, woken, worker_id),
        ),
{
    let event = create_wake_event(now_nanos, waker, woken, current_worker_id(worker_id));
    proof {
        if let RawEvent::WakeEvent { waker_task_id, .. } = event {
            TaskId::lemma_view_determines(waker_task_id, TaskId::spec_from(0));
            TaskId::lemma_spec_from(0);
        }
    }
    shared.record_event(thread, event);
}

/// The event of a wake. A worker that is unknown or does not fit into a byte is
/// given as 255, a waker that is no task as task 0.
pub open spec fn wake_event(
    now_nanos: u64,
    waker: Option<TaskId>,
    woken: TaskId,
    worker_id: Option<usize>,
) -> RawEvent {
    RawEvent::WakeEvent {
        timestamp_nanos: now_nanos,
        waker_task_id: match waker {
            Some(id) => id,
            None => TaskId::spec_from(0),
        },
        woken_task_id: woken,
        target_worker: match worker_id {
            Some(i) => if i <= 254 {
                i as u8
            } else {
                255
            },
            None => 255,
        },
    }
}

/// The instruction pointers of frames.
pub open spec fn ips_of(frames: Seq<StackFrame>) -> Seq<u64> {
    frames.map_values(|f: StackFrame| f.ip)
}

/// What a traced future keeps between polls.
#[derive(Debug)]
pub struct Traced {
    task_id: TaskId,
    /// The backtraces of the yield points of the last pending poll.
    pending_frames: Vec<Vec<u64>>,
    pending_capture_ts: u64,
    /// Per-task opt-in: latched from the thread's override on the first poll
    /// that sees it.
    task_dump_override: bool,
}

/// The value of a [`Traced`].
#[verifier::ext_equal]
pub struct TracedModel {
    pub task_id: TaskId,
    pub pending_frames: Seq<Seq<u64>>,
    pub captured_at: u64,
    pub dumps_wanted: bool,
}

impl View for Traced {
    type V = TracedModel;

    closed spec fn view(&self) -> TracedModel {
        TracedModel {
            task_id: self.task_id,
            pending_frames: self.pending_frames@.map_values(|f: Vec<u64>| f@),
            captured_at: self.pending_capture_ts,
            dumps_wanted: self.task_dump_override,
        }
    }
}

impl Traced {
    pub fn new(task_id: TaskId) -> (t: Traced)
        ensures
            t@ == (TracedModel {
                task_id,
                pending_frames: Seq::empty(),
                captured_at: 0,
                dumps_wanted: false,
            }),
    {
        let t = Traced {
            task_id,
            pending_frames: Vec::new(),
            pending_capture_ts: 0,
            task_dump_override: false,
        };
        assert(t@.pending_frames =~= Seq::empty());
        t
    }

    /// The future was polled through. Says whether its yield points are to be
    /// captured: it is pending, and dumps are on for all tasks or for this one.
    /// A future that is ready drops what it holds; one that is pending latches
    /// the override of its thread. With recording off nothing happens.
    pub fn polled(
        &mut self,
        recording: bool,
        ready: bool,
        flag: &mut TaskDumpOverride,
        dumps_enabled: bool,
    ) -> (capture: bool)
        ensures
            capture == (recording && !ready && (dumps_enabled || final(self)@.dumps_wanted)),
            final(self)@ == (if !recording {
                old(self)@
            } else if ready {
                TracedModel { pending_frames: Seq::empty(), ..old(self)@ }
            } else {
                TracedModel {
                    pending_frames: if capture {
                        Seq::empty()
                    } else {
                        old(self)@.pending_frames
                    },
                    dumps_wanted: old(self)@.dumps_wanted || old(flag).is_set(),
                    ..old(self)@
                }
            }),
            final(flag).is_set() == (old(flag).is_set() && (!recording || ready)),
    {
        if !recording {
            return false;
        }
        if ready {
            self.pending_frames.clear();
            assert(self@.pending_frames =~= Seq::empty());
            return false;
        }
        if take_task_dump_override(flag) {
            self.task_dump_override = true;
        }
        let capture = dumps_enabled || self.task_dump_override;
        if capture {
            self.pending_frames.clear();
            assert(self@.pending_frames =~= Seq::empty());
        }
        capture
    }

    /// Add the backtrace of a yield point whose stack was walked.
    pub fn add_backtrace(&mut self, frames: &Vec<StackFrame>)
        ensures
            final(self)@ == (TracedModel {
                pending_frames: old(self)@.pending_frames.push(ips_of(frames@)),
                ..old(self)@
            }),
    {
        let mut ips: Vec<u64> = Vec::new();
        let mut i: usize = 0;
        while i < frames.len()
            invariant
                i <= frames@.len(),
                ips@ == ips_of(frames@).take(i as int),
            decreases frames@.len() - i,
        {
            ips.push(frames[i].ip);
            i = i + 1;
            assert(ips@ =~= ips_of(frames@).take(i as int));
        }
        assert(ips@ =~= ips_of(frames@));
        let ghost before = self@.pending_frames;
        self.pending_frames.push(ips);
        assert(self@.pending_frames =~= before.push(ips_of(frames@)));
    }

    /// Add the backtrace of the yield point that the calling thread is at, as
    /// [`Traced::add_backtrace`] does.
    pub fn capture_backtrace(&mut self)
        ensures
            exists|frames: Vec<StackFrame>| #[trigger]
                stack_walks(frames) && final(self)@ == (TracedModel {
                    pending_frames: old(self)@.pending_frames.push(ips_of(frames@)),
                    ..old(self)@
                }),
    {
        let frames = current_stack();
        self.add_backtrace(&frames);
    }

    /// All yield points were captured, at `now`.
    pub fn captured(&mut self, now: u64)
        ensures
            final(self)@ == (TracedModel { captured_at: now, ..old(self)@ }),
    {
        self.pending_capture_ts = now;
    }

    /// The backtraces of the last capture.
    pub fn pending_frames(&self) -> (f: &Vec<Vec<u64>>)
        ensures
            f@.map_values(|f: Vec<u64>| f@) == self@.pending_frames,
    {
        &self.pending_frames
    }
}

/// With recording off a wake leaves no trace.
pub proof fn lemma_disabled_wake_records_nothing(
    m: SharedModel,
    thread: u64,
    now_nanos: u64,
    waker: Option<TaskId>,
    woken: TaskId,
    worker_id: Option<usize>,
)
    requires
        !m.enabled,
    ensures
        m.recorded(thread, wake_event(now_nanos, waker, woken, worker_id)) == m,
{
}

/// A wake event says who woke whom: the woken task is the one that was woken,
/// the waker the task that ran the wake, at the time of the wake and on the
/// worker that it ran on.
pub proof fn lemma_wake_event_says_who_woke_whom(
    now_nanos: u64,
    waker: Option<TaskId>,
    woken: TaskId,
    worker_id: Option<usize>,
)
    ensures
        wake_event(now_nanos, waker, woken, worker_id) matches RawEvent::WakeEvent {
            timestamp_nanos,
            waker_task_id,
            woken_task_id,
            target_worker,
        } && {
            &&& timestamp_nanos == now_nanos
            &&& woken_task_id == woken
            &&& waker matches Some(id) ==> waker_task_id == id
            &&& waker is None ==> waker_task_id@ == 0
            &&& worker_id matches Some(i) ==> i < 255 ==> target_worker == i
            &&& worker_id matches Some(i) ==> i >= 255 ==> target_worker == 255
            &&& worker_id is None ==> target_worker == 255
        },
{
    TaskId::lemma_spec_from(0);
}

/// A backtrace has the instruction pointer of each frame, in order.
pub proof fn lemma_backtrace_has_every_frame(frames: Seq<StackFrame>, i: int)
    requires
        0 <= i < frames.len(),
    ensures
        ips_of(frames).len() == frames.len(),
        ips_of(frames)[i] == frames[i].ip,
{
}

} // verus!
