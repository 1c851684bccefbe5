//! Wire-level identifiers and event records.

use crate::telemetry::events::{CpuSampleSource, InternedString, SpawnLocRef, TelemetryEvent};
use crate::telemetry::task_metadata::TaskId;
use vstd::prelude::*;

verus! {

/// Identifies a Tokio worker thread.
#[derive(Debug, Clone, Copy, PartialEq, Eq, PartialOrd, Ord, Hash, Structural)]
pub struct WorkerId(pub u64);

/// Worker number that stands for a thread that is no worker.
pub const UNKNOWN_WORKER: u64 = 255;

/// Worker number that stands for the blocking thread pool.
pub const BLOCKING_WORKER: u64 = 254;

impl WorkerId {
    /// Sentinel for events from non-worker threads.
    pub fn unknown() -> (id: WorkerId)
        ensures
            id.0 == UNKNOWN_WORKER,
    {
        WorkerId(UNKNOWN_WORKER)
    }

    /// Sentinel for events from the blocking thread pool.
    pub fn blocking() -> (id: WorkerId)
        ensures
            id.0 == BLOCKING_WORKER,
    {
        WorkerId(BLOCKING_WORKER)
    }

    /// The number in decimal.
    pub fn text(&self) -> (s: String)
        ensures
            s@ == crate::text::decimal(self.0 as nat),
    {
        let mut s = String::new();
        crate::text::push_decimal(&mut s, self.0);
        assert(s@ =~= crate::text::decimal(self.0 as nat));
        s
    }

    /// The worker number.
    pub fn as_u64(self) -> (v: u64)
        ensures
            v == self.0,
    {
        self.0
    }
}

impl Default for WorkerId {
    fn default() -> (id: WorkerId)
        ensures
            id.0 == 0,
    {
        WorkerId(0)
    }
}

impl From<usize> for WorkerId {
    fn from(v: usize) -> (id: WorkerId) {
        WorkerId(v as u64)
    }
}

impl vstd::std_specs::convert::FromSpecImpl<usize> for WorkerId {
    open spec fn obeys_from_spec() -> bool {
        true
    }

    open spec fn from_spec(v: usize) -> WorkerId {
        WorkerId(v as u64)
    }
}

impl From<u8> for WorkerId {
    fn from(v: u8) -> (id: WorkerId) {
        WorkerId(v as u64)
    }
}

impl vstd::std_specs::convert::FromSpecImpl<u8> for WorkerId {
    open spec fn obeys_from_spec() -> bool {
        true
    }

    open spec fn from_spec(v: u8) -> WorkerId {
        WorkerId(v as u64)
    }
}

// Event records: what the trace encoder writes and the decoder gives back.

/// A task is about to be polled.
#[derive(Debug, Clone, Copy, PartialEq, Eq, Structural)]
pub struct PollStartEvent {
    pub timestamp_ns: u64,
    pub worker_id: WorkerId,
    pub local_queue: u8,
    pub task_id: TaskId,
    pub spawn_loc: InternedString,
}

/// A task was polled.
#[derive(Debug, Clone, Copy, PartialEq, Eq, Structural)]
pub struct PollEndEvent {
    pub timestamp_ns: u64,
    pub worker_id: WorkerId,
}

/// A worker goes to sleep.
#[derive(Debug, Clone, Copy, PartialEq, Eq, Structural)]
pub struct WorkerParkEvent {
    pub timestamp_ns: u64,
    pub worker_id: WorkerId,
    pub local_queue: u8,
    pub cpu_time_ns: u64,
}

/// A worker woke up.
#[derive(Debug, Clone, Copy, PartialEq, Eq, Structural)]
pub struct WorkerUnparkEvent {
    pub timestamp_ns: u64,
    pub worker_id: WorkerId,
    pub local_queue: u8,
    pub cpu_time_ns: u64,
    pub sched_wait_ns: u64,
}

/// A sample of the global queue depth.
#[derive(Debug, Clone, Copy, PartialEq, Eq, Structural)]
pub struct QueueSampleEvent {
    pub timestamp_ns: u64,
    pub global_queue: u8,
}

/// A task was spawned.
#[derive(Debug, Clone, Copy, PartialEq, Eq, Structural)]
pub struct TaskSpawnEvent {
    pub timestamp_ns: u64,
    pub task_id: TaskId,
    pub spawn_loc: InternedString,
}

/// A task has ended.
#[derive(Debug, Clone, Copy, PartialEq, Eq, Structural)]
pub struct TaskTerminateEvent {
    pub timestamp_ns: u64,
    pub task_id: TaskId,
}

/// A stack sample.
#[derive(Debug, Clone)]
pub struct CpuSampleEvent {
    pub timestamp_ns: u64,
    pub worker_id: WorkerId,
    pub tid: u32,
    pub source: CpuSampleSource,
    pub thread_name: InternedString,
    pub callchain: Vec<u64>,
}

/// A task was woken.
#[derive(Debug, Clone, Copy, PartialEq, Eq, Structural)]
pub struct WakeEventEvent {
    pub timestamp_ns: u64,
    pub waker_task_id: TaskId,
    pub woken_task_id: TaskId,
    pub target_worker: u8,
}

/// Key-value metadata of a segment.
#[derive(Debug, Clone)]
pub struct SegmentMetadataEvent {
    pub timestamp_ns: u64,
    pub entries: Vec<(String, String)>,
}

/// A decoded event record of any type.
#[derive(Debug, Clone)]
pub enum TelemetryEventRef {
    PollStart(PollStartEvent),
    PollEnd(PollEndEvent),
    WorkerPark(WorkerParkEvent),
    WorkerUnpark(WorkerUnparkEvent),
    QueueSample(QueueSampleEvent),
    TaskSpawn(TaskSpawnEvent),
    TaskTerminate(TaskTerminateEvent),
    CpuSample(CpuSampleEvent),
    WakeEvent(WakeEventEvent),
    SegmentMetadata(SegmentMetadataEvent),
}

impl TelemetryEventRef {
    /// The timestamp of the record.
    pub open spec fn timestamp(self) -> u64 {
        match self {
            TelemetryEventRef::PollStart(e) => e.timestamp_ns,
            TelemetryEventRef::PollEnd(e) => e.timestamp_ns,
            TelemetryEventRef::WorkerPark(e) => e.timestamp_ns,
            TelemetryEventRef::WorkerUnpark(e) => e.timestamp_ns,
            TelemetryEventRef::QueueSample(e) => e.timestamp_ns,
            TelemetryEventRef::TaskSpawn(e) => e.timestamp_ns,
            TelemetryEventRef::TaskTerminate(e) => e.timestamp_ns,
            TelemetryEventRef::CpuSample(e) => e.timestamp_ns,
            TelemetryEventRef::WakeEvent(e) => e.timestamp_ns,
            TelemetryEventRef::SegmentMetadata(e) => e.timestamp_ns,
        }
    }

    /// Returns the timestamp in nanoseconds, if this event type carries one;
    /// every type does.
    pub fn timestamp_ns(&self) -> (t: Option<u64>)
        ensures
            t == Some(self.timestamp()),
    {
        match self {
            TelemetryEventRef::PollStart(e) => Some(e.timestamp_ns),
            TelemetryEventRef::PollEnd(e) => Some(e.timestamp_ns),
            TelemetryEventRef::WorkerPark(e) => Some(e.timestamp_ns),
            TelemetryEventRef::WorkerUnpark(e) => Some(e.timestamp_ns),
            TelemetryEventRef::QueueSample(e) => Some(e.timestamp_ns),
            TelemetryEventRef::TaskSpawn(e) => Some(e.timestamp_ns),
            TelemetryEventRef::TaskTerminate(e) => Some(e.timestamp_ns),
            TelemetryEventRef::CpuSample(e) => Some(e.timestamp_ns),
            TelemetryEventRef::WakeEvent(e) => Some(e.timestamp_ns),
            TelemetryEventRef::SegmentMetadata(e) => Some(e.timestamp_ns),
        }
    }

    /// The schema name of the record's type.
    pub open spec fn name(self) -> Seq<char> {
        match self {
            TelemetryEventRef::PollStart(_) => "PollStartEvent"@,
            TelemetryEventRef::PollEnd(_) => "PollEndEvent"@,
            TelemetryEventRef::WorkerPark(_) => "WorkerParkEvent"@,
            TelemetryEventRef::WorkerUnpark(_) => "WorkerUnparkEvent"@,
            TelemetryEventRef::QueueSample(_) => "QueueSampleEvent"@,
            TelemetryEventRef::TaskSpawn(_) => "TaskSpawnEvent"@,
            TelemetryEventRef::TaskTerminate(_) => "TaskTerminateEvent"@,
            TelemetryEventRef::CpuSample(_) => "CpuSampleEvent"@,
            TelemetryEventRef::WakeEvent(_) => "WakeEventEvent"@,
            TelemetryEventRef::SegmentMetadata(_) => "SegmentMetadataEvent"@,
        }
    }

    /// The schema name of the record's type.
    pub fn event_name(&self) -> (s: &'static str)
        ensures
            s@ == self.name(),
    {
        match self {
            TelemetryEventRef::PollStart(_) => "PollStartEvent",
            TelemetryEventRef::PollEnd(_) => "PollEndEvent",
            TelemetryEventRef::WorkerPark(_) => "WorkerParkEvent",
            TelemetryEventRef::WorkerUnpark(_) => "WorkerUnparkEvent",
            TelemetryEventRef::QueueSample(_) => "QueueSampleEvent",
            TelemetryEventRef::TaskSpawn(_) => "TaskSpawnEvent",
            TelemetryEventRef::TaskTerminate(_) => "TaskTerminateEvent",
            TelemetryEventRef::CpuSample(_) => "CpuSampleEvent",
            TelemetryEventRef::WakeEvent(_) => "WakeEventEvent",
            TelemetryEventRef::SegmentMetadata(_) => "SegmentMetadataEvent",
        }
    }
}

/// Convert a decoded record into an event.
impl From<TelemetryEventRef> for TelemetryEvent {
    fn from(r: TelemetryEventRef) -> (event: TelemetryEvent) {
        match r {
            TelemetryEventRef::PollStart(e) => TelemetryEvent::PollStart {
                timestamp_nanos: e.timestamp_ns,
                worker_id: e.worker_id,
                worker_local_queue_depth: e.local_queue as usize,
                task_id: e.task_id,
                spawn_loc: SpawnLocRef::Interned(e.spawn_loc),
            },
            TelemetryEventRef::PollEnd(e) => TelemetryEvent::PollEnd {
                timestamp_nanos: e.timestamp_ns,
                worker_id: e.worker_id,
            },
            TelemetryEventRef::WorkerPark(e) => TelemetryEvent::WorkerPark {
                timestamp_nanos: e.timestamp_ns,
                worker_id: e.worker_id,
                worker_local_queue_depth: e.local_queue as usize,
                cpu_time_nanos: e.cpu_time_ns,
            },
            TelemetryEventRef::WorkerUnpark(e) => TelemetryEvent::WorkerUnpark {
                timestamp_nanos: e.timestamp_ns,
                worker_id: e.worker_id,
                worker_local_queue_depth: e.local_queue as usize,
                cpu_time_nanos: e.cpu_time_ns,
                sched_wait_delta_nanos: e.sched_wait_ns,
            },
            TelemetryEventRef::QueueSample(e) => TelemetryEvent::QueueSample {
                timestamp_nanos: e.timestamp_ns,
                global_queue_depth: e.global_queue as usize,
            },
            TelemetryEventRef::TaskSpawn(e) => TelemetryEvent::TaskSpawn {
                timestamp_nanos: e.timestamp_ns,
                task_id: e.task_id,
                spawn_loc: SpawnLocRef::Interned(e.spawn_loc),
            },
            TelemetryEventRef::TaskTerminate(e) => TelemetryEvent::TaskTerminate {
                timestamp_nanos: e.timestamp_ns,
                task_id: e.task_id,
            },
            TelemetryEventRef::CpuSample(e) => TelemetryEvent::CpuSample {
                timestamp_nanos: e.timestamp_ns,
                worker_id: e.worker_id,
                tid: e.tid,
                source: e.source,
                callchain: e.callchain,
            },
            TelemetryEventRef::WakeEvent(e) => TelemetryEvent::WakeEvent {
                timestamp_nanos: e.timestamp_ns,
                waker_task_id: e.waker_task_id,
                woken_task_id: e.woken_task_id,
                target_worker: e.target_worker,
            },
            TelemetryEventRef::SegmentMetadata(e) => TelemetryEvent::SegmentMetadata {
                timestamp_nanos: e.timestamp_ns,
                entries: e.entries,
            },
        }
    }
}

impl vstd::std_specs::convert::FromSpecImpl<TelemetryEventRef> for TelemetryEvent {
    open spec fn obeys_from_spec() -> bool {
        true
    }

    open spec fn from_spec(r: TelemetryEventRef) -> TelemetryEvent {
        match r {
            TelemetryEventRef::PollStart(e) => TelemetryEvent::PollStart {
                timestamp_nanos: e.timestamp_ns,
                worker_id: e.worker_id,
                worker_local_queue_depth: e.local_queue as usize,
                task_id: e.task_id,
                spawn_loc: SpawnLocRef::Interned(e.spawn_loc),
            },
            TelemetryEventRef::PollEnd(e) => TelemetryEvent::PollEnd {
                timestamp_nanos: e.timestamp_ns,
                worker_id: e.worker_id,
            },
            TelemetryEventRef::WorkerPark(e) => TelemetryEvent::WorkerPark {
                timestamp_nanos: e.timestamp_ns,
                worker_id: e.worker_id,
                worker_local_queue_depth: e.local_queue as usize,
                cpu_time_nanos: e.cpu_time_ns,
            },
            TelemetryEventRef::WorkerUnpark(e) => TelemetryEvent::WorkerUnpark {
                timestamp_nanos: e.timestamp_ns,
                worker_id: e.worker_id,
                worker_local_queue_depth: e.local_queue as usize,
                cpu_time_nanos: e.cpu_time_ns,
                sched_wait_delta_nanos: e.sched_wait_ns,
            },
            TelemetryEventRef::QueueSample(e) => TelemetryEvent::QueueSample {
                timestamp_nanos: e.timestamp_ns,
                global_queue_depth: e.global_queue as usize,
            },
            TelemetryEventRef::TaskSpawn(e) => TelemetryEvent::TaskSpawn {
                timestamp_nanos: e.timestamp_ns,
                task_id: e.task_id,
                spawn_loc: SpawnLocRef::Interned(e.spawn_loc),
            },
            TelemetryEventRef::TaskTerminate(e) => TelemetryEvent::TaskTerminate {
                timestamp_nanos: e.timestamp_ns,
                task_id: e.task_id,
            },
            TelemetryEventRef::CpuSample(e) => TelemetryEvent::CpuSample {
                timestamp_nanos: e.timestamp_ns,
                worker_id: e.worker_id,
                tid: e.tid,
                source: e.source,
                callchain: e.callchain,
            },
            TelemetryEventRef::WakeEvent(e) => TelemetryEvent::WakeEvent {
                timestamp_nanos: e.timestamp_ns,
                waker_task_id: e.waker_task_id,
                woken_task_id: e.woken_task_id,
                target_worker: e.target_worker,
            },
            TelemetryEventRef::SegmentMetadata(e) => TelemetryEvent::SegmentMetadata {
                timestamp_nanos: e.timestamp_ns,
                entries: e.entries,
            },
        }
    }
}

/// An event that is converted from a decoded record has each field of the
/// record: the same timestamp, and under its own name every number, id and
/// list that the record holds.
pub proof fn lemma_decoded_event_has_every_field(r: TelemetryEventRef)
    ensures
        match (r, <TelemetryEvent as vstd::std_specs::convert::FromSpec<TelemetryEventRef>>::from_spec(r)) {
            (
                TelemetryEventRef::PollStart(e),
                TelemetryEvent::PollStart {
                    timestamp_nanos,
                    worker_id,
                    worker_local_queue_depth,
                    task_id,
                    spawn_loc,
                },
            ) => timestamp_nanos == e.timestamp_ns && worker_id == e.worker_id
                && worker_local_queue_depth == e.local_queue && task_id == e.task_id && spawn_loc
                == SpawnLocRef::Interned(e.spawn_loc),
            (
                TelemetryEventRef::PollEnd(e),
                TelemetryEvent::PollEnd { timestamp_nanos, worker_id },
            ) => timestamp_nanos == e.timestamp_ns && worker_id == e.worker_id,
            (
                TelemetryEventRef::WorkerPark(e),
                TelemetryEvent::WorkerPark {
                    timestamp_nanos,
                    worker_id,
                    worker_local_queue_depth,
                    cpu_time_nanos,
                },
            ) => timestamp_nanos == e.timestamp_ns && worker_id == e.worker_id
                && worker_local_queue_depth == e.local_queue && cpu_time_nanos == e.cpu_time_ns,
            (
                TelemetryEventRef::WorkerUnpark(e),
                TelemetryEvent::WorkerUnpark {
                    timestamp_nanos,
                    worker_id,
                    worker_local_queue_depth,
                    cpu_time_nanos,
                    sched_wait_delta_nanos,
                },
            ) => timestamp_nanos == e.timestamp_ns && worker_id == e.worker_id
                && worker_local_queue_depth == e.local_queue && cpu_time_nanos == e.cpu_time_ns
                && sched_wait_delta_nanos == e.sched_wait_ns,
            (
                TelemetryEventRef::QueueSample(e),
                TelemetryEvent::QueueSample { timestamp_nanos, global_queue_depth },
            ) => timestamp_nanos == e.timestamp_ns && global_queue_depth == e.global_queue,
            (
                TelemetryEventRef::TaskSpawn(e),
                TelemetryEvent::TaskSpawn { timestamp_nanos, task_id, spawn_loc },
            ) => timestamp_nanos == e.timestamp_ns && task_id == e.task_id && spawn_loc
                == SpawnLocRef::Interned(e.spawn_loc),
            (
                TelemetryEventRef::TaskTerminate(e),
                TelemetryEvent::TaskTerminate { timestamp_nanos, task_id },
            ) => timestamp_nanos == e.timestamp_ns && task_id == e.task_id,
            (
                TelemetryEventRef::CpuSample(e),
                TelemetryEvent::CpuSample { timestamp_nanos, worker_id, tid, source, callchain },
            ) => timestamp_nanos == e.timestamp_ns && worker_id == e.worker_id && tid == e.tid
                && source == e.source && callchain@ == e.callchain@,
            (
                TelemetryEventRef::WakeEvent(e),
                TelemetryEvent::WakeEvent {
                    timestamp_nanos,
                    waker_task_id,
                    woken_task_id,
                    target_worker,
                },
            ) => timestamp_nanos == e.timestamp_ns && waker_task_id == e.waker_task_id
                && woken_task_id == e.woken_task_id && target_worker == e.target_worker,
            (
                TelemetryEventRef::SegmentMetadata(e),
                TelemetryEvent::SegmentMetadata { timestamp_nanos, entries },
            ) => timestamp_nanos == e.timestamp_ns && entries@ == e.entries@,
            _ => false,
        },
{
}

/// The timestamp of a record is its `timestamp_ns`, whatever its type.
pub proof fn lemma_timestamp_is_the_records_own(r: TelemetryEventRef)
    ensures
        match r {
            TelemetryEventRef::PollStart(e) => r.timestamp() == e.timestamp_ns,
            TelemetryEventRef::PollEnd(e) => r.timestamp() == e.timestamp_ns,
            TelemetryEventRef::WorkerPark(e) => r.timestamp() == e.timestamp_ns,
            TelemetryEventRef::WorkerUnpark(e) => r.timestamp() == e.timestamp_ns,
            TelemetryEventRef::QueueSample(e) => r.timestamp() == e.timestamp_ns,
            TelemetryEventRef::TaskSpawn(e) => r.timestamp() == e.timestamp_ns,
            TelemetryEventRef::TaskTerminate(e) => r.timestamp() == e.timestamp_ns,
            TelemetryEventRef::CpuSample(e) => r.timestamp() == e.timestamp_ns,
            TelemetryEventRef::WakeEvent(e) => r.timestamp() == e.timestamp_ns,
            TelemetryEventRef::SegmentMetadata(e) => r.timestamp() == e.timestamp_ns,
        },
{
}

/// A record is written under the name of its own type.
pub proof fn lemma_record_has_the_name_of_its_type(r: TelemetryEventRef)
    ensures
        match r {
            TelemetryEventRef::PollStart(_) => r.name() == "PollStartEvent"@,
            TelemetryEventRef::PollEnd(_) => r.name() == "PollEndEvent"@,
            TelemetryEventRef::WorkerPark(_) => r.name() == "WorkerParkEvent"@,
            TelemetryEventRef::WorkerUnpark(_) => r.name() == "WorkerUnparkEvent"@,
            TelemetryEventRef::QueueSample(_) => r.name() == "QueueSampleEvent"@,
            TelemetryEventRef::TaskSpawn(_) => r.name() == "TaskSpawnEvent"@,
            TelemetryEventRef::TaskTerminate(_) => r.name() == "TaskTerminateEvent"@,
            TelemetryEventRef::CpuSample(_) => r.name() == "CpuSampleEvent"@,
            TelemetryEventRef::WakeEvent(_) => r.name() == "WakeEventEvent"@,
            TelemetryEventRef::SegmentMetadata(_) => r.name() == "SegmentMetadataEvent"@,
        },
{
}

/// A worker id has the number that it is made from; the two ids that stand for
/// no worker are the two numbers at the end of the byte's range.
pub proof fn lemma_worker_id_keeps_its_number(v: usize, b: u8)
    ensures
        <WorkerId as vstd::std_specs::convert::FromSpec<usize>>::from_spec(v).0 == v,
        <WorkerId as vstd::std_specs::convert::FromSpec<u8>>::from_spec(b).0 == b,
        UNKNOWN_WORKER == u8::MAX,
        BLOCKING_WORKER == u8::MAX - 1,
{
}

/// Converting a record, and making a worker id, is what is said of it.
pub proof fn lemma_conversions_are_as_said()
    ensures
        <TelemetryEvent as vstd::std_specs::convert::FromSpec<TelemetryEventRef>>::obeys_from_spec(),
        <WorkerId as vstd::std_specs::convert::FromSpec<usize>>::obeys_from_spec(),
        <WorkerId as vstd::std_specs::convert::FromSpec<u8>>::obeys_from_spec(),
{
}

} // verus!
