//! Events as they are recorded and as they are written.

use crate::telemetry::format::WorkerId;
use crate::telemetry::task_metadata::{SpawnLocationId, TaskId};
use crate::text::{decimal, push_decimal};
use vstd::prelude::*;

verus! {

/// A source location that spawned a task.
///
/// `address` identifies the location: two events were spawned from the same
/// place exactly if their addresses agree.
#[derive(Debug, Clone)]
pub struct SpawnLocation {
    pub address: usize,
    pub file: String,
    pub line: u32,
    pub column: u32,
}

impl SpawnLocation {
    /// The location as `file:line:column`.
    pub open spec fn text(&self) -> Seq<char> {
        self.file@ + seq![':'] + decimal(self.line as nat) + seq![':'] + decimal(
            self.column as nat,
        )
    }

    /// The location as `file:line:column`.
    pub fn describe(&self) -> (s: String)
        ensures
            s@ == self.text(),
    {
        let mut s = self.file.clone();
        s.push(':');
        push_decimal(&mut s, self.line as u64);
        s.push(':');
        push_decimal(&mut s, self.column as u64);
        assert(s@ =~= self.text());
        s
    }
}

/// Handle of a string in the string pool of an encoded trace.
#[derive(Debug, Clone, Copy, PartialEq, Eq, PartialOrd, Ord, Hash, Structural)]
pub struct InternedString(pub u32);

/// How a written event refers to a spawn location: by the id of a
/// `SpawnLocationDef` in the same file, or by a string-pool handle.
#[derive(Debug, Clone, Copy, PartialEq, Eq, Structural)]
pub enum SpawnLocRef {
    Defined(SpawnLocationId),
    Interned(InternedString),
}

/// Where a CPU sample came from.
#[derive(Debug, Clone, Copy, PartialEq, Eq, Structural)]
pub enum CpuSampleSource {
    /// The frequency-driven CPU profiler.
    CpuProfile,
    /// A context switch of a worker thread.
    SchedEvent,
}

/// What a thread does for the runtime.
#[derive(Debug, Clone, Copy, PartialEq, Eq, Structural)]
pub enum ThreadRole {
    Worker(u64),
    Blocking,
}

/// A CPU sample attributed to a worker.
#[derive(Debug, Clone)]
pub struct CpuSampleData {
    pub timestamp_nanos: u64,
    pub worker_id: WorkerId,
    pub tid: u32,
    pub source: CpuSampleSource,
    pub thread_name: Option<String>,
    pub callchain: Vec<u64>,
}

/// The symbol of a code address.
#[derive(Debug, Clone)]
pub struct CallframeDefData {
    pub address: u64,
    pub symbol: String,
    pub location: Option<String>,
}

/// The name of an OS thread.
#[derive(Debug, Clone)]
pub struct ThreadNameDefData {
    pub tid: u32,
    pub name: String,
}

/// An event as the runtime hooks record it.
#[derive(Debug, Clone)]
pub enum RawEvent {
    PollStart {
        timestamp_nanos: u64,
        worker_id: WorkerId,
        worker_local_queue_depth: usize,
        task_id: TaskId,
        location: SpawnLocation,
    },
    PollEnd { timestamp_nanos: u64, worker_id: WorkerId },
    WorkerPark {
        timestamp_nanos: u64,
        worker_id: WorkerId,
        worker_local_queue_depth: usize,
        cpu_time_nanos: u64,
    },
    WorkerUnpark {
        timestamp_nanos: u64,
        worker_id: WorkerId,
        worker_local_queue_depth: usize,
        cpu_time_nanos: u64,
        sched_wait_delta_nanos: u64,
    },
    QueueSample { timestamp_nanos: u64, global_queue_depth: usize },
    TaskSpawn { timestamp_nanos: u64, task_id: TaskId, location: SpawnLocation },
    TaskTerminate { timestamp_nanos: u64, task_id: TaskId },
    WakeEvent {
        timestamp_nanos: u64,
        waker_task_id: TaskId,
        woken_task_id: TaskId,
        target_worker: u8,
    },
    CpuSample(Box<CpuSampleData>),
    CallframeDef(Box<CallframeDefData>),
    ThreadNameDef(Box<ThreadNameDefData>),
}

/// An event as it is written to a trace.
#[allow(inconsistent_fields)]
#[derive(Debug, Clone)]
pub enum TelemetryEvent {
    PollStart {
        timestamp_nanos: u64,
        worker_id: WorkerId,
        worker_local_queue_depth: usize,
        task_id: TaskId,
        spawn_loc: SpawnLocRef,
    },
    PollEnd { timestamp_nanos: u64, worker_id: WorkerId },
    WorkerPark {
        timestamp_nanos: u64,
        worker_id: WorkerId,
        worker_local_queue_depth: usize,
        cpu_time_nanos: u64,
    },
    WorkerUnpark {
        timestamp_nanos: u64,
        worker_id: WorkerId,
        worker_local_queue_depth: usize,
        cpu_time_nanos: u64,
        sched_wait_delta_nanos: u64,
    },
    QueueSample { timestamp_nanos: u64, global_queue_depth: usize },
    TaskSpawn { timestamp_nanos: u64, task_id: TaskId, spawn_loc: SpawnLocRef },
    TaskTerminate { timestamp_nanos: u64, task_id: TaskId },
    WakeEvent {
        timestamp_nanos: u64,
        waker_task_id: TaskId,
        woken_task_id: TaskId,
        target_worker: u8,
    },
    CpuSample {
        timestamp_nanos: u64,
        worker_id: WorkerId,
        tid: u32,
        source: CpuSampleSource,
        callchain: Vec<u64>,
    },
    SpawnLocationDef { id: SpawnLocationId, location: String },
    CallframeDef { address: u64, symbol: String, location: Option<String> },
    ThreadNameDef { tid: u32, name: String },
    SegmentMetadata { timestamp_nanos: u64, entries: Vec<(String, String)> },
}

/// The value of a [`TelemetryEvent`]: text as characters, lists as sequences.
#[allow(inconsistent_fields)]
pub enum EventModel {
    /// An event that holds nothing but numbers.
    Plain(TelemetryEvent),
    CpuSample {
        timestamp_nanos: u64,
        worker_id: WorkerId,
        tid: u32,
        source: CpuSampleSource,
        callchain: Seq<u64>,
    },
    SpawnLocationDef { id: SpawnLocationId, location: Seq<char> },
    CallframeDef { address: u64, symbol: Seq<char>, location: Option<Seq<char>> },
    ThreadNameDef { tid: u32, name: Seq<char> },
    SegmentMetadata { timestamp_nanos: u64, entries: Seq<(Seq<char>, Seq<char>)> },
}

/// The characters of an optional string.
pub open spec fn opt_chars(s: Option<String>) -> Option<Seq<char>> {
    match s {
        Some(t) => Some(t@),
        None => None,
    }
}

/// The characters of each key and value.
pub open spec fn entry_chars(entries: Seq<(String, String)>) -> Seq<(Seq<char>, Seq<char>)> {
    entries.map_values(|e: (String, String)| (e.0@, e.1@))
}

impl View for TelemetryEvent {
    type V = EventModel;

    open spec fn view(&self) -> EventModel {
        match *self {
            TelemetryEvent::CpuSample { timestamp_nanos, worker_id, tid, source, callchain } =>
                EventModel::CpuSample {
                    timestamp_nanos,
                    worker_id,
                    tid,
                    source,
                    callchain: callchain@,
                },
            TelemetryEvent::SpawnLocationDef { id, location } => EventModel::SpawnLocationDef {
                id,
                location: location@,
            },
            TelemetryEvent::CallframeDef { address, symbol, location } =>
                EventModel::CallframeDef {
                    address,
                    symbol: symbol@,
                    location: opt_chars(location),
                },
            TelemetryEvent::ThreadNameDef { tid, name } => EventModel::ThreadNameDef {
                tid,
                name: name@,
            },
            TelemetryEvent::SegmentMetadata { timestamp_nanos, entries } =>
                EventModel::SegmentMetadata { timestamp_nanos, entries: entry_chars(entries@) },
            other => EventModel::Plain(other),
        }
    }
}

/// Copies an optional string.
pub fn clone_opt_string(s: &Option<String>) -> (r: Option<String>)
    ensures
        opt_chars(r) == opt_chars(*s),
{
    match s {
        Some(t) => Some(t.clone()),
        None => None,
    }
}

/// Copies a list of addresses.
pub fn clone_addresses(v: &Vec<u64>) -> (r: Vec<u64>)
    ensures
        r@ == v@,
{
    let r = v.clone();
    assert(r@ =~= v@);
    r
}

/// Copies a list of keys and values.
pub fn clone_entries(entries: &Vec<(String, String)>) -> (r: Vec<(String, String)>)
    ensures
        entry_chars(r@) == entry_chars(entries@),
{
    let mut out: Vec<(String, String)> = Vec::new();
    let mut i: usize = 0;
    while i < entries.len()
        invariant
            i <= entries@.len(),
            out@.len() == i,
            entry_chars(out@) == entry_chars(entries@).take(i as int),
        decreases entries@.len() - i,
    {
        let ghost before = out@;
        out.push((entries[i].0.clone(), entries[i].1.clone()));
        i = i + 1;
        assert(entry_chars(out@) =~= entry_chars(before).push(
            entry_chars(entries@)[i as int - 1],
        ));
        assert(entry_chars(out@) =~= entry_chars(entries@).take(i as int));
    }
    assert(entry_chars(out@) =~= entry_chars(entries@));
    out
}

/// The value of an event is what the event holds: the value of an event of
/// numbers is the event itself, and that of any other has each of its fields
/// under the same name.
pub proof fn lemma_value_has_every_field(e: TelemetryEvent)
    ensures
        match e {
            TelemetryEvent::CpuSample { timestamp_nanos, worker_id, tid, source, callchain } =>
                e@ matches EventModel::CpuSample {
                    timestamp_nanos: t,
                    worker_id: w,
                    tid: i,
                    source: s,
                    callchain: c,
                } && t == timestamp_nanos && w == worker_id && i == tid && s == source && c
                    == callchain@,
            TelemetryEvent::SpawnLocationDef { id, location } => e@ matches
                EventModel::SpawnLocationDef { id: i, location: l } && i == id && l == location@,
            TelemetryEvent::CallframeDef { address, symbol, location } => e@ matches
                EventModel::CallframeDef { address: a, symbol: s, location: l } && a == address
                && s == symbol@ && (l is Some <==> location is Some) && (location matches Some(t)
                ==> l == Some(t@)),
            TelemetryEvent::ThreadNameDef { tid, name } => e@ matches
                EventModel::ThreadNameDef { tid: i, name: n } && i == tid && n == name@,
            TelemetryEvent::SegmentMetadata { timestamp_nanos, entries } => e@ matches
                EventModel::SegmentMetadata { timestamp_nanos: t, entries: m } && t
                == timestamp_nanos && m.len() == entries@.len() && forall|i: int|
                0 <= i < m.len() ==> (#[trigger] m[i]).0 == entries@[i].0@ && m[i].1
                    == entries@[i].1@,
            _ => e@ == EventModel::Plain(e),
        },
{
}

/// A location reads as its file, its line and its column, in that order and
/// with a colon between them.
pub proof fn lemma_location_reads_file_line_column(at: SpawnLocation)
    ensures
        at.text().len() > at.file@.len(),
        at.text().take(at.file@.len() as int) == at.file@,
        at.text()[at.file@.len() as int] == ':',
        at.text().skip(at.file@.len() as int + 1) == decimal(at.line as nat) + seq![':'] + decimal(
            at.column as nat,
        ),
{
    let t = at.text();
    let n = at.file@.len();
    assert(t.take(n as int) =~= at.file@);
    assert(t.skip(n as int + 1) =~= decimal(at.line as nat) + seq![':'] + decimal(at.column as nat));
}

} // verus!
