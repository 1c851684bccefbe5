//! `ThreadLocalBuffer` is the entrypoint for almost all events.
//!
//! Events are buffered into a fixed-size list (currently 1024 items) before
//! being flushed to the central collector.

use crate::telemetry::codec::{
    decoded, lemma_decode_inverts_encode, record_fields, FieldModel, RecordModel,
};
use crate::telemetry::collector::{Batch, BatchModel, CentralCollector};
use crate::telemetry::events::{
    clone_addresses, InternedString, RawEvent, SpawnLocRef, SpawnLocation,
    TelemetryEvent,
};
use crate::telemetry::format::{
    CpuSampleEvent, PollEndEvent, PollStartEvent, QueueSampleEvent, TaskSpawnEvent,
    TaskTerminateEvent, TelemetryEventRef, WakeEventEvent, WorkerParkEvent, WorkerUnparkEvent,
};
use crate::telemetry::recorder::flush_state::written;
use vstd::prelude::*;

verus! {

/// How many events a buffer takes before it wants to be flushed.
pub const BUFFER_CAPACITY: usize = 1024;

/// The events of one thread that are not flushed yet.
pub struct ThreadLocalBuffer {
    pub events: Vec<RawEvent>,
    pub encoded_bytes: Vec<u8>,
    pub event_count: usize,
}

impl View for ThreadLocalBuffer {
    type V = BatchModel;

    /// What the buffer would flush.
    open spec fn view(&self) -> BatchModel {
        BatchModel {
            raw_events: self.events@,
            encoded_bytes: self.encoded_bytes@,
            event_count: self.event_count as nat,
        }
    }
}

impl BatchModel {
    /// Nothing recorded.
    pub open spec fn nothing() -> BatchModel {
        BatchModel { raw_events: Seq::empty(), encoded_bytes: Seq::empty(), event_count: 0 }
    }

    /// One more event recorded.
    pub open spec fn with_event(self, event: RawEvent) -> BatchModel {
        BatchModel {
            raw_events: self.raw_events.push(event),
            event_count: self.event_count + 1,
            ..self
        }
    }
}

impl Default for ThreadLocalBuffer {
    fn default() -> (b: ThreadLocalBuffer)
        ensures
            b@ == BatchModel::nothing(),
    {
        ThreadLocalBuffer::new()
    }
}

impl ThreadLocalBuffer {
    /// An empty buffer.
    pub fn new() -> (b: ThreadLocalBuffer)
        ensures
            b@ == BatchModel::nothing(),
    {
        let b = ThreadLocalBuffer {
            events: Vec::with_capacity(BUFFER_CAPACITY),
            encoded_bytes: Vec::new(),
            event_count: 0,
        };
        assert(b@ =~= BatchModel::nothing());
        b
    }

    /// Returns true for event types that are encoded by the recording thread.
    /// No type is; events are kept as they were recorded.
    pub fn should_encode(_event: &RawEvent) -> (b: bool)
        ensures
            b == false,
    {
        false
    }

    /// Adds an event to the buffer.
    pub fn record_event(&mut self, event: RawEvent)
        requires
            old(self).event_count < usize::MAX,
        ensures
            final(self)@ == old(self)@.with_event(event),
    {
        self.events.push(event);
        self.event_count = self.event_count + 1;
        assert(self@ =~= old(self)@.with_event(event));
    }

    /// Whether the buffer is full.
    pub fn should_flush(&self) -> (b: bool)
        ensures
            b == (self@.event_count >= BUFFER_CAPACITY),
    {
        self.event_count >= BUFFER_CAPACITY
    }

    /// Whether the buffer holds an event.
    pub fn has_pending_events(&self) -> (b: bool)
        ensures
            b == (self@.event_count > 0),
    {
        self.event_count > 0
    }

    /// Takes everything out of the buffer.
    pub fn flush(&mut self) -> (batch: Batch)
        ensures
            batch@ == old(self)@,
            final(self)@ == BatchModel::nothing(),
    {
        let mut raw_events: Vec<RawEvent> = Vec::with_capacity(BUFFER_CAPACITY);
        std::mem::swap(&mut raw_events, &mut self.events);
        let mut encoded_bytes: Vec<u8> = Vec::new();
        std::mem::swap(&mut encoded_bytes, &mut self.encoded_bytes);
        let event_count: u64 = self.event_count as u64;
        self.event_count = 0;
        assert(self@ =~= BatchModel::nothing());
        Batch { raw_events, encoded_bytes, event_count }
    }
}

/// The string that stands for the name of a thread without one.
pub open spec fn no_thread_name() -> Seq<char> {
    "<no thread name>"@
}

/// Whether `intern` may give the string with the characters `text` the handle
/// `handle`.
pub open spec fn interned_as<F: Fn(String) -> InternedString>(
    intern: F,
    text: Seq<char>,
    handle: InternedString,
) -> bool {
    exists|s: String| s@ == text && #[trigger] call_ensures(intern, (s,), handle)
}

/// The low byte of a queue depth.
pub open spec fn depth_byte(depth: usize) -> u8 {
    (depth as int % 256) as u8
}

fn low_byte(depth: usize) -> (b: u8)
    ensures
        b == depth_byte(depth),
{
    (depth % 256) as u8
}

/// Whether an event has a record of its own. Definitions of symbols and thread
/// names do not: a record refers to strings by handle.
pub open spec fn has_record(event: RawEvent) -> bool {
    !(event is CallframeDef) && !(event is ThreadNameDef)
}

/// Whether `record` is the record of `event`: the same numbers, queue depths
/// cut to a byte, and handles that `intern` gave the event's strings.
pub open spec fn encodes<F: Fn(String) -> InternedString>(
    event: RawEvent,
    record: TelemetryEventRef,
    intern: F,
) -> bool {
    match event {
        RawEvent::PollStart {
            timestamp_nanos,
            worker_id,
            worker_local_queue_depth,
            task_id,
            location,
        } => record matches TelemetryEventRef::PollStart(e) && {
            &&& e.timestamp_ns == timestamp_nanos
            &&& e.worker_id == worker_id
            &&& e.local_queue == depth_byte(worker_local_queue_depth)
            &&& e.task_id == task_id
            &&& interned_as(intern, location.text(), e.spawn_loc)
        },
        RawEvent::PollEnd { timestamp_nanos, worker_id } => record == TelemetryEventRef::PollEnd(
            PollEndEvent { timestamp_ns: timestamp_nanos, worker_id },
        ),
        RawEvent::WorkerPark {
            timestamp_nanos,
            worker_id,
            worker_local_queue_depth,
            cpu_time_nanos,
        } => record == TelemetryEventRef::WorkerPark(
            WorkerParkEvent {
                timestamp_ns: timestamp_nanos,
                worker_id,
                local_queue: depth_byte(worker_local_queue_depth),
                cpu_time_ns: cpu_time_nanos,
            },
        ),
        RawEvent::WorkerUnpark {
            timestamp_nanos,
            worker_id,
            worker_local_queue_depth,
            cpu_time_nanos,
            sched_wait_delta_nanos,
        } => record == TelemetryEventRef::WorkerUnpark(
            WorkerUnparkEvent {
                timestamp_ns: timestamp_nanos,
                worker_id,
                local_queue: depth_byte(worker_local_queue_depth),
                cpu_time_ns: cpu_time_nanos,
                sched_wait_ns: sched_wait_delta_nanos,
            },
        ),
        RawEvent::QueueSample { timestamp_nanos, global_queue_depth } => record
            == TelemetryEventRef::QueueSample(
            QueueSampleEvent {
                timestamp_ns: timestamp_nanos,
                global_queue: depth_byte(global_queue_depth),
            },
        ),
        RawEvent::TaskSpawn { timestamp_nanos, task_id, location } => record matches
            TelemetryEventRef::TaskSpawn(e) && {
            &&& e.timestamp_ns == timestamp_nanos
            &&& e.task_id == task_id
            &&& interned_as(intern, location.text(), e.spawn_loc)
        },
        RawEvent::TaskTerminate { timestamp_nanos, task_id } => record
            == TelemetryEventRef::TaskTerminate(
            TaskTerminateEvent { timestamp_ns: timestamp_nanos, task_id },
        ),
        RawEvent::WakeEvent { timestamp_nanos, waker_task_id, woken_task_id, target_worker } =>
            record == TelemetryEventRef::WakeEvent(
                WakeEventEvent {
                    timestamp_ns: timestamp_nanos,
                    waker_task_id,
                    woken_task_id,
                    target_worker,
                },
            ),
        RawEvent::CpuSample(data) => record matches TelemetryEventRef::CpuSample(e) && {
            &&& e.timestamp_ns == data.timestamp_nanos
            &&& e.worker_id == data.worker_id
            &&& e.tid == data.tid
            &&& e.source == data.source
            &&& e.callchain@ == data.callchain@
            &&& interned_as(
                intern,
                match data.thread_name {
                    Some(name) => name@,
                    None => no_thread_name(),
                },
                e.thread_name,
            )
        },
        _ => false,
    }
}

/// Interns a spawn location by its text.
fn intern_location<F: Fn(String) -> InternedString>(location: &SpawnLocation, intern: &F) -> (handle:
    InternedString)
    requires
        forall|s: String| call_requires(*intern, (s,)),
    ensures
        interned_as(*intern, location.text(), handle),
{
    let text = location.describe();
    let ghost given = text;
    let handle = intern(text);
    assert(call_ensures(*intern, (given,), handle));
    handle
}

/// The record of an event. `intern` gives a string its handle in the string
/// pool of the trace.
pub fn encode_event<F: Fn(String) -> InternedString>(event: &RawEvent, intern: &F) -> (record:
    TelemetryEventRef)
    requires
        has_record(*event),
        forall|s: String| call_requires(*intern, (s,)),
    ensures
        encodes(*event, record, *intern),
{
    match event {
        RawEvent::PollStart {
            timestamp_nanos,
            worker_id,
            worker_local_queue_depth,
            task_id,
            location,
        } => TelemetryEventRef::PollStart(
            PollStartEvent {
                timestamp_ns: *timestamp_nanos,
                worker_id: *worker_id,
                local_queue: low_byte(*worker_local_queue_depth),
                task_id: *task_id,
                spawn_loc: intern_location(location, intern),
            },
        ),
        RawEvent::PollEnd { timestamp_nanos, worker_id } => TelemetryEventRef::PollEnd(
            PollEndEvent { timestamp_ns: *timestamp_nanos, worker_id: *worker_id },
        ),
        RawEvent::WorkerPark {
            timestamp_nanos,
            worker_id,
            worker_local_queue_depth,
            cpu_time_nanos,
        } => TelemetryEventRef::WorkerPark(
            WorkerParkEvent {
                timestamp_ns: *timestamp_nanos,
                worker_id: *worker_id,
                local_queue: low_byte(*worker_local_queue_depth),
                cpu_time_ns: *cpu_time_nanos,
            },
        ),
        RawEvent::WorkerUnpark {
            timestamp_nanos,
            worker_id,
            worker_local_queue_depth,
            cpu_time_nanos,
            sched_wait_delta_nanos,
        } => TelemetryEventRef::WorkerUnpark(
            WorkerUnparkEvent {
                timestamp_ns: *timestamp_nanos,
                worker_id: *worker_id,
                local_queue: low_byte(*worker_local_queue_depth),
                cpu_time_ns: *cpu_time_nanos,
                sched_wait_ns: *sched_wait_delta_nanos,
            },
        ),
        RawEvent::QueueSample { timestamp_nanos, global_queue_depth } =>
            TelemetryEventRef::QueueSample(
                QueueSampleEvent {
                    timestamp_ns: *timestamp_nanos,
                    global_queue: low_byte(*global_queue_depth),
                },
            ),
        RawEvent::TaskSpawn { timestamp_nanos, task_id, location } => TelemetryEventRef::TaskSpawn(
            TaskSpawnEvent {
                timestamp_ns: *timestamp_nanos,
                task_id: *task_id,
                spawn_loc: intern_location(location, intern),
            },
        ),
        RawEvent::TaskTerminate { timestamp_nanos, task_id } => TelemetryEventRef::TaskTerminate(
            TaskTerminateEvent { timestamp_ns: *timestamp_nanos, task_id: *task_id },
        ),
        RawEvent::WakeEvent { timestamp_nanos, waker_task_id, woken_task_id, target_worker } =>
            TelemetryEventRef::WakeEvent(
                WakeEventEvent {
                    timestamp_ns: *timestamp_nanos,
                    waker_task_id: *waker_task_id,
                    woken_task_id: *woken_task_id,
                    target_worker: *target_worker,
                },
            ),
        RawEvent::CpuSample(data) => {
            let name = match &data.thread_name {
                Some(name) => name.clone(),
                None => "<no thread name>".to_string(),
            };
            let ghost given = name;
            let thread_name = intern(name);
            assert(call_ensures(*intern, (given,), thread_name));
            TelemetryEventRef::CpuSample(
                CpuSampleEvent {
                    timestamp_ns: data.timestamp_nanos,
                    worker_id: data.worker_id,
                    tid: data.tid,
                    source: data.source,
                    thread_name,
                    callchain: clone_addresses(&data.callchain),
                },
            )
        },
        _ => vstd::pervasive::unreached(),
    }
}

/// The queue depth of an event fits in a byte.
pub open spec fn depth_fits(event: RawEvent) -> bool {
    match event {
        RawEvent::PollStart { worker_local_queue_depth, .. } => worker_local_queue_depth < 256,
        RawEvent::WorkerPark { worker_local_queue_depth, .. } => worker_local_queue_depth < 256,
        RawEvent::WorkerUnpark { worker_local_queue_depth, .. } => worker_local_queue_depth < 256,
        RawEvent::QueueSample { global_queue_depth, .. } => global_queue_depth < 256,
        _ => true,
    }
}

/// The way into a trace and back keeps an event: converting the record of an
/// event gives the event's written form, with a pool handle in place of a
/// location id, as long as its queue depth fits in the byte of the record.
pub proof fn lemma_record_converts_to_event<F: Fn(String) -> InternedString>(
    event: RawEvent,
    record: TelemetryEventRef,
    intern: F,
    converted: TelemetryEvent,
)
    requires
        has_record(event),
        depth_fits(event),
        encodes(event, record, intern),
        converted == <TelemetryEvent as vstd::std_specs::convert::FromSpec<
            TelemetryEventRef,
        >>::from_spec(record),
    ensures
        match event {
            RawEvent::PollStart {
                timestamp_nanos,
                worker_id,
                worker_local_queue_depth,
                task_id,
                location,
            } => converted matches TelemetryEvent::PollStart {
                timestamp_nanos: t,
                worker_id: w,
                worker_local_queue_depth: d,
                task_id: i,
                spawn_loc: SpawnLocRef::Interned(handle),
            } && t == timestamp_nanos && w == worker_id && d == worker_local_queue_depth && i
                == task_id && interned_as(intern, location.text(), handle),
            RawEvent::TaskSpawn { timestamp_nanos, task_id, location } => converted matches
                TelemetryEvent::TaskSpawn {
                timestamp_nanos: t,
                task_id: i,
                spawn_loc: SpawnLocRef::Interned(handle),
            } && t == timestamp_nanos && i == task_id && interned_as(
                intern,
                location.text(),
                handle,
            ),
            _ => converted@ == written(event, 0),
        },
{
}

/// What the trace encoder is handed for a record: its schema name, its timestamp
/// and its field values.
pub struct EncodedModel {
    pub name: Seq<char>,
    pub timestamp_ns: u64,
    pub fields: Seq<FieldModel>,
}

/// What the trace encoder is handed for `record`.
pub open spec fn handed_over(record: TelemetryEventRef) -> EncodedModel {
    EncodedModel {
        name: record.name(),
        timestamp_ns: record.timestamp(),
        fields: record_fields(record),
    }
}

/// What is decoded of what the encoder was handed, one after the other.
pub open spec fn decoded_all(log: Seq<EncodedModel>) -> Seq<Option<RecordModel>> {
    log.map_values(|e: EncodedModel| decoded(e.name, Some(e.timestamp_ns), e.fields))
}

/// Whether `record` holds what `event` does, its strings by handles that `pool`
/// resolves.
pub open spec fn holds_event(
    record: RecordModel,
    event: RawEvent,
    pool: spec_fn(InternedString) -> Seq<char>,
) -> bool {
    match event {
        RawEvent::PollStart {
            timestamp_nanos,
            worker_id,
            worker_local_queue_depth,
            task_id,
            location,
        } => record matches RecordModel::Plain(TelemetryEventRef::PollStart(e)) && {
            &&& e.timestamp_ns == timestamp_nanos
            &&& e.worker_id == worker_id
            &&& e.local_queue == worker_local_queue_depth
            &&& e.task_id == task_id
            &&& pool(e.spawn_loc) == location.text()
        },
        RawEvent::PollEnd { timestamp_nanos, worker_id } => record == RecordModel::Plain(
            TelemetryEventRef::PollEnd(PollEndEvent { timestamp_ns: timestamp_nanos, worker_id }),
        ),
        RawEvent::WorkerPark {
            timestamp_nanos,
            worker_id,
            worker_local_queue_depth,
            cpu_time_nanos,
        } => record matches RecordModel::Plain(TelemetryEventRef::WorkerPark(e)) && {
            &&& e.timestamp_ns == timestamp_nanos
            &&& e.worker_id == worker_id
            &&& e.local_queue == worker_local_queue_depth
            &&& e.cpu_time_ns == cpu_time_nanos
        },
        RawEvent::WorkerUnpark {
            timestamp_nanos,
            worker_id,
            worker_local_queue_depth,
            cpu_time_nanos,
            sched_wait_delta_nanos,
        } => record matches RecordModel::Plain(TelemetryEventRef::WorkerUnpark(e)) && {
            &&& e.timestamp_ns == timestamp_nanos
            &&& e.worker_id == worker_id
            &&& e.local_queue == worker_local_queue_depth
            &&& e.cpu_time_ns == cpu_time_nanos
            &&& e.sched_wait_ns == sched_wait_delta_nanos
        },
        RawEvent::QueueSample { timestamp_nanos, global_queue_depth } => record matches
            RecordModel::Plain(TelemetryEventRef::QueueSample(e)) && {
            &&& e.timestamp_ns == timestamp_nanos
            &&& e.global_queue == global_queue_depth
        },
        RawEvent::TaskSpawn { timestamp_nanos, task_id, location } => record matches
            RecordModel::Plain(TelemetryEventRef::TaskSpawn(e)) && {
            &&& e.timestamp_ns == timestamp_nanos
            &&& e.task_id == task_id
            &&& pool(e.spawn_loc) == location.text()
        },
        RawEvent::TaskTerminate { timestamp_nanos, task_id } => record == RecordModel::Plain(
            TelemetryEventRef::TaskTerminate(
                TaskTerminateEvent { timestamp_ns: timestamp_nanos, task_id },
            ),
        ),
        RawEvent::WakeEvent { timestamp_nanos, waker_task_id, woken_task_id, target_worker } =>
            record == RecordModel::Plain(
                TelemetryEventRef::WakeEvent(
                    WakeEventEvent {
                        timestamp_ns: timestamp_nanos,
                        waker_task_id,
                        woken_task_id,
                        target_worker,
                    },
                ),
            ),
        RawEvent::CpuSample(data) => record matches RecordModel::CpuSample {
            timestamp_ns,
            worker_id,
            tid,
            source,
            thread_name,
            callchain,
        } && {
            &&& timestamp_ns == data.timestamp_nanos
            &&& worker_id == data.worker_id
            &&& tid == data.tid
            &&& source == data.source
            &&& callchain == data.callchain@
            &&& pool(thread_name) == (match data.thread_name {
                Some(name) => name@,
                None => no_thread_name(),
            })
        },
        _ => false,
    }
}

/// What is encoded is read back: decoding what the trace encoder was handed up to
/// the record of an event gives what was decoded before and one record more, and
/// that one holds the event, as long as its queue depth fits in a byte. `pool`
/// resolves every handle to the string that `intern` gave it for.
pub proof fn lemma_encoded_event_reads_back<F: Fn(String) -> InternedString>(
    log: Seq<EncodedModel>,
    event: RawEvent,
    record: TelemetryEventRef,
    intern: F,
    pool: spec_fn(InternedString) -> Seq<char>,
)
    requires
        has_record(event),
        depth_fits(event),
        encodes(event, record, intern),
        forall|s: String, handle: InternedString| #[trigger]
            call_ensures(intern, (s,), handle) ==> pool(handle) == s@,
    ensures
        decoded_all(log.push(handed_over(record))) == decoded_all(log).push(Some(record@)),
        holds_event(record@, event, pool),
{
    lemma_decode_inverts_encode(record);
    assert(decoded_all(log.push(handed_over(record))) =~= decoded_all(log).push(Some(record@)));
}

/// Record an event into a thread's buffer. If the buffer is full, the batch is
/// flushed to `collector`.
pub fn record_event(
    buffer: &mut ThreadLocalBuffer,
    event: RawEvent,
    collector: &mut CentralCollector,
)
    requires
        old(collector)@.wf(),
        old(buffer).event_count < usize::MAX,
    ensures
        final(collector)@.wf(),
        ({
            let recorded = old(buffer)@.with_event(event);
            if recorded.event_count >= BUFFER_CAPACITY {
                &&& final(buffer)@ == BatchModel::nothing()
                &&& final(collector)@ == old(collector)@.with(recorded)
            } else {
                &&& final(buffer)@ == recorded
                &&& final(collector)@ == old(collector)@
            }
        }),
{
    buffer.record_event(event);
    if buffer.should_flush() {
        let batch = buffer.flush();
        collector.accept_flush(batch);
    }
}

/// Drain a thread's buffer into `collector`, even if not full. Used at
/// shutdown, at thread exit and before flush cycles to avoid losing events.
pub fn drain_to_collector(buffer: &mut ThreadLocalBuffer, collector: &mut CentralCollector)
    requires
        old(collector)@.wf(),
    ensures
        final(collector)@.wf(),
        old(buffer)@.event_count == 0 ==> *final(buffer) == *old(buffer) && final(collector)@
            == old(collector)@,
        old(buffer)@.event_count > 0 ==> final(buffer)@ == BatchModel::nothing(),
        old(buffer)@.event_count > 0 ==> final(collector)@ == old(collector)@.with(old(buffer)@),
{
    if buffer.event_count > 0 {
        let batch = buffer.flush();
        collector.accept_flush(batch);
    }
}

/// The record of an event is of the same kind and has each of the event's
/// fields under its own name. A queue depth is kept modulo the range of a byte.
/// A location and the name of a thread are kept as handles: of the location's
/// text, and of the name or, where there is none, of a fixed text.
pub proof fn lemma_record_has_every_field<F: Fn(String) -> InternedString>(
    event: RawEvent,
    record: TelemetryEventRef,
    intern: F,
)
    requires
        encodes(event, record, intern),
    ensures
        match (event, record) {
            (
                RawEvent::PollStart {
                    timestamp_nanos,
                    worker_id,
                    worker_local_queue_depth,
                    task_id,
                    location,
                },
                TelemetryEventRef::PollStart(e),
            ) => e.timestamp_ns == timestamp_nanos && e.worker_id == worker_id
                && e.local_queue as int == worker_local_queue_depth as int % 256 && e.task_id
                == task_id && exists|s: String|
                s@ == location.text() && #[trigger] call_ensures(intern, (s,), e.spawn_loc),
            (
                RawEvent::PollEnd { timestamp_nanos, worker_id },
                TelemetryEventRef::PollEnd(e),
            ) => e.timestamp_ns == timestamp_nanos && e.worker_id == worker_id,
            (
                RawEvent::WorkerPark {
                    timestamp_nanos,
                    worker_id,
                    worker_local_queue_depth,
                    cpu_time_nanos,
                },
                TelemetryEventRef::WorkerPark(e),
            ) => e.timestamp_ns == timestamp_nanos && e.worker_id == worker_id
                && e.local_queue as int == worker_local_queue_depth as int % 256 && e.cpu_time_ns
                == cpu_time_nanos,
            (
                RawEvent::WorkerUnpark {
                    timestamp_nanos,
                    worker_id,
                    worker_local_queue_depth,
                    cpu_time_nanos,
                    sched_wait_delta_nanos,
                },
                TelemetryEventRef::WorkerUnpark(e),
            ) => e.timestamp_ns == timestamp_nanos && e.worker_id == worker_id
                && e.local_queue as int == worker_local_queue_depth as int % 256 && e.cpu_time_ns
                == cpu_time_nanos && e.sched_wait_ns == sched_wait_delta_nanos,
            (
                RawEvent::QueueSample { timestamp_nanos, global_queue_depth },
                TelemetryEventRef::QueueSample(e),
            ) => e.timestamp_ns == timestamp_nanos && e.global_queue as int
                == global_queue_depth as int % 256,
            (
                RawEvent::TaskSpawn { timestamp_nanos, task_id, location },
                TelemetryEventRef::TaskSpawn(e),
            ) => e.timestamp_ns == timestamp_nanos && e.task_id == task_id && exists|s: String|
                s@ == location.text() && #[trigger] call_ensures(intern, (s,), e.spawn_loc),
            (
                RawEvent::TaskTerminate { timestamp_nanos, task_id },
                TelemetryEventRef::TaskTerminate(e),
            ) => e.timestamp_ns == timestamp_nanos && e.task_id == task_id,
            (
                RawEvent::WakeEvent {
                    timestamp_nanos,
                    waker_task_id,
                    woken_task_id,
                    target_worker,
                },
                TelemetryEventRef::WakeEvent(e),
            ) => e.timestamp_ns == timestamp_nanos && e.waker_task_id == waker_task_id
                && e.woken_task_id == woken_task_id && e.target_worker == target_worker,
            (RawEvent::CpuSample(data), TelemetryEventRef::CpuSample(e)) => e.timestamp_ns
                == data.timestamp_nanos && e.worker_id == data.worker_id && e.tid == data.tid
                && e.source == data.source && e.callchain@ == data.callchain@ && exists|s: String|
                (data.thread_name matches Some(name) ==> s@ == name@) && (data.thread_name is None
                    ==> s@ == "<no thread name>"@) && #[trigger] call_ensures(
                    intern,
                    (s,),
                    e.thread_name,
                ),
            _ => false,
        },
{
    match event {
        RawEvent::CpuSample(data) => {
            let text = match data.thread_name {
                Some(name) => name@,
                None => no_thread_name(),
            };
            let handle = record->CpuSample_0.thread_name;
            let s = choose|s: String| s@ == text && #[trigger] call_ensures(intern, (s,), handle);
            assert(call_ensures(intern, (s,), handle));
        },
        _ => {},
    }
}

/// A buffer takes an event behind those it holds and counts it; an empty buffer
/// holds none. A buffer is full with its last place taken.
pub proof fn lemma_buffer_keeps_events_in_order(held: BatchModel, event: RawEvent)
    ensures
        BatchModel::nothing().raw_events.len() == 0,
        BatchModel::nothing().event_count == 0,
        held.with_event(event).raw_events == held.raw_events.push(event),
        held.with_event(event).event_count == held.event_count + 1,
        held.with_event(event).encoded_bytes == held.encoded_bytes,
        BUFFER_CAPACITY == 1024,
{
}

/// What the trace encoder is handed for a record: the name of its type, its own
/// timestamp, and its fields in the order of its type.
pub proof fn lemma_record_is_handed_over_whole(record: TelemetryEventRef)
    ensures
        handed_over(record).name == record.name(),
        handed_over(record).timestamp_ns == record.timestamp(),
        handed_over(record).fields == record_fields(record),
{
}

/// The value of a buffer is what it holds.
pub proof fn lemma_value_of_a_buffer(b: ThreadLocalBuffer)
    ensures
        b@.raw_events == b.events@,
        b@.encoded_bytes == b.encoded_bytes@,
        b@.event_count == b.event_count,
{
}

} // verus!
