//! Records as lists of field values: what is handed to the trace encoder, and
//! how a decoded list becomes a record again.

use crate::telemetry::events::{
    clone_addresses, clone_entries, entry_chars, CpuSampleSource, InternedString,
};
use crate::telemetry::format::{
    CpuSampleEvent, PollEndEvent, PollStartEvent, QueueSampleEvent, SegmentMetadataEvent,
    TaskSpawnEvent, TaskTerminateEvent, TelemetryEventRef, WakeEventEvent, WorkerId,
    WorkerParkEvent, WorkerUnparkEvent,
};
use crate::telemetry::task_metadata::TaskId;
use crate::text::same_text;
use vstd::prelude::*;

verus! {

/// The value of one field of a record.
#[derive(Debug, Clone)]
pub enum FieldValue {
    Varint(u64),
    PooledString(InternedString),
    StackFrames(Vec<u64>),
    StringMap(Vec<(String, String)>),
}

/// The type of a field on the wire.
#[derive(Debug, Clone, Copy, PartialEq, Eq, Structural)]
pub enum FieldType {
    Varint,
    U8,
    PooledString,
    StackFrames,
    StringMap,
}

/// The value of a [`FieldValue`].
pub enum FieldModel {
    Varint(u64),
    PooledString(InternedString),
    StackFrames(Seq<u64>),
    StringMap(Seq<(Seq<char>, Seq<char>)>),
}

impl View for FieldValue {
    type V = FieldModel;

    open spec fn view(&self) -> FieldModel {
        match *self {
            FieldValue::Varint(v) => FieldModel::Varint(v),
            FieldValue::PooledString(s) => FieldModel::PooledString(s),
            FieldValue::StackFrames(v) => FieldModel::StackFrames(v@),
            FieldValue::StringMap(v) => FieldModel::StringMap(entry_chars(v@)),
        }
    }
}

/// The value of each field of a sequence.
pub open spec fn field_models(fields: Seq<FieldValue>) -> Seq<FieldModel> {
    fields.map_values(|f: FieldValue| f@)
}

/// The value of a [`TelemetryEventRef`].
pub enum RecordModel {
    /// A record that holds nothing but numbers.
    Plain(TelemetryEventRef),
    CpuSample {
        timestamp_ns: u64,
        worker_id: WorkerId,
        tid: u32,
        source: CpuSampleSource,
        thread_name: InternedString,
        callchain: Seq<u64>,
    },
    SegmentMetadata { timestamp_ns: u64, entries: Seq<(Seq<char>, Seq<char>)> },
}

impl View for TelemetryEventRef {
    type V = RecordModel;

    open spec fn view(&self) -> RecordModel {
        match *self {
            TelemetryEventRef::CpuSample(e) => RecordModel::CpuSample {
                timestamp_ns: e.timestamp_ns,
                worker_id: e.worker_id,
                tid: e.tid,
                source: e.source,
                thread_name: e.thread_name,
                callchain: e.callchain@,
            },
            TelemetryEventRef::SegmentMetadata(e) => RecordModel::SegmentMetadata {
                timestamp_ns: e.timestamp_ns,
                entries: entry_chars(e.entries@),
            },
            other => RecordModel::Plain(other),
        }
    }
}

/// The value of an optional record.
pub open spec fn opt_record(r: Option<TelemetryEventRef>) -> Option<RecordModel> {
    match r {
        Some(e) => Some(e@),
        None => None,
    }
}

/// The low byte of `v`.
pub open spec fn low_u8(v: u64) -> u8 {
    (v % 256) as u8
}

/// The low 32 bits of `v`.
pub open spec fn low_u32(v: u64) -> u32 {
    (v % 0x1_0000_0000) as u32
}

fn take_u8(v: u64) -> (b: u8)
    ensures
        b == low_u8(v),
{
    (v % 256) as u8
}

fn take_u32(v: u64) -> (n: u32)
    ensures
        n == low_u32(v),
{
    (v % 0x1_0000_0000) as u32
}

/// The number of a sample source on the wire.
pub open spec fn source_code(source: CpuSampleSource) -> u8 {
    match source {
        CpuSampleSource::CpuProfile => 0,
        CpuSampleSource::SchedEvent => 1,
    }
}

/// The sample source of a number; unknown numbers count as CPU samples.
pub open spec fn source_from(v: u8) -> CpuSampleSource {
    if v == 1 {
        CpuSampleSource::SchedEvent
    } else {
        CpuSampleSource::CpuProfile
    }
}

fn write_source(source: CpuSampleSource) -> (v: u8)
    ensures
        v == source_code(source),
{
    match source {
        CpuSampleSource::CpuProfile => 0,
        CpuSampleSource::SchedEvent => 1,
    }
}

fn read_source(v: u8) -> (source: CpuSampleSource)
    ensures
        source == source_from(v),
{
    if v == 1 {
        CpuSampleSource::SchedEvent
    } else {
        CpuSampleSource::CpuProfile
    }
}

/// The task id with the number `v`.
pub open spec fn task_from(v: u64) -> TaskId {
    TaskId::spec_from(v)
}

/// The number in field `i`.
pub open spec fn varint_at(fields: Seq<FieldModel>, i: int) -> Option<u64> {
    if i < fields.len() && fields[i] is Varint {
        Some(fields[i]->Varint_0)
    } else {
        None
    }
}

/// The string handle in field `i`.
pub open spec fn pooled_at(fields: Seq<FieldModel>, i: int) -> Option<InternedString> {
    if i < fields.len() && fields[i] is PooledString {
        Some(fields[i]->PooledString_0)
    } else {
        None
    }
}

/// The addresses in field `i`.
pub open spec fn frames_at(fields: Seq<FieldModel>, i: int) -> Option<Seq<u64>> {
    if i < fields.len() && fields[i] is StackFrames {
        Some(fields[i]->StackFrames_0)
    } else {
        None
    }
}

/// The keys and values in field `i`.
pub open spec fn entries_at(fields: Seq<FieldModel>, i: int) -> Option<
    Seq<(Seq<char>, Seq<char>)>,
> {
    if i < fields.len() && fields[i] is StringMap {
        Some(fields[i]->StringMap_0)
    } else {
        None
    }
}

fn get_varint(fields: &Vec<FieldValue>, i: usize) -> (v: Option<u64>)
    ensures
        v == varint_at(field_models(fields@), i as int),
{
    if i < fields.len() {
        assert(field_models(fields@)[i as int] == fields@[i as int]@);
        if let FieldValue::Varint(v) = &fields[i] {
            return Some(*v);
        }
    }
    None
}

fn get_pooled(fields: &Vec<FieldValue>, i: usize) -> (v: Option<InternedString>)
    ensures
        v == pooled_at(field_models(fields@), i as int),
{
    if i < fields.len() {
        assert(field_models(fields@)[i as int] == fields@[i as int]@);
        if let FieldValue::PooledString(v) = &fields[i] {
            return Some(*v);
        }
    }
    None
}

fn get_frames(fields: &Vec<FieldValue>, i: usize) -> (v: Option<Vec<u64>>)
    ensures
        v is Some <==> frames_at(field_models(fields@), i as int) is Some,
        v matches Some(f) ==> Some(f@) == frames_at(field_models(fields@), i as int),
{
    if i < fields.len() {
        assert(field_models(fields@)[i as int] == fields@[i as int]@);
        if let FieldValue::StackFrames(v) = &fields[i] {
            return Some(clone_addresses(v));
        }
    }
    None
}

fn get_entries(fields: &Vec<FieldValue>, i: usize) -> (v: Option<Vec<(String, String)>>)
    ensures
        v is Some <==> entries_at(field_models(fields@), i as int) is Some,
        v matches Some(f) ==> Some(entry_chars(f@)) == entries_at(field_models(fields@), i as int),
{
    if i < fields.len() {
        assert(field_models(fields@)[i as int] == fields@[i as int]@);
        if let FieldValue::StringMap(v) = &fields[i] {
            return Some(clone_entries(v));
        }
    }
    None
}

/// The `PollStartEvent` record of a timestamp and field values.
pub open spec fn decoded_poll_start(
    timestamp_ns: Option<u64>,
    fields: Seq<FieldModel>,
) -> Option<RecordModel> {
    match (
        timestamp_ns,
        varint_at(fields, 0),
        varint_at(fields, 1),
        varint_at(fields, 2),
        pooled_at(fields, 3),
    ) {
        (Some(t), Some(f0), Some(f1), Some(f2), Some(f3)) => Some(
            RecordModel::Plain(
                TelemetryEventRef::PollStart(
                    PollStartEvent {
                        timestamp_ns: t,
                        worker_id: WorkerId(f0),
                        local_queue: low_u8(f1),
                        task_id: task_from(f2),
                        spawn_loc: f3,
                    },
                ),
            ),
        ),
        _ => None,
    }
}

/// The `PollEndEvent` record of a timestamp and field values.
pub open spec fn decoded_poll_end(
    timestamp_ns: Option<u64>,
    fields: Seq<FieldModel>,
) -> Option<RecordModel> {
    match (timestamp_ns, varint_at(fields, 0)) {
        (Some(t), Some(f0)) => Some(
            RecordModel::Plain(
                TelemetryEventRef::PollEnd(
                    PollEndEvent {
                        timestamp_ns: t,
                        worker_id: WorkerId(f0),
                    },
                ),
            ),
        ),
        _ => None,
    }
}

/// The `WorkerParkEvent` record of a timestamp and field values.
pub open spec fn decoded_worker_park(
    timestamp_ns: Option<u64>,
    fields: Seq<FieldModel>,
) -> Option<RecordModel> {
    match (timestamp_ns, varint_at(fields, 0), varint_at(fields, 1), varint_at(fields, 2)) {
        (Some(t), Some(f0), Some(f1), Some(f2)) => Some(
            RecordModel::Plain(
                TelemetryEventRef::WorkerPark(
                    WorkerParkEvent {
                        timestamp_ns: t,
                        worker_id: WorkerId(f0),
                        local_queue: low_u8(f1),
                        cpu_time_ns: f2,
                    },
                ),
            ),
        ),
        _ => None,
    }
}

/// The `WorkerUnparkEvent` record of a timestamp and field values.
pub open spec fn decoded_worker_unpark(
    timestamp_ns: Option<u64>,
    fields: Seq<FieldModel>,
) -> Option<RecordModel> {
    match (
        timestamp_ns,
        varint_at(fields, 0),
        varint_at(fields, 1),
        varint_at(fields, 2),
        varint_at(fields, 3),
    ) {
        (Some(t), Some(f0), Some(f1), Some(f2), Some(f3)) => Some(
            RecordModel::Plain(
                TelemetryEventRef::WorkerUnpark(
                    WorkerUnparkEvent {
                        timestamp_ns: t,
                        worker_id: WorkerId(f0),
                        local_queue: low_u8(f1),
                        cpu_time_ns: f2,
                        sched_wait_ns: f3,
                    },
                ),
            ),
        ),
        _ => None,
    }
}

/// The `QueueSampleEvent` record of a timestamp and field values.
pub open spec fn decoded_queue_sample(
    timestamp_ns: Option<u64>,
    fields: Seq<FieldModel>,
) -> Option<RecordModel> {
    match (timestamp_ns, varint_at(fields, 0)) {
        (Some(t), Some(f0)) => Some(
            RecordModel::Plain(
                TelemetryEventRef::QueueSample(
                    QueueSampleEvent {
                        timestamp_ns: t,
                        global_queue: low_u8(f0),
                    },
                ),
            ),
        ),
        _ => None,
    }
}

/// The `TaskSpawnEvent` record of a timestamp and field values.
pub open spec fn decoded_task_spawn(
    timestamp_ns: Option<u64>,
    fields: Seq<FieldModel>,
) -> Option<RecordModel> {
    match (timestamp_ns, varint_at(fields, 0), pooled_at(fields, 1)) {
        (Some(t), Some(f0), Some(f1)) => Some(
            RecordModel::Plain(
                TelemetryEventRef::TaskSpawn(
                    TaskSpawnEvent {
                        timestamp_ns: t,
                        task_id: task_from(f0),
                        spawn_loc: f1,
                    },
                ),
            ),
        ),
        _ => None,
    }
}

/// The `TaskTerminateEvent` record of a timestamp and field values.
pub open spec fn decoded_task_terminate(
    timestamp_ns: Option<u64>,
    fields: Seq<FieldModel>,
) -> Option<RecordModel> {
    match (timestamp_ns, varint_at(fields, 0)) {
        (Some(t), Some(f0)) => Some(
            RecordModel::Plain(
                TelemetryEventRef::TaskTerminate(
                    TaskTerminateEvent {
                        timestamp_ns: t,
                        task_id: task_from(f0),
                    },
                ),
            ),
        ),
        _ => None,
    }
}

/// The `CpuSampleEvent` record of a timestamp and field values.
pub open spec fn decoded_cpu_sample(
    timestamp_ns: Option<u64>,
    fields: Seq<FieldModel>,
) -> Option<RecordModel> {
    match (
        timestamp_ns,
        varint_at(fields, 0),
        varint_at(fields, 1),
        varint_at(fields, 2),
        pooled_at(fields, 3),
        frames_at(fields, 4),
    ) {
        (Some(t), Some(f0), Some(f1), Some(f2), Some(f3), Some(f4)) => Some(
            RecordModel::CpuSample {
                timestamp_ns: t,
                worker_id: WorkerId(f0),
                tid: low_u32(f1),
                source: source_from(low_u8(f2)),
                thread_name: f3,
                callchain: f4,
            },
        ),
        _ => None,
    }
}

/// The `WakeEventEvent` record of a timestamp and field values.
pub open spec fn decoded_wake_event(
    timestamp_ns: Option<u64>,
    fields: Seq<FieldModel>,
) -> Option<RecordModel> {
    match (timestamp_ns, varint_at(fields, 0), varint_at(fields, 1), varint_at(fields, 2)) {
        (Some(t), Some(f0), Some(f1), Some(f2)) => Some(
            RecordModel::Plain(
                TelemetryEventRef::WakeEvent(
                    WakeEventEvent {
                        timestamp_ns: t,
                        waker_task_id: task_from(f0),
                        woken_task_id: task_from(f1),
                        target_worker: low_u8(f2),
                    },
                ),
            ),
        ),
        _ => None,
    }
}

/// The `SegmentMetadataEvent` record of a timestamp and field values.
pub open spec fn decoded_segment_metadata(
    timestamp_ns: Option<u64>,
    fields: Seq<FieldModel>,
) -> Option<RecordModel> {
    match (timestamp_ns, entries_at(fields, 0)) {
        (Some(t), Some(f0)) => Some(RecordModel::SegmentMetadata { timestamp_ns: t, entries: f0 }),
        _ => None,
    }
}

/// The record with the schema name `name`, if the name is known and the fields
/// are of its types.
pub open spec fn decoded(
    name: Seq<char>,
    timestamp_ns: Option<u64>,
    fields: Seq<FieldModel>,
) -> Option<RecordModel> {
    if name == "PollStartEvent"@ {
        decoded_poll_start(timestamp_ns, fields)
    } else if name == "PollEndEvent"@ {
        decoded_poll_end(timestamp_ns, fields)
    } else if name == "WorkerParkEvent"@ {
        decoded_worker_park(timestamp_ns, fields)
    } else if name == "WorkerUnparkEvent"@ {
        decoded_worker_unpark(timestamp_ns, fields)
    } else if name == "QueueSampleEvent"@ {
        decoded_queue_sample(timestamp_ns, fields)
    } else if name == "TaskSpawnEvent"@ {
        decoded_task_spawn(timestamp_ns, fields)
    } else if name == "TaskTerminateEvent"@ {
        decoded_task_terminate(timestamp_ns, fields)
    } else if name == "CpuSampleEvent"@ {
        decoded_cpu_sample(timestamp_ns, fields)
    } else if name == "WakeEventEvent"@ {
        decoded_wake_event(timestamp_ns, fields)
    } else if name == "SegmentMetadataEvent"@ {
        decoded_segment_metadata(timestamp_ns, fields)
    } else {
        None
    }
}

fn decode_poll_start(
    timestamp_ns: Option<u64>,
    fields: &Vec<FieldValue>,
) -> (r: Option<TelemetryEventRef>)
    ensures
        opt_record(r) == decoded_poll_start(timestamp_ns, field_models(fields@)),
{
    match (
        timestamp_ns,
        get_varint(fields, 0),
        get_varint(fields, 1),
        get_varint(fields, 2),
        get_pooled(fields, 3),
    ) {
        (Some(t), Some(f0), Some(f1), Some(f2), Some(f3)) => Some(
            TelemetryEventRef::PollStart(
                PollStartEvent {
                    timestamp_ns: t,
                    worker_id: WorkerId(f0),
                    local_queue: take_u8(f1),
                    task_id: TaskId::from_u64(f2),
                    spawn_loc: f3,
                },
            ),
        ),
        _ => None,
    }
}

fn decode_poll_end(
    timestamp_ns: Option<u64>,
    fields: &Vec<FieldValue>,
) -> (r: Option<TelemetryEventRef>)
    ensures
        opt_record(r) == decoded_poll_end(timestamp_ns, field_models(fields@)),
{
    match (timestamp_ns, get_varint(fields, 0)) {
        (Some(t), Some(f0)) => Some(
            TelemetryEventRef::PollEnd(
                PollEndEvent {
                    timestamp_ns: t,
                    worker_id: WorkerId(f0),
                },
            ),
        ),
        _ => None,
    }
}

fn decode_worker_park(
    timestamp_ns: Option<u64>,
    fields: &Vec<FieldValue>,
) -> (r: Option<TelemetryEventRef>)
    ensures
        opt_record(r) == decoded_worker_park(timestamp_ns, field_models(fields@)),
{
    match (timestamp_ns, get_varint(fields, 0), get_varint(fields, 1), get_varint(fields, 2)) {
        (Some(t), Some(f0), Some(f1), Some(f2)) => Some(
            TelemetryEventRef::WorkerPark(
                WorkerParkEvent {
                    timestamp_ns: t,
                    worker_id: WorkerId(f0),
                    local_queue: take_u8(f1),
                    cpu_time_ns: f2,
                },
            ),
        ),
        _ => None,
    }
}

fn decode_worker_unpark(
    timestamp_ns: Option<u64>,
    fields: &Vec<FieldValue>,
) -> (r: Option<TelemetryEventRef>)
    ensures
        opt_record(r) == decoded_worker_unpark(timestamp_ns, field_models(fields@)),
{
    match (
        timestamp_ns,
        get_varint(fields, 0),
        get_varint(fields, 1),
        get_varint(fields, 2),
        get_varint(fields, 3),
    ) {
        (Some(t), Some(f0), Some(f1), Some(f2), Some(f3)) => Some(
            TelemetryEventRef::WorkerUnpark(
                WorkerUnparkEvent {
                    timestamp_ns: t,
                    worker_id: WorkerId(f0),
                    local_queue: take_u8(f1),
                    cpu_time_ns: f2,
                    sched_wait_ns: f3,
                },
            ),
        ),
        _ => None,
    }
}

fn decode_queue_sample(
    timestamp_ns: Option<u64>,
    fields: &Vec<FieldValue>,
) -> (r: Option<TelemetryEventRef>)
    ensures
        opt_record(r) == decoded_queue_sample(timestamp_ns, field_models(fields@)),
{
    match (timestamp_ns, get_varint(fields, 0)) {
        (Some(t), Some(f0)) => Some(
            TelemetryEventRef::QueueSample(
                QueueSampleEvent {
                    timestamp_ns: t,
                    global_queue: take_u8(f0),
                },
            ),
        ),
        _ => None,
    }
}

fn decode_task_spawn(
    timestamp_ns: Option<u64>,
    fields: &Vec<FieldValue>,
) -> (r: Option<TelemetryEventRef>)
    ensures
        opt_record(r) == decoded_task_spawn(timestamp_ns, field_models(fields@)),
{
    match (timestamp_ns, get_varint(fields, 0), get_pooled(fields, 1)) {
        (Some(t), Some(f0), Some(f1)) => Some(
            TelemetryEventRef::TaskSpawn(
                TaskSpawnEvent {
                    timestamp_ns: t,
                    task_id: TaskId::from_u64(f0),
                    spawn_loc: f1,
                },
            ),
        ),
        _ => None,
    }
}

fn decode_task_terminate(
    timestamp_ns: Option<u64>,
    fields: &Vec<FieldValue>,
) -> (r: Option<TelemetryEventRef>)
    ensures
        opt_record(r) == decoded_task_terminate(timestamp_ns, field_models(fields@)),
{
    match (timestamp_ns, get_varint(fields, 0)) {
        (Some(t), Some(f0)) => Some(
            TelemetryEventRef::TaskTerminate(
                TaskTerminateEvent {
                    timestamp_ns: t,
                    task_id: TaskId::from_u64(f0),
                },
            ),
        ),
        _ => None,
    }
}

fn decode_cpu_sample(
    timestamp_ns: Option<u64>,
    fields: &Vec<FieldValue>,
) -> (r: Option<TelemetryEventRef>)
    ensures
        opt_record(r) == decoded_cpu_sample(timestamp_ns, field_models(fields@)),
{
    match (
        timestamp_ns,
        get_varint(fields, 0),
        get_varint(fields, 1),
        get_varint(fields, 2),
        get_pooled(fields, 3),
        get_frames(fields, 4),
    ) {
        (Some(t), Some(f0), Some(f1), Some(f2), Some(f3), Some(f4)) => Some(
            TelemetryEventRef::CpuSample(
                CpuSampleEvent {
                    timestamp_ns: t,
                    worker_id: WorkerId(f0),
                    tid: take_u32(f1),
                    source: read_source(take_u8(f2)),
                    thread_name: f3,
                    callchain: f4,
                },
            ),
        ),
        _ => None,
    }
}

fn decode_wake_event(
    timestamp_ns: Option<u64>,
    fields: &Vec<FieldValue>,
) -> (r: Option<TelemetryEventRef>)
    ensures
        opt_record(r) == decoded_wake_event(timestamp_ns, field_models(fields@)),
{
    match (timestamp_ns, get_varint(fields, 0), get_varint(fields, 1), get_varint(fields, 2)) {
        (Some(t), Some(f0), Some(f1), Some(f2)) => Some(
            TelemetryEventRef::WakeEvent(
                WakeEventEvent {
                    timestamp_ns: t,
                    waker_task_id: TaskId::from_u64(f0),
                    woken_task_id: TaskId::from_u64(f1),
                    target_worker: take_u8(f2),
                },
            ),
        ),
        _ => None,
    }
}

fn decode_segment_metadata(
    timestamp_ns: Option<u64>,
    fields: &Vec<FieldValue>,
) -> (r: Option<TelemetryEventRef>)
    ensures
        opt_record(r) == decoded_segment_metadata(timestamp_ns, field_models(fields@)),
{
    match (timestamp_ns, get_entries(fields, 0)) {
        (Some(t), Some(f0)) => Some(
            TelemetryEventRef::SegmentMetadata(
                SegmentMetadataEvent {
                    timestamp_ns: t,
                    entries: f0,
                },
            ),
        ),
        _ => None,
    }
}

/// Decode a single record from its schema name and field values. Returns
/// `None` for unknown names and for fields of other types; surplus fields are
/// passed over.
pub fn decode_ref(name: &str, timestamp_ns: Option<u64>, fields: &Vec<FieldValue>) -> (r: Option<
    TelemetryEventRef,
>)
    ensures
        opt_record(r) == decoded(name@, timestamp_ns, field_models(fields@)),
{
    if same_text(name, "PollStartEvent") {
        decode_poll_start(timestamp_ns, fields)
    } else if same_text(name, "PollEndEvent") {
        decode_poll_end(timestamp_ns, fields)
    } else if same_text(name, "WorkerParkEvent") {
        decode_worker_park(timestamp_ns, fields)
    } else if same_text(name, "WorkerUnparkEvent") {
        decode_worker_unpark(timestamp_ns, fields)
    } else if same_text(name, "QueueSampleEvent") {
        decode_queue_sample(timestamp_ns, fields)
    } else if same_text(name, "TaskSpawnEvent") {
        decode_task_spawn(timestamp_ns, fields)
    } else if same_text(name, "TaskTerminateEvent") {
        decode_task_terminate(timestamp_ns, fields)
    } else if same_text(name, "CpuSampleEvent") {
        decode_cpu_sample(timestamp_ns, fields)
    } else if same_text(name, "WakeEventEvent") {
        decode_wake_event(timestamp_ns, fields)
    } else if same_text(name, "SegmentMetadataEvent") {
        decode_segment_metadata(timestamp_ns, fields)
    } else {
        None
    }
}

/// The field values of a record, its timestamp aside.
pub open spec fn record_fields(r: TelemetryEventRef) -> Seq<FieldModel> {
    match r {
        TelemetryEventRef::PollStart(e) => seq![
            FieldModel::Varint(e.worker_id.0),
            FieldModel::Varint(e.local_queue as u64),
            FieldModel::Varint(e.task_id@),
            FieldModel::PooledString(e.spawn_loc),
        ],
        TelemetryEventRef::PollEnd(e) => seq![FieldModel::Varint(e.worker_id.0)],
        TelemetryEventRef::WorkerPark(e) => seq![
            FieldModel::Varint(e.worker_id.0),
            FieldModel::Varint(e.local_queue as u64),
            FieldModel::Varint(e.cpu_time_ns),
        ],
        TelemetryEventRef::WorkerUnpark(e) => seq![
            FieldModel::Varint(e.worker_id.0),
            FieldModel::Varint(e.local_queue as u64),
            FieldModel::Varint(e.cpu_time_ns),
            FieldModel::Varint(e.sched_wait_ns),
        ],
        TelemetryEventRef::QueueSample(e) => seq![FieldModel::Varint(e.global_queue as u64)],
        TelemetryEventRef::TaskSpawn(e) => seq![
            FieldModel::Varint(e.task_id@),
            FieldModel::PooledString(e.spawn_loc),
        ],
        TelemetryEventRef::TaskTerminate(e) => seq![FieldModel::Varint(e.task_id@)],
        TelemetryEventRef::CpuSample(e) => seq![
            FieldModel::Varint(e.worker_id.0),
            FieldModel::Varint(e.tid as u64),
            FieldModel::Varint(source_code(e.source) as u64),
            FieldModel::PooledString(e.thread_name),
            FieldModel::StackFrames(e.callchain@),
        ],
        TelemetryEventRef::WakeEvent(e) => seq![
            FieldModel::Varint(e.waker_task_id@),
            FieldModel::Varint(e.woken_task_id@),
            FieldModel::Varint(e.target_worker as u64),
        ],
        TelemetryEventRef::SegmentMetadata(e) => seq![
            FieldModel::StringMap(entry_chars(e.entries@)),
        ],
    }
}

/// The field values of a record, its timestamp aside, in the order of its
/// schema.
pub fn encode_fields(r: &TelemetryEventRef) -> (fields: Vec<FieldValue>)
    ensures
        field_models(fields@) == record_fields(*r),
{
    let mut fields: Vec<FieldValue> = Vec::new();
    match r {
        TelemetryEventRef::PollStart(e) => {
            fields.push(FieldValue::Varint(e.worker_id.0));
            fields.push(FieldValue::Varint(e.local_queue as u64));
            fields.push(FieldValue::Varint(e.task_id.as_u64()));
            fields.push(FieldValue::PooledString(e.spawn_loc));
        },
        TelemetryEventRef::PollEnd(e) => {
            fields.push(FieldValue::Varint(e.worker_id.0));
        },
        TelemetryEventRef::WorkerPark(e) => {
            fields.push(FieldValue::Varint(e.worker_id.0));
            fields.push(FieldValue::Varint(e.local_queue as u64));
            fields.push(FieldValue::Varint(e.cpu_time_ns));
        },
        TelemetryEventRef::WorkerUnpark(e) => {
            fields.push(FieldValue::Varint(e.worker_id.0));
            fields.push(FieldValue::Varint(e.local_queue as u64));
            fields.push(FieldValue::Varint(e.cpu_time_ns));
            fields.push(FieldValue::Varint(e.sched_wait_ns));
        },
        TelemetryEventRef::QueueSample(e) => {
            fields.push(FieldValue::Varint(e.global_queue as u64));
        },
        TelemetryEventRef::TaskSpawn(e) => {
            fields.push(FieldValue::Varint(e.task_id.as_u64()));
            fields.push(FieldValue::PooledString(e.spawn_loc));
        },
        TelemetryEventRef::TaskTerminate(e) => {
            fields.push(FieldValue::Varint(e.task_id.as_u64()));
        },
        TelemetryEventRef::CpuSample(e) => {
            fields.push(FieldValue::Varint(e.worker_id.0));
            fields.push(FieldValue::Varint(e.tid as u64));
            fields.push(FieldValue::Varint(write_source(e.source) as u64));
            fields.push(FieldValue::PooledString(e.thread_name));
            fields.push(FieldValue::StackFrames(clone_addresses(&e.callchain)));
        },
        TelemetryEventRef::WakeEvent(e) => {
            fields.push(FieldValue::Varint(e.waker_task_id.as_u64()));
            fields.push(FieldValue::Varint(e.woken_task_id.as_u64()));
            fields.push(FieldValue::Varint(e.target_worker as u64));
        },
        TelemetryEventRef::SegmentMetadata(e) => {
            fields.push(FieldValue::StringMap(clone_entries(&e.entries)));
        },
    }
    assert(field_models(fields@) =~= record_fields(*r));
    fields
}

proof fn lemma_task_id_from(id: TaskId)
    ensures
        task_from(id@) == id,
{
    TaskId::lemma_view_determines(task_from(id@), id);
}

/// What is encoded is decoded: the field values of a record, under its schema
/// name and with its timestamp, decode to that record.
pub proof fn lemma_decode_inverts_encode(r: TelemetryEventRef)
    ensures
        decoded(r.name(), Some(r.timestamp()), record_fields(r)) == Some(r@),
{
    reveal_strlit("PollStartEvent");
    reveal_strlit("PollEndEvent");
    reveal_strlit("WorkerParkEvent");
    reveal_strlit("WorkerUnparkEvent");
    reveal_strlit("QueueSampleEvent");
    reveal_strlit("TaskSpawnEvent");
    reveal_strlit("TaskTerminateEvent");
    reveal_strlit("CpuSampleEvent");
    reveal_strlit("WakeEventEvent");
    reveal_strlit("SegmentMetadataEvent");
    match r {
        TelemetryEventRef::PollStart(e) => lemma_task_id_from(e.task_id),
        TelemetryEventRef::TaskSpawn(e) => lemma_task_id_from(e.task_id),
        TelemetryEventRef::TaskTerminate(e) => lemma_task_id_from(e.task_id),
        TelemetryEventRef::WakeEvent(e) => {
            lemma_task_id_from(e.waker_task_id);
            lemma_task_id_from(e.woken_task_id);
        },
        _ => {},
    }
    assert("PollStartEvent"@.len() == 14);
    assert("PollEndEvent"@.len() == 12);
    assert("WorkerParkEvent"@.len() == 15);
    assert("WorkerUnparkEvent"@.len() == 17);
    assert("QueueSampleEvent"@.len() == 16);
    assert("TaskSpawnEvent"@.len() == 14);
    assert("TaskTerminateEvent"@.len() == 18);
    assert("CpuSampleEvent"@.len() == 14);
    assert("WakeEventEvent"@.len() == 14);
    assert("SegmentMetadataEvent"@.len() == 20);
    // The names of one length differ in their first letters.
    assert("PollStartEvent"@[0] != "TaskSpawnEvent"@[0]);
    assert("PollStartEvent"@[0] != "CpuSampleEvent"@[0]);
    assert("PollStartEvent"@[0] != "WakeEventEvent"@[0]);
    assert("TaskSpawnEvent"@[0] != "CpuSampleEvent"@[0]);
    assert("TaskSpawnEvent"@[0] != "WakeEventEvent"@[0]);
    assert("CpuSampleEvent"@[0] != "WakeEventEvent"@[0]);
}

/// The value of a field, and that of a record, is what it holds.
pub proof fn lemma_value_is_what_is_held(f: FieldValue, r: TelemetryEventRef)
    ensures
        match f {
            FieldValue::Varint(v) => f@ == FieldModel::Varint(v),
            FieldValue::PooledString(s) => f@ == FieldModel::PooledString(s),
            FieldValue::StackFrames(v) => f@ matches FieldModel::StackFrames(m) && m == v@,
            FieldValue::StringMap(v) => f@ matches FieldModel::StringMap(m) && m.len() == v@.len()
                && forall|i: int|
                0 <= i < m.len() ==> (#[trigger] m[i]).0 == v@[i].0@ && m[i].1 == v@[i].1@,
        },
        match r {
            TelemetryEventRef::CpuSample(e) => r@ matches RecordModel::CpuSample {
                timestamp_ns,
                worker_id,
                tid,
                source,
                thread_name,
                callchain,
            } && timestamp_ns == e.timestamp_ns && worker_id == e.worker_id && tid == e.tid
                && source == e.source && thread_name == e.thread_name && callchain == e.callchain@,
            TelemetryEventRef::SegmentMetadata(e) => r@ matches RecordModel::SegmentMetadata {
                timestamp_ns,
                entries,
            } && timestamp_ns == e.timestamp_ns && entries.len() == e.entries@.len()
                && forall|i: int|
                0 <= i < entries.len() ==> (#[trigger] entries[i]).0 == e.entries@[i].0@
                    && entries[i].1 == e.entries@[i].1@,
            _ => r@ == RecordModel::Plain(r),
        },
{
}

/// A record is written field by field in the order in which its type declares
/// the fields, the timestamp aside: numbers as numbers, strings by their
/// handles, a sample source as 0 for the profiler and 1 for a context switch.
pub proof fn lemma_fields_are_written_as_declared(r: TelemetryEventRef)
    ensures
        ({
            let f = record_fields(r);
            match r {
                TelemetryEventRef::PollStart(e) => f.len() == 4 && f[0] == FieldModel::Varint(
                    e.worker_id.0,
                ) && f[1] == FieldModel::Varint(e.local_queue as u64) && f[2] == FieldModel::Varint(
                    e.task_id@,
                ) && f[3] == FieldModel::PooledString(e.spawn_loc),
                TelemetryEventRef::PollEnd(e) => f.len() == 1 && f[0] == FieldModel::Varint(
                    e.worker_id.0,
                ),
                TelemetryEventRef::WorkerPark(e) => f.len() == 3 && f[0] == FieldModel::Varint(
                    e.worker_id.0,
                ) && f[1] == FieldModel::Varint(e.local_queue as u64) && f[2] == FieldModel::Varint(
                    e.cpu_time_ns,
                ),
                TelemetryEventRef::WorkerUnpark(e) => f.len() == 4 && f[0] == FieldModel::Varint(
                    e.worker_id.0,
                ) && f[1] == FieldModel::Varint(e.local_queue as u64) && f[2] == FieldModel::Varint(
                    e.cpu_time_ns,
                ) && f[3] == FieldModel::Varint(e.sched_wait_ns),
                TelemetryEventRef::QueueSample(e) => f.len() == 1 && f[0] == FieldModel::Varint(
                    e.global_queue as u64,
                ),
                TelemetryEventRef::TaskSpawn(e) => f.len() == 2 && f[0] == FieldModel::Varint(
                    e.task_id@,
                ) && f[1] == FieldModel::PooledString(e.spawn_loc),
                TelemetryEventRef::TaskTerminate(e) => f.len() == 1 && f[0] == FieldModel::Varint(
                    e.task_id@,
                ),
                TelemetryEventRef::CpuSample(e) => f.len() == 5 && f[0] == FieldModel::Varint(
                    e.worker_id.0,
                ) && f[1] == FieldModel::Varint(e.tid as u64) && f[2] == FieldModel::Varint(
                    if e.source is SchedEvent {
                        1
                    } else {
                        0
                    },
                ) && f[3] == FieldModel::PooledString(e.thread_name) && f[4]
                    == FieldModel::StackFrames(e.callchain@),
                TelemetryEventRef::WakeEvent(e) => f.len() == 3 && f[0] == FieldModel::Varint(
                    e.waker_task_id@,
                ) && f[1] == FieldModel::Varint(e.woken_task_id@) && f[2] == FieldModel::Varint(
                    e.target_worker as u64,
                ),
                TelemetryEventRef::SegmentMetadata(e) => f.len() == 1 && (f[0] matches
                    FieldModel::StringMap(m) && m.len() == e.entries@.len() && forall|i: int|
                    0 <= i < m.len() ==> (#[trigger] m[i]).0 == e.entries@[i].0@ && m[i].1
                        == e.entries@[i].1@),
            }
        }),
{
}

/// A field is read as what it is: there and of the asked type, or not at all.
pub proof fn lemma_fields_are_read_as_they_are(fields: Seq<FieldModel>, i: int)
    requires
        0 <= i,
    ensures
        i >= fields.len() ==> varint_at(fields, i) is None && pooled_at(fields, i) is None
            && frames_at(fields, i) is None && entries_at(fields, i) is None,
        i < fields.len() ==> match fields[i] {
            FieldModel::Varint(v) => varint_at(fields, i) == Some(v) && pooled_at(fields, i) is None
                && frames_at(fields, i) is None && entries_at(fields, i) is None,
            FieldModel::PooledString(s) => pooled_at(fields, i) == Some(s) && varint_at(fields, i)
                is None && frames_at(fields, i) is None && entries_at(fields, i) is None,
            FieldModel::StackFrames(a) => frames_at(fields, i) == Some(a) && varint_at(fields, i)
                is None && pooled_at(fields, i) is None && entries_at(fields, i) is None,
            FieldModel::StringMap(m) => entries_at(fields, i) == Some(m) && varint_at(fields, i)
                is None && pooled_at(fields, i) is None && frames_at(fields, i) is None,
        },
{
}

/// A number that is too wide for its field is cut to its low bits, and only the
/// number 1 stands for a context switch.
pub proof fn lemma_numbers_are_cut_to_their_field(v: u64, code: u8)
    ensures
        low_u8(v) as int == v as int % 256,
        v <= u8::MAX ==> low_u8(v) == v,
        low_u32(v) as int == v as int % 0x1_0000_0000,
        v <= u32::MAX ==> low_u32(v) == v,
        source_from(code) is SchedEvent <==> code == 1,
        source_from(source_code(CpuSampleSource::SchedEvent)) is SchedEvent,
        source_from(source_code(CpuSampleSource::CpuProfile)) is CpuProfile,
{
}

/// Nothing is decoded without a timestamp, under an unknown name, or from fewer
/// fields than the type has.
pub proof fn lemma_incomplete_records_are_refused(
    name: Seq<char>,
    timestamp_ns: Option<u64>,
    fields: Seq<FieldModel>,
)
    ensures
        timestamp_ns is None ==> decoded(name, timestamp_ns, fields) is None,
        fields.len() == 0 ==> decoded(name, timestamp_ns, fields) is None,
        name != "PollStartEvent"@ && name != "PollEndEvent"@ && name != "WorkerParkEvent"@ && name
            != "WorkerUnparkEvent"@ && name != "QueueSampleEvent"@ && name != "TaskSpawnEvent"@
            && name != "TaskTerminateEvent"@ && name != "CpuSampleEvent"@ && name
            != "WakeEventEvent"@ && name != "SegmentMetadataEvent"@ ==> decoded(
            name,
            timestamp_ns,
            fields,
        ) is None,
{
}

/// A decoded record has the timestamp that it was decoded with, and its fields
/// are read from their own places, whatever fields follow.
pub proof fn lemma_fields_are_decoded_from_their_places(
    timestamp_ns: u64,
    fields: Seq<FieldModel>,
    a: u64,
    b: u64,
    c: u64,
    d: u64,
    handle: InternedString,
    frames: Seq<u64>,
)
    requires
        fields.len() >= 5,
    ensures
        fields[0] == FieldModel::Varint(a) && fields[1] == FieldModel::Varint(b) && fields[2]
            == FieldModel::Varint(c) ==> {
            &&& fields[3] == FieldModel::PooledString(handle) ==> (decoded_poll_start(
                Some(timestamp_ns),
                fields,
            ) matches Some(RecordModel::Plain(TelemetryEventRef::PollStart(e))) && e.timestamp_ns
                == timestamp_ns && e.worker_id.0 == a && e.local_queue as int == b as int % 256
                && e.task_id@ == c && e.spawn_loc == handle)
            &&& decoded_poll_end(Some(timestamp_ns), fields) matches Some(
                RecordModel::Plain(TelemetryEventRef::PollEnd(e)),
            ) && e.timestamp_ns == timestamp_ns && e.worker_id.0 == a
            &&& decoded_worker_park(Some(timestamp_ns), fields) matches Some(
                RecordModel::Plain(TelemetryEventRef::WorkerPark(e)),
            ) && e.timestamp_ns == timestamp_ns && e.worker_id.0 == a && e.local_queue as int
                == b as int % 256 && e.cpu_time_ns == c
            &&& fields[3] == FieldModel::Varint(d) ==> (decoded_worker_unpark(
                Some(timestamp_ns),
                fields,
            ) matches Some(RecordModel::Plain(TelemetryEventRef::WorkerUnpark(e)))
                && e.timestamp_ns == timestamp_ns && e.worker_id.0 == a && e.local_queue as int
                == b as int % 256 && e.cpu_time_ns == c && e.sched_wait_ns == d)
            &&& decoded_queue_sample(Some(timestamp_ns), fields) matches Some(
                RecordModel::Plain(TelemetryEventRef::QueueSample(e)),
            ) && e.timestamp_ns == timestamp_ns && e.global_queue as int == a as int % 256
            &&& decoded_task_terminate(Some(timestamp_ns), fields) matches Some(
                RecordModel::Plain(TelemetryEventRef::TaskTerminate(e)),
            ) && e.timestamp_ns == timestamp_ns && e.task_id@ == a
            &&& decoded_wake_event(Some(timestamp_ns), fields) matches Some(
                RecordModel::Plain(TelemetryEventRef::WakeEvent(e)),
            ) && e.timestamp_ns == timestamp_ns && e.waker_task_id@ == a && e.woken_task_id@ == b
                && e.target_worker as int == c as int % 256
            &&& fields[3] == FieldModel::PooledString(handle) && fields[4]
                == FieldModel::StackFrames(frames) ==> (decoded_cpu_sample(
                Some(timestamp_ns),
                fields,
            ) matches Some(
                RecordModel::CpuSample {
                    timestamp_ns: t,
                    worker_id,
                    tid,
                    source,
                    thread_name,
                    callchain,
                },
            ) && t == timestamp_ns && worker_id.0 == a && tid as int == b as int % 0x1_0000_0000
                && (source is SchedEvent <==> c as int % 256 == 1) && thread_name == handle
                && callchain == frames)
        },
        fields[0] == FieldModel::Varint(a) && fields[1] == FieldModel::PooledString(handle) ==> (
        decoded_task_spawn(Some(timestamp_ns), fields) matches Some(
            RecordModel::Plain(TelemetryEventRef::TaskSpawn(e)),
        ) && e.timestamp_ns == timestamp_ns && e.task_id@ == a && e.spawn_loc == handle),
        fields[0] matches FieldModel::StringMap(m) ==> (decoded_segment_metadata(
            Some(timestamp_ns),
            fields,
        ) matches Some(RecordModel::SegmentMetadata { timestamp_ns: t, entries }) && t
            == timestamp_ns && entries == m),
{
    TaskId::lemma_spec_from(a);
    TaskId::lemma_spec_from(b);
    TaskId::lemma_spec_from(c);
}

/// The values of fields are taken one by one, in order, and that of a record
/// that is there is the record's.
pub proof fn lemma_values_are_in_order(fields: Seq<FieldValue>, i: int, r: TelemetryEventRef)
    ensures
        field_models(fields).len() == fields.len(),
        0 <= i < fields.len() ==> field_models(fields)[i] == fields[i]@,
        opt_record(Some(r)) == Some(r@),
        opt_record(None) is None,
{
}

} // verus!
