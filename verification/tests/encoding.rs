//! Records, their fields and the blobs of metrics entries.

use dial9_tokio_telemetry::telemetry::buffer::encode_event;
use dial9_tokio_telemetry::telemetry::codec::{decode_ref, encode_fields, FieldValue};
use dial9_tokio_telemetry::telemetry::entry_sink::{Dial9EntrySink, SpanFlag, SpanFlagCtor};
use dial9_tokio_telemetry::telemetry::events::{
    CpuSampleData, CpuSampleSource, InternedString, RawEvent, SpawnLocation, TelemetryEvent,
};
use dial9_tokio_telemetry::telemetry::format::{
    PollStartEvent, SegmentMetadataEvent, TelemetryEventRef, WorkerId,
};
use dial9_tokio_telemetry::telemetry::metrique_serializer::{
    parse_metrique_data, BinaryEntryWriter,
};
use dial9_tokio_telemetry::telemetry::task_metadata::TaskId;
use dial9_tokio_telemetry::telemetry::writer::{write_each, EventResolver, NullWriter};

fn poll_start() -> TelemetryEventRef {
    TelemetryEventRef::PollStart(PollStartEvent {
        timestamp_ns: 99,
        worker_id: WorkerId(3),
        local_queue: 7,
        task_id: TaskId::from_u32(12),
        spawn_loc: InternedString(5),
    })
}

#[test]
fn records_decode_to_themselves() {
    let record = poll_start();
    let fields = encode_fields(&record);
    assert_eq!(fields.len(), 4);
    let back = decode_ref(record.event_name(), record.timestamp_ns(), &fields).unwrap();
    match back {
        TelemetryEventRef::PollStart(e) => {
            assert_eq!(e.timestamp_ns, 99);
            assert_eq!(e.worker_id, WorkerId(3));
            assert_eq!(e.local_queue, 7);
            assert_eq!(e.task_id, TaskId::from_u32(12));
            assert_eq!(e.spawn_loc, InternedString(5));
        }
        other => panic!("expected a poll start, got {other:?}"),
    }
}

#[test]
fn metadata_records_decode_to_themselves() {
    let entries = vec![("k".to_string(), "v".to_string())];
    let record = TelemetryEventRef::SegmentMetadata(SegmentMetadataEvent {
        timestamp_ns: 1,
        entries: entries.clone(),
    });
    let fields = encode_fields(&record);
    match decode_ref("SegmentMetadataEvent", Some(1), &fields) {
        Some(TelemetryEventRef::SegmentMetadata(e)) => assert_eq!(e.entries, entries),
        other => panic!("expected metadata, got {other:?}"),
    }
}

#[test]
fn malformed_records_do_not_decode() {
    let fields = encode_fields(&poll_start());
    assert!(decode_ref("PollStartEvent", None, &fields).is_none());
    assert!(decode_ref("NoSuchEvent", Some(1), &fields).is_none());
    assert!(decode_ref("PollStartEvent", Some(1), &fields[..3].to_vec()).is_none());
    let wrong = vec![FieldValue::StackFrames(vec![1])];
    assert!(decode_ref("PollEndEvent", Some(1), &wrong).is_none());
}

#[test]
fn wide_numbers_are_cut_to_their_field() {
    let fields = vec![FieldValue::Varint(300)];
    match decode_ref("QueueSampleEvent", Some(1), &fields) {
        Some(TelemetryEventRef::QueueSample(e)) => assert_eq!(e.global_queue, 44),
        other => panic!("expected a queue sample, got {other:?}"),
    }
}

#[test]
fn recorded_events_become_records() {
    let intern = |s: String| InternedString(s.len() as u32);
    let location = SpawnLocation { address: 1, file: "a.rs".into(), line: 12, column: 3 };
    let raw = RawEvent::PollStart {
        timestamp_nanos: 5,
        worker_id: WorkerId(1),
        worker_local_queue_depth: 258,
        task_id: TaskId::from_u32(4),
        location,
    };
    match encode_event(&raw, &intern) {
        TelemetryEventRef::PollStart(e) => {
            assert_eq!(e.local_queue, 2);
            assert_eq!(e.spawn_loc, InternedString("a.rs:12:3".len() as u32));
        }
        other => panic!("expected a poll start, got {other:?}"),
    }
    let sample = RawEvent::CpuSample(Box::new(CpuSampleData {
        timestamp_nanos: 6,
        worker_id: WorkerId(2),
        tid: 8,
        source: CpuSampleSource::SchedEvent,
        thread_name: Some("worker-2".into()),
        callchain: vec![1, 2],
    }));
    match encode_event(&sample, &intern) {
        TelemetryEventRef::CpuSample(e) => {
            assert_eq!(e.thread_name, InternedString(8));
            assert_eq!(e.callchain, vec![1, 2]);
            assert_eq!(e.source, CpuSampleSource::SchedEvent);
        }
        other => panic!("expected a sample, got {other:?}"),
    }
}

#[test]
fn records_convert_to_events() {
    match TelemetryEvent::from(poll_start()) {
        TelemetryEvent::PollStart { timestamp_nanos, worker_local_queue_depth, .. } => {
            assert_eq!(timestamp_nanos, 99);
            assert_eq!(worker_local_queue_depth, 7);
        }
        other => panic!("expected a poll start, got {other:?}"),
    }
}

#[test]
fn resolver_defines_each_location_once_per_file() {
    let mut resolver = EventResolver::new();
    let raw = RawEvent::TaskSpawn {
        timestamp_nanos: 1,
        task_id: TaskId::from_u32(1),
        location: SpawnLocation { address: 7, file: "b.rs".into(), line: 1, column: 1 },
    };
    assert!(resolver.can_resolve(&raw));
    assert_eq!(resolver.resolve(&raw).into_events().len(), 2);
    assert_eq!(resolver.resolve(&raw).into_events().len(), 1);
    resolver.on_rotate();
    assert_eq!(resolver.resolve(&raw).into_events().len(), 2);
}

#[test]
fn null_writer_takes_everything() {
    let events = vec![
        RawEvent::TaskTerminate { timestamp_nanos: 1, task_id: TaskId::from_u32(1) },
        RawEvent::QueueSample { timestamp_nanos: 2, global_queue_depth: 3 },
    ];
    assert!(write_each(&mut NullWriter, &events).is_ok());
}

fn entry() -> Vec<u8> {
    let mut w = BinaryEntryWriter::new();
    w.write_property("Operation", "GetItem");
    w.write_property("Länder", "äöü");
    w.write_metric("Latency", true, "Milliseconds", &vec![1.5f64.to_bits(), 2.25f64.to_bits()]);
    w.write_metric("Count", false, "", &vec![3.0f64.to_bits()]);
    w.into_bytes()
}

#[test]
fn metrics_entries_parse_back() {
    let parsed = parse_metrique_data(&entry()).unwrap();
    assert_eq!(
        parsed.properties,
        vec![
            ("Operation".to_string(), "GetItem".to_string()),
            ("Länder".to_string(), "äöü".to_string()),
        ]
    );
    assert_eq!(parsed.metrics.len(), 2);
    let latency = &parsed.metrics[0];
    assert_eq!(latency.name, "Latency");
    assert!(latency.is_span);
    assert_eq!(latency.unit, "Milliseconds");
    let values: Vec<f64> = latency.values.iter().map(|v| f64::from_bits(*v)).collect();
    assert_eq!(values, vec![1.5, 2.25]);
    assert!(!parsed.metrics[1].is_span);
}

#[test]
fn metrics_entries_have_the_documented_layout() {
    let mut w = BinaryEntryWriter::new();
    w.write_property("k", "vv");
    w.write_metric("m", true, "s", &vec![1]);
    assert_eq!(
        w.into_bytes(),
        vec![
            1, 0, // one property
            1, 0, b'k', 2, 0, b'v', b'v', //
            1, 0, // one metric
            1, 0, b'm', 1, 1, b's', 1, 0, 1, 0, 0, 0, 0, 0, 0, 0,
        ]
    );
    assert_eq!(BinaryEntryWriter::new().into_bytes(), vec![0, 0, 0, 0]);
}

#[test]
fn truncated_entries_do_not_parse() {
    let bytes = entry();
    for n in 0..bytes.len() {
        assert!(parse_metrique_data(&bytes[..n]).is_none(), "prefix of {n} bytes");
    }
    let mut longer = bytes.clone();
    longer.push(7);
    assert!(parse_metrique_data(&longer).is_some());
}

#[test]
fn text_that_is_no_unicode_does_not_parse() {
    let mut bytes = entry();
    // the first byte of the first key
    bytes[4] = 0xff;
    assert!(parse_metrique_data(&bytes).is_none());
}

#[test]
fn sinks_know_their_entry_name() {
    let sink: Dial9EntrySink<u32> = Dial9EntrySink::new("RequestMetrics");
    assert_eq!(sink.entry_name(), "RequestMetrics");
    assert_eq!(SpanFlagCtor::construct(), SpanFlag);
}
