//! The rotating writer, driven against a directory in memory.

use dial9_tokio_telemetry::telemetry::cpu_profile::RawCpuSample;
use dial9_tokio_telemetry::telemetry::events::{
    CpuSampleSource, RawEvent, SpawnLocRef, SpawnLocation, TelemetryEvent, ThreadRole,
};
use dial9_tokio_telemetry::telemetry::format::WorkerId;
use dial9_tokio_telemetry::telemetry::recorder::cpu_flush_state::{
    CodeInfo, CpuFlushState, SymbolInfo,
};
use dial9_tokio_telemetry::telemetry::recorder::event_writer::EventWriter;
use dial9_tokio_telemetry::telemetry::recorder::shared_state::SharedState;
use dial9_tokio_telemetry::telemetry::rotating_writer::{rotation_due, FileOp, RotatingWriter};
use dial9_tokio_telemetry::telemetry::rotation::HEADER_SIZE;
use dial9_tokio_telemetry::telemetry::task_metadata::TaskId;
use dial9_tokio_telemetry::telemetry::writer::TraceWriter;
use dial9_tokio_telemetry::time::Duration;
use std::collections::{BTreeMap, HashMap, HashSet};

struct TraceFile {
    has_header: bool,
    events: Vec<TelemetryEvent>,
    size: u64,
}

/// A writer with the files of its directory.
struct Disk {
    writer: RotatingWriter,
    files: BTreeMap<String, TraceFile>,
    current: String,
    flushes: usize,
    removable: bool,
}

fn wire_event_size(event: &TelemetryEvent) -> u64 {
    match event {
        TelemetryEvent::WorkerPark { .. } => 11,
        TelemetryEvent::WorkerUnpark { .. } => 15,
        TelemetryEvent::PollStart { .. } => 13,
        TelemetryEvent::TaskSpawn { .. } => 11,
        TelemetryEvent::SpawnLocationDef { location, .. } => 5 + location.len() as u64,
        TelemetryEvent::SegmentMetadata { entries, .. } => {
            3 + entries.iter().map(|(k, v)| 4 + (k.len() + v.len()) as u64).sum::<u64>()
        }
        _ => 9,
    }
}

impl Disk {
    fn with(writer: RotatingWriter) -> Disk {
        let current = writer.current_name().clone();
        let mut files = BTreeMap::new();
        files.insert(
            current.clone(),
            TraceFile { has_header: true, events: Vec::new(), size: HEADER_SIZE },
        );
        Disk { writer, files, current, flushes: 0, removable: true }
    }

    fn rotating(max_file_size: u64, max_total_size: u64) -> Disk {
        Disk::with(RotatingWriter::new("trace".to_string(), max_file_size, max_total_size))
    }

    fn single_file(name: &str, stem: &str) -> Disk {
        Disk::with(RotatingWriter::single_file(name.to_string(), stem.to_string()))
    }

    fn settle(&mut self) -> std::io::Result<()> {
        while let Some(op) = self.writer.next_op(77) {
            let mut ok = true;
            let mut bytes = 0;
            match op {
                FileOp::Create { name } => {
                    let file = TraceFile { has_header: true, events: Vec::new(), size: HEADER_SIZE };
                    self.files.insert(name.clone(), file);
                    self.current = name;
                }
                FileOp::Write { event } => {
                    bytes = wire_event_size(&event);
                    let file = self.files.get_mut(&self.current).unwrap();
                    file.size += bytes;
                    file.events.push(event);
                }
                FileOp::Flush => self.flushes += 1,
                FileOp::Rename { from, to } => {
                    let file = self.files.remove(&from).unwrap();
                    if self.current == from {
                        self.current = to.clone();
                    }
                    self.files.insert(to, file);
                }
                FileOp::Remove { name } => {
                    if self.removable {
                        self.files.remove(&name).unwrap();
                    } else {
                        ok = false;
                    }
                }
            }
            if ok {
                assert!(self.writer.can_grow(bytes));
                self.writer.succeeded(bytes);
            } else if !self.writer.failed() {
                return Err(std::io::Error::other("disk"));
            }
        }
        assert!(self.writer.is_idle());
        Ok(())
    }

    fn write(&mut self, event: &RawEvent) {
        assert!(self.writer.has_ids_for(1));
        self.writer.write_event(event);
        self.settle().unwrap();
    }

    fn flush_all(&mut self) {
        self.writer.flush();
        self.settle().unwrap();
    }

    fn seal_current(&mut self) {
        self.writer.seal();
        self.settle().unwrap();
    }

    fn set_metadata(&mut self, entries: &[(&str, &str)]) {
        let entries = entries.iter().map(|(k, v)| (k.to_string(), v.to_string())).collect();
        self.writer.set_segment_metadata(entries);
        self.settle().unwrap();
    }

    fn has_file(&self, name: &str) -> bool {
        self.files.contains_key(name)
    }

    /// The events of a sealed file but its metadata.
    fn read(&self, index: u32) -> Vec<TelemetryEvent> {
        self.read_file(&rotating_file(index))
    }

    fn read_file(&self, name: &str) -> Vec<TelemetryEvent> {
        let file = &self.files[name];
        assert!(file.has_header);
        file.events
            .iter()
            .filter(|e| !matches!(e, TelemetryEvent::SegmentMetadata { .. }))
            .cloned()
            .collect()
    }

    fn metadata(&self, name: &str) -> Vec<(String, String)> {
        let mut found = Vec::new();
        for e in &self.files[name].events {
            if let TelemetryEvent::SegmentMetadata { entries, .. } = e {
                found = entries.clone();
            }
        }
        found
    }

    fn total_disk_usage(&self) -> u64 {
        self.files.values().map(|f| f.size).sum()
    }
}

impl TraceWriter for Disk {
    fn write_event(&mut self, event: &RawEvent) -> std::io::Result<()> {
        assert!(self.writer.has_ids_for(1));
        self.writer.write_event(event);
        self.settle()
    }

    fn flush(&mut self) -> std::io::Result<()> {
        self.writer.flush();
        self.settle()
    }

    fn take_rotated(&mut self) -> bool {
        self.writer.take_rotated()
    }

    fn write_atomic(&mut self, events: &Vec<RawEvent>) -> std::io::Result<()> {
        assert!(self.writer.has_ids_for(events.len()));
        self.writer.write_atomic(events);
        self.settle()
    }

    fn seal(&mut self) -> std::io::Result<()> {
        self.writer.seal();
        self.settle()
    }
}

fn park_event() -> RawEvent {
    RawEvent::WorkerPark {
        timestamp_nanos: 1000,
        worker_id: WorkerId(0),
        worker_local_queue_depth: 2,
        cpu_time_nanos: 0,
    }
}

fn rotating_file(i: u32) -> String {
    format!("trace.{i}.bin")
}

#[test]
fn test_writer_creation() {
    let disk = Disk::single_file("test_trace_v2.bin", "test_trace_v2");
    assert_eq!(disk.writer.current_name(), "test_trace_v2.bin");
}

#[test]
fn test_write_event() {
    let mut disk = Disk::single_file("test_event_v2.bin", "test_event_v2");
    disk.write(&park_event());
    disk.flush_all();
    // WorkerPark is 11 bytes on the wire
    let expected = HEADER_SIZE + 11;
    assert_eq!(disk.files["test_event_v2.bin"].size, expected);
    assert_eq!(disk.writer.current_size(), expected);
}

#[test]
fn test_write_batch_sizes() {
    let mut disk = Disk::single_file("test_batch_v2.bin", "test_batch_v2");
    for timestamp_nanos in [1000, 2000] {
        disk.write(&RawEvent::WorkerPark {
            timestamp_nanos,
            worker_id: WorkerId(0),
            worker_local_queue_depth: 2,
            cpu_time_nanos: 0,
        });
    }
    disk.flush_all();
    assert_eq!(disk.files["test_batch_v2.bin"].size, HEADER_SIZE + 11 + 11);
}

#[test]
fn test_rotating_writer_creation() {
    let mut disk = Disk::rotating(1024, 4096);
    disk.seal_current();
    assert_eq!(disk.read(0).len(), 0);
}

#[test]
fn test_rotating_writer_rotation() {
    let event_size = 11u64;
    let mut disk = Disk::rotating(HEADER_SIZE + event_size * 2, 10000);
    for _ in 0..3 {
        disk.write(&park_event());
    }
    disk.seal_current();
    let e0 = disk.read(0);
    let e1 = disk.read(1);
    assert_eq!(e0.len() + e1.len(), 3);
}

#[test]
fn test_rotating_writer_eviction() {
    let event_size = 11u64;
    let max_file_size = HEADER_SIZE + event_size * 2;
    let max_total_size = max_file_size * 3;
    let mut disk = Disk::rotating(max_file_size, max_total_size);
    for _ in 0..10 {
        disk.write(&park_event());
    }
    disk.seal_current();

    // Key invariant: total disk usage stays within budget
    assert!(disk.total_disk_usage() <= max_total_size);
    assert_eq!(disk.total_disk_usage(), disk.writer.total_size());
    assert_eq!(disk.files.len(), disk.writer.file_count());

    // Oldest files should be evicted
    assert!(!disk.has_file(&rotating_file(0)));
}

#[test]
fn test_rotating_writer_stops_when_over_budget() {
    let event_size = 11u64;
    let max_file_size = HEADER_SIZE + event_size * 10;
    let max_total_size = HEADER_SIZE + event_size * 2;
    let mut disk = Disk::rotating(max_file_size, max_total_size);
    for _ in 0..100 {
        disk.write(&park_event());
    }
    disk.seal_current();

    // Disk usage bounded: at most one event over budget (the one that triggered stop)
    let usage = disk.total_disk_usage();
    assert!(usage <= max_total_size + event_size);
    assert!(disk.read(0).len() < 100, "should have stopped writing");
    assert!(disk.writer.is_stopped());
}

/// Files that end a few bytes over their limit must not make the writer stop
/// while eviction can free space.
#[test]
fn test_writer_stops_on_tiny_overshoot_after_eviction() {
    let max_file_size = 200;
    let num_files = 100u64;
    let max_total_size = max_file_size * num_files;
    let mut disk = Disk::rotating(max_file_size, max_total_size);
    for i in 0..5000 {
        disk.write(&park_event());
        assert!(!disk.writer.is_stopped(), "writer stopped at event {i}");
    }
}

#[test]
fn test_rotating_writer_file_naming() {
    let event_size = 11u64;
    let mut disk = Disk::rotating(HEADER_SIZE + event_size, 100000);
    for _ in 0..5 {
        disk.write(&park_event());
    }
    disk.seal_current();
    // With rotate-after-overflow, each file gets 2 events (1 fits + 1 overflows).
    // 5 events → 3 files (2+2+1).
    for i in 0..3 {
        let file = rotating_file(i);
        assert!(disk.has_file(&file), "File {file} should exist");
    }
}

#[test]
fn test_write_batch_across_rotation_boundary() {
    let event_size = 11u64;
    let mut disk = Disk::rotating(HEADER_SIZE + event_size, 100000);
    let events: Vec<_> = (0..3).map(|_| park_event()).collect();
    disk.writer.write_atomic(&events);
    disk.settle().unwrap();
    disk.seal_current();
    let total: usize = (0..2).map(|i| disk.read(i).len()).sum();
    assert_eq!(total, 3);
    // The whole batch is in one file.
    assert_eq!(disk.read(0).len(), 3);
}

#[test]
fn test_rotated_files_have_valid_headers() {
    let event_size = 11u64;
    let mut disk = Disk::rotating(HEADER_SIZE + event_size, 100000);
    for _ in 0..3 {
        disk.write(&park_event());
    }
    disk.seal_current();
    // Each rotated file must be a self-contained, readable trace.
    let total: usize = (0..2).map(|i| disk.read(i).len()).sum();
    assert_eq!(total, 3);
}

#[test]
fn test_flush_after_stop() {
    let event_size = 11u64;
    let max_total_size = HEADER_SIZE + event_size;
    let mut disk = Disk::rotating(10000, max_total_size);
    for _ in 0..5 {
        disk.write(&park_event());
    }
    let flushes = disk.flushes;
    // Repeated flush after stop should not error
    disk.flush_all();
    disk.flush_all();
    assert_eq!(disk.flushes, flushes);
}

#[test]
fn test_mixed_event_sizes() {
    let mut disk = Disk::rotating(HEADER_SIZE + 15, 100000);
    // WorkerPark = 11 bytes, WorkerUnpark = 15 bytes
    let events = [
        RawEvent::WorkerPark {
            timestamp_nanos: 1000,
            worker_id: WorkerId(0),
            worker_local_queue_depth: 2,
            cpu_time_nanos: 0,
        },
        RawEvent::WorkerPark {
            timestamp_nanos: 2000,
            worker_id: WorkerId(1),
            worker_local_queue_depth: 0,
            cpu_time_nanos: 0,
        },
        RawEvent::WorkerUnpark {
            timestamp_nanos: 3000,
            worker_id: WorkerId(0),
            worker_local_queue_depth: 2,
            cpu_time_nanos: 0,
            sched_wait_delta_nanos: 0,
        },
    ];
    for e in &events {
        disk.write(e);
    }
    disk.seal_current();
    let mut total = 0;
    for i in 0..10 {
        if disk.has_file(&rotating_file(i)) {
            total += disk.read(i).len();
        }
    }
    assert_eq!(total, 3);
}

#[test]
fn test_max_file_size_smaller_than_header() {
    // max_file_size smaller than header — every event triggers rotation
    let mut disk = Disk::rotating(5, 100000);
    for _ in 0..3 {
        disk.write(&park_event());
    }
    disk.seal_current();
    let total: usize = (0..10)
        .map(|i| if disk.has_file(&rotating_file(i)) { disk.read(i).len() } else { 0 })
        .sum();
    assert_eq!(total, 3);
}

#[test]
fn test_event_exactly_on_max_file_size_boundary() {
    let event_size = 11u64;
    // Exactly fits header + 1 event
    let mut disk = Disk::rotating(HEADER_SIZE + event_size, 100000);
    for _ in 0..2 {
        disk.write(&park_event());
    }
    disk.seal_current();
    // The first event fits exactly (no overflow), so the second event overflows
    // and stays in the same file, then rotation happens.
    assert_eq!(disk.read(0).len(), 2);
}

#[test]
fn test_active_suffix_while_writing() {
    let mut disk = Disk::rotating(1024, 100000);
    disk.write(&park_event());
    disk.flush_all();
    assert!(disk.has_file("trace.0.bin.active"), "active file should exist while writing");
    assert!(!disk.has_file("trace.0.bin"), "sealed file should not exist yet");
}

#[test]
fn test_rotation_seals_previous_file() {
    let event_size = 11u64;
    let mut disk = Disk::rotating(HEADER_SIZE + event_size, 100000);
    disk.write(&park_event());
    disk.write(&park_event());
    disk.flush_all();
    // First file should be sealed (.bin), second should be active
    assert!(disk.has_file("trace.0.bin"), "rotated file should be sealed");
    assert!(!disk.has_file("trace.0.bin.active"), "rotated file should not be active");
    assert!(disk.has_file("trace.1.bin.active"), "current file should be active");
    assert!(!disk.has_file("trace.1.bin"), "current file should not be sealed");
    assert!(disk.writer.take_rotated());
    assert!(!disk.writer.take_rotated());
    assert_eq!(disk.writer.next_index(), 2);
}

#[test]
fn test_seal_renames_current_file() {
    let mut disk = Disk::rotating(1024, 100000);
    disk.write(&park_event());
    disk.seal_current();
    assert!(disk.has_file("trace.0.bin"), "file should be sealed after seal()");
    assert!(!disk.has_file("trace.0.bin.active"), "active file should be gone after seal()");
}

#[test]
fn test_single_file_no_active_suffix() {
    let mut disk = Disk::single_file("test.bin", "test");
    disk.write(&park_event());
    disk.flush_all();
    // single_file writes directly to the given path, no .active suffix
    assert!(disk.has_file("test.bin"));
    assert!(!disk.has_file("test.bin.active"));
    disk.seal_current();
    assert!(disk.has_file("test.bin"));
}

#[test]
fn test_segment_metadata_roundtrip() {
    let mut disk = Disk::single_file("trace.bin", "trace");
    disk.set_metadata(&[("service", "checkout-api"), ("host", "i-0abc123")]);
    disk.write(&park_event());
    disk.flush_all();
    assert_eq!(disk.read_file("trace.bin").len(), 1); // only the park event
    let metadata = disk.metadata("trace.bin");
    assert_eq!(metadata.len(), 2);
    assert_eq!(metadata[0], ("service".to_string(), "checkout-api".to_string()));
    assert_eq!(metadata[1], ("host".to_string(), "i-0abc123".to_string()));
}

#[test]
fn test_segment_metadata_written_in_every_rotated_file() {
    let event_size = 11u64; // WorkerPark
    let metadata_size = wire_event_size(&TelemetryEvent::SegmentMetadata {
        timestamp_nanos: 0,
        entries: vec![("k".into(), "v".into())],
    });
    // File fits header + metadata + 1 event, rotation on 2nd event
    let mut disk = Disk::rotating(HEADER_SIZE + metadata_size + event_size, 100_000);
    disk.set_metadata(&[("k", "v")]);
    for _ in 0..3 {
        disk.write(&park_event());
    }
    disk.flush_all();
    disk.seal_current();
    let files: Vec<String> = disk.files.keys().filter(|n| n.ends_with(".bin")).cloned().collect();
    assert!(files.len() >= 2, "expected at least 2 files from rotation");
    for file in &files {
        assert_eq!(disk.metadata(file), vec![("k".to_string(), "v".to_string())]);
    }
}

#[test]
fn test_segment_metadata_empty_entries() {
    let mut disk = Disk::single_file("trace.bin", "trace");
    disk.set_metadata(&[]);
    disk.write(&park_event());
    disk.flush_all();
    assert_eq!(disk.read_file("trace.bin").len(), 1);
    assert!(disk.metadata("trace.bin").is_empty());
}

#[test]
fn failed_removal_does_not_stop_the_writer() {
    let max_file_size = HEADER_SIZE + 22;
    let mut disk = Disk::rotating(max_file_size, max_file_size * 3);
    disk.removable = false;
    for _ in 0..10 {
        disk.write(&park_event());
    }
    assert!(!disk.writer.is_stopped());
    // What could not be removed is no longer counted.
    assert!(disk.writer.total_size() <= max_file_size * 3);
    assert!(disk.total_disk_usage() > disk.writer.total_size());
}

fn location(address: usize, line: u32) -> SpawnLocation {
    SpawnLocation { address, file: "src/main.rs".into(), line, column: 9 }
}

/// Each rotated file is self-contained and readable: whatever it refers to is
/// defined in it, before its first use.
fn check_self_contained(disk: &Disk) -> usize {
    let mut polls = 0;
    for file in disk.files.values() {
        let mut locations = HashSet::new();
        let mut frames = HashSet::new();
        let mut names = HashSet::new();
        for e in &file.events {
            match e {
                TelemetryEvent::SpawnLocationDef { id, location } => {
                    assert!(location.contains(':'), "location should be file:line:col");
                    locations.insert(id.as_u16());
                }
                TelemetryEvent::PollStart { spawn_loc: SpawnLocRef::Defined(id), .. } => {
                    assert!(locations.contains(&id.as_u16()));
                    polls += 1;
                }
                TelemetryEvent::TaskSpawn { spawn_loc: SpawnLocRef::Defined(id), .. } => {
                    assert!(locations.contains(&id.as_u16()));
                }
                TelemetryEvent::CallframeDef { address, .. } => {
                    frames.insert(*address);
                }
                TelemetryEvent::ThreadNameDef { tid, .. } => {
                    names.insert(*tid);
                }
                TelemetryEvent::CpuSample { worker_id, tid, callchain, .. } => {
                    for address in callchain {
                        assert!(frames.contains(address));
                    }
                    if *worker_id == WorkerId::unknown() {
                        assert!(names.contains(tid));
                    }
                }
                _ => {}
            }
        }
    }
    polls
}

#[test]
fn test_spawn_locations_resolve_after_rotation() {
    let a = location(0x10, 1);
    let b = location(0x20, 2);
    let mut ew = EventWriter::new(Disk::rotating(100, 100_000));
    for i in 0..6u32 {
        let loc = if i % 2 == 0 { &a } else { &b };
        let task_id = TaskId::from_u32(i);
        ew.write_raw_event(RawEvent::TaskSpawn {
            timestamp_nanos: 1,
            task_id,
            location: loc.clone(),
        })
        .unwrap();
        ew.write_raw_event(RawEvent::PollStart {
            timestamp_nanos: (i as u64 + 1) * 1000,
            worker_id: WorkerId(0),
            worker_local_queue_depth: 0,
            task_id,
            location: loc.clone(),
        })
        .unwrap();
    }
    ew.flush().unwrap();
    assert!(ew.writer.files.len() > 1, "expected multiple files from rotation");
    let polls = check_self_contained(&ew.writer);
    assert_eq!(polls, 6, "all PollStart events should be readable across files");
}

#[test]
fn cpu_samples_stay_self_contained_across_rotation() {
    let mut ew = EventWriter::new(Disk::rotating(60, 1_000_000));
    ew.cpu_flush = Some(CpuFlushState::new(true));
    let mut roles = HashMap::new();
    roles.insert(1, ThreadRole::Worker(3));
    roles.insert(2, ThreadRole::Blocking);
    let resolve = |address: u64| SymbolInfo {
        name: if address % 2 == 0 { Some(format!("fn_{address}")) } else { None },
        code_info: Some(CodeInfo { file: "lib.rs".into(), line: Some(address as u32) }),
    };
    for round in 0..5u64 {
        let sample = |tid: u32, source: CpuSampleSource| RawCpuSample {
            tid,
            timestamp_nanos: round,
            callchain: vec![round, round + 1, 100],
            source,
        };
        let profiled = vec![
            (sample(1, CpuSampleSource::CpuProfile), Some("worker".to_string())),
            (sample(9, CpuSampleSource::CpuProfile), Some("other".to_string())),
        ];
        let switched = vec![sample(1, CpuSampleSource::SchedEvent)];
        ew.flush_cpu(profiled, switched, &roles, &resolve);
        ew.write_raw_event(RawEvent::PollStart {
            timestamp_nanos: round,
            worker_id: WorkerId(3),
            worker_local_queue_depth: 0,
            task_id: TaskId::from_u32(1),
            location: location(round as usize % 2, 7),
        })
        .unwrap();
    }
    ew.flush().unwrap();
    ew.seal().unwrap();
    assert!(ew.writer.files.len() > 2);
    assert_eq!(check_self_contained(&ew.writer), 5);
    let samples = ew
        .writer
        .files
        .values()
        .flat_map(|f| f.events.iter())
        .filter(|e| matches!(e, TelemetryEvent::CpuSample { .. }))
        .count();
    assert_eq!(samples, 15);
}

#[test]
fn rotation_on_demand_seals_the_segment_and_begins_another() {
    let mut disk = Disk::rotating(10_000, 100_000);
    disk.set_metadata(&[("host", "a")]);
    disk.write(&park_event());
    disk.writer.rotate();
    disk.settle().unwrap();
    assert!(disk.writer.take_rotated());
    assert_eq!(disk.read(0).len(), 1);
    assert_eq!(disk.current, "trace.1.bin.active");
    assert_eq!(disk.metadata("trace.1.bin.active"), vec![("host".to_string(), "a".to_string())]);
    disk.write(&park_event());
    disk.write(&park_event());
    disk.seal_current();
    assert_eq!(disk.read(1).len(), 2);
}

#[test]
fn stopped_writer_does_not_rotate() {
    let mut disk = Disk::rotating(HEADER_SIZE + 110, HEADER_SIZE + 5);
    disk.write(&park_event());
    assert!(disk.writer.is_stopped());
    let (files, usage) = (disk.files.len(), disk.total_disk_usage());
    disk.writer.rotate();
    assert!(disk.writer.is_idle());
    for _ in 0..5 {
        disk.write(&park_event());
    }
    disk.flush_all();
    assert_eq!(files, 1);
    assert_eq!(disk.files.len(), files);
    assert_eq!(disk.total_disk_usage(), usage);
    assert_eq!(usage, HEADER_SIZE + 11);
}

#[test]
fn rotation_is_due_once_the_period_is_over() {
    let period = Some(Duration::from_secs(3));
    assert!(!rotation_due(period, Duration::from_millis(2999)));
    assert!(rotation_due(period, Duration::from_secs(3)));
    assert!(rotation_due(period, Duration::from_secs(4)));
    assert!(!rotation_due(None, Duration::from_secs(4)));
}

#[test]
fn locations_are_defined_once_in_a_file() {
    let mut disk = Disk::rotating(120, 1_000_000);
    for i in 0..40u32 {
        disk.write(&RawEvent::TaskSpawn {
            timestamp_nanos: 1,
            task_id: TaskId::from_u32(i),
            location: location(i as usize % 3, 1 + i % 3),
        });
    }
    assert!(disk.files.len() > 3);
    for file in disk.files.values() {
        let mut defined = HashSet::new();
        for event in &file.events {
            if let TelemetryEvent::SpawnLocationDef { id, .. } = event {
                assert!(defined.insert(id.as_u16()), "defined again");
            }
        }
        assert!(defined.len() <= 3);
    }
}

/// Notes what is asked of it; the writes of poll ends fail.
struct Log {
    calls: Vec<String>,
    flush_fails: bool,
}

impl TraceWriter for Log {
    fn write_event(&mut self, event: &RawEvent) -> std::io::Result<()> {
        self.write_atomic(&vec![event.clone()])
    }

    fn flush(&mut self) -> std::io::Result<()> {
        self.calls.push("flush".to_string());
        if self.flush_fails {
            Err(std::io::Error::other("flush"))
        } else {
            Ok(())
        }
    }

    fn take_rotated(&mut self) -> bool {
        false
    }

    fn write_atomic(&mut self, events: &Vec<RawEvent>) -> std::io::Result<()> {
        let mut kinds = Vec::new();
        for event in events {
            kinds.push(match event {
                RawEvent::CpuSample(data) => {
                    format!("sample {}@{}", data.tid, data.worker_id.as_u64())
                }
                RawEvent::ThreadNameDef(data) => format!("name {}", data.name),
                RawEvent::PollEnd { timestamp_nanos, .. } => format!("end {timestamp_nanos}"),
                RawEvent::QueueSample { global_queue_depth, .. } => {
                    format!("depth {global_queue_depth}")
                }
                _ => "other".to_string(),
            });
        }
        let failed = kinds.iter().any(|k| k.starts_with("end"));
        self.calls.push(kinds.join(" + "));
        if failed {
            Err(std::io::Error::other("write"))
        } else {
            Ok(())
        }
    }

    fn seal(&mut self) -> std::io::Result<()> {
        Ok(())
    }
}

#[test]
fn flush_cycle_writes_samples_then_batches_then_flushes() {
    let sample = |tid: u32, source: CpuSampleSource| RawCpuSample {
        tid,
        timestamp_nanos: 5,
        callchain: vec![1],
        source,
    };
    let resolve = |_: u64| SymbolInfo { name: None, code_info: None };
    let mut shared = SharedState::new(0);
    shared.enable();
    shared.register_thread(4, ThreadRole::Worker(2));
    shared.record_event(1, RawEvent::PollEnd { timestamp_nanos: 6, worker_id: WorkerId(0) });
    shared.record_queue_sample(1, 7, 30);
    shared.bump_drain_epoch();
    shared.drain_all_tl_buffers();
    // A buffer that is behind the epoch empties itself; what comes next stays.
    shared.record_queue_sample(2, 8, 40);
    shared.record_queue_sample(2, 9, 50);

    let mut ew = EventWriter::new(Log { calls: Vec::new(), flush_fails: false });
    ew.cpu_flush = Some(CpuFlushState::new(false));
    let profiled = vec![(sample(9, CpuSampleSource::CpuProfile), Some("pool".to_string()))];
    let switched = vec![sample(4, CpuSampleSource::SchedEvent)];
    assert!(ew.flush_trace(&mut shared, profiled, switched, &resolve).is_ok());
    let unknown = WorkerId::unknown().as_u64();
    assert_eq!(
        ew.writer.calls,
        vec![
            format!("name pool + sample 9@{unknown}"),
            "sample 4@2".to_string(),
            "end 6".to_string(),
            "depth 30".to_string(),
            "depth 40".to_string(),
            "flush".to_string(),
        ]
    );
    assert!(shared.collector.next().is_none());

    // What is still in a thread's buffer comes with a later cycle.
    shared.bump_drain_epoch();
    shared.drain_all_tl_buffers();
    ew.writer.calls.clear();
    ew.writer.flush_fails = true;
    assert!(ew.flush_trace(&mut shared, Vec::new(), Vec::new(), &resolve).is_err());
    assert_eq!(ew.writer.calls, vec!["depth 50".to_string(), "flush".to_string()]);
}

#[test]
fn frames_and_names_are_defined_once_in_a_file() {
    let mut ew = EventWriter::new(Disk::rotating(120, 1_000_000));
    ew.cpu_flush = Some(CpuFlushState::new(true));
    let resolve = |_: u64| SymbolInfo { name: None, code_info: None };
    for round in 0..30u64 {
        let sample = RawCpuSample {
            tid: 40 + (round % 2) as u32,
            timestamp_nanos: round,
            callchain: vec![round % 3, 100, round % 3, 100],
            source: CpuSampleSource::CpuProfile,
        };
        let profiled = vec![(sample, Some("pool".to_string()))];
        ew.flush_cpu(profiled, Vec::new(), &HashMap::new(), &resolve);
    }
    assert!(ew.writer.files.len() > 3);
    let mut definitions = 0;
    for file in ew.writer.files.values() {
        let mut frames = HashSet::new();
        let mut names = HashSet::new();
        for event in &file.events {
            match event {
                TelemetryEvent::CallframeDef { address, .. } => {
                    assert!(frames.insert(*address), "frame defined again");
                }
                TelemetryEvent::ThreadNameDef { tid, .. } => {
                    assert!(names.insert(*tid), "name defined again");
                }
                _ => {}
            }
        }
        definitions += frames.len() + names.len();
    }
    assert!(definitions > 0);
}

#[test]
fn overshoot_is_the_last_event_written() {
    let budget = HEADER_SIZE + 25;
    let mut disk = Disk::rotating(1_000, budget);
    for i in 0..50 {
        disk.write(&park_event());
        if disk.writer.is_stopped() {
            // Two events of 11 bytes fit, the third one is the last.
            assert_eq!(disk.total_disk_usage(), HEADER_SIZE + 33);
            assert!(disk.total_disk_usage() <= budget + 11);
            assert_eq!(disk.files.len(), 1);
            assert!(i >= 2);
        } else {
            assert!(disk.total_disk_usage() <= budget);
            assert!(i < 2);
        }
    }
}
