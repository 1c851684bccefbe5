//! Buffers, the collector and the state that records events.

use dial9_tokio_telemetry::telemetry::buffer::{
    drain_to_collector, record_event, ThreadLocalBuffer, BUFFER_CAPACITY,
};
use dial9_tokio_telemetry::telemetry::collector::{Batch, CentralCollector};
use dial9_tokio_telemetry::telemetry::event_list::EventList;
use dial9_tokio_telemetry::telemetry::events::{
    CpuSampleData, CpuSampleSource, RawEvent, SpawnLocation, TelemetryEvent, ThreadRole,
};
use dial9_tokio_telemetry::telemetry::format::WorkerId;
use dial9_tokio_telemetry::telemetry::recorder::builder::{
    BuildStep, FlushTicker, TickActions, TracedRuntime,
};
use dial9_tokio_telemetry::telemetry::recorder::cpu_flush_state::{CpuFlushState, SymbolInfo};
use dial9_tokio_telemetry::telemetry::recorder::flush_state::FlushState;
use dial9_tokio_telemetry::telemetry::recorder::install::{
    installed_hooks, on_hook, resolve_current_worker, Hook, HookCall,
};
use dial9_tokio_telemetry::telemetry::recorder::retrying_writer::{
    RetryingEventWriter, SegmentWriter, TelemetryRecorder, WriteAtomicResult,
};
use dial9_tokio_telemetry::telemetry::recorder::shared_state::{BufferState, SharedState};
use dial9_tokio_telemetry::telemetry::recorder::worker_thread::WorkerThread;
use dial9_tokio_telemetry::telemetry::task_metadata::TaskId;
use dial9_tokio_telemetry::telemetry::writer::NullWriter;
use dial9_tokio_telemetry::telemetry::cpu_profile::{CpuProfilingConfig, SchedEventConfig};

fn poll_end_event() -> RawEvent {
    RawEvent::PollEnd { timestamp_nanos: 1000, worker_id: WorkerId::from(0usize) }
}

fn location(address: usize) -> SpawnLocation {
    SpawnLocation { address, file: "src/main.rs".into(), line: 10, column: 5 }
}

#[test]
fn test_buffer_creation() {
    let buffer = ThreadLocalBuffer::new();
    assert_eq!(buffer.events.len(), 0);
    assert_eq!(buffer.events.capacity(), BUFFER_CAPACITY);
    assert_eq!(buffer.event_count, 0);
}

#[test]
fn test_record_event() {
    let mut buffer = ThreadLocalBuffer::new();
    buffer.record_event(poll_end_event());
    assert_eq!(buffer.events.len(), 1);
    assert_eq!(buffer.event_count, 1);
}

#[test]
fn test_should_flush() {
    let mut buffer = ThreadLocalBuffer::new();
    assert!(!buffer.should_flush());
    for _ in 0..BUFFER_CAPACITY {
        buffer.record_event(poll_end_event());
    }
    assert!(buffer.should_flush());
}

#[test]
fn test_flush() {
    let mut buffer = ThreadLocalBuffer::new();
    buffer.record_event(poll_end_event());
    let batch = buffer.flush();
    assert_eq!(batch.raw_events.len(), 1);
    assert_eq!(buffer.events.len(), 0);
    assert_eq!(buffer.event_count, 0);
    assert_eq!(buffer.events.capacity(), BUFFER_CAPACITY);
}

#[test]
fn full_buffer_goes_to_the_collector() {
    let mut buffer = ThreadLocalBuffer::new();
    let mut collector = CentralCollector::new();
    for _ in 0..BUFFER_CAPACITY {
        record_event(&mut buffer, poll_end_event(), &mut collector);
    }
    assert_eq!(buffer.event_count, 0);
    assert_eq!(collector.next().unwrap().raw_events.len(), BUFFER_CAPACITY);
    record_event(&mut buffer, poll_end_event(), &mut collector);
    drain_to_collector(&mut buffer, &mut collector);
    assert_eq!(collector.next().unwrap().event_count, 1);
    drain_to_collector(&mut buffer, &mut collector);
    assert!(collector.next().is_none());
}

fn dummy_batch(size: usize) -> Batch {
    Batch { raw_events: Vec::new(), encoded_bytes: vec![0u8; size], event_count: 1 }
}

#[test]
fn test_drain_clears_buffers() {
    let mut collector = CentralCollector::new();
    collector.accept_flush(dummy_batch(10));
    assert!(collector.next().is_some());
    assert!(collector.next().is_none());
}

fn drain(collector: &mut CentralCollector) -> Vec<Vec<u8>> {
    let mut out = vec![];
    while let Some(batch) = collector.next() {
        out.push(batch.encoded_bytes);
    }
    out
}

#[test]
fn test_bounded_evicts_oldest_when_full() {
    let mut collector = CentralCollector::with_capacity(2);
    collector.accept_flush(dummy_batch(1)); // oldest — will be evicted
    collector.accept_flush(dummy_batch(2));
    collector.accept_flush(dummy_batch(3)); // evicts first
    assert_eq!(collector.take_dropped_batches(), 1);
    let drained = drain(&mut collector);
    assert_eq!(drained.len(), 2);
    // oldest (len=1) was evicted; remaining are len=2 and len=3
    assert_eq!(drained[0].len(), 2);
    assert_eq!(drained[1].len(), 3);
    assert_eq!(collector.take_dropped_batches(), 0);
}

#[test]
fn test_shared_state_no_spawn_location_fields() {
    // All interning is in FlushState (flush thread local).
    let _recorder = TelemetryRecorder::new(NullWriter, 0);
    // Just verify it constructs without panic
}

#[test]
fn test_flush_state_intern() {
    let mut fs = FlushState::new();
    let loc = location(0x1000);
    let id1 = fs.intern(&loc);
    let id2 = fs.intern(&loc);
    assert_eq!(id1, id2);
    assert_ne!(id1.as_u16(), 0);
}

#[test]
fn test_flush_state_on_rotate_clears_emitted() {
    let mut fs = FlushState::new();
    let loc = location(0x1000);
    let id = fs.intern(&loc);
    let mut defs = EventList::new();
    fs.collect_def(id, &mut defs);
    assert_eq!(defs.len(), 1);
    match defs.get(0) {
        Some(TelemetryEvent::SpawnLocationDef { location, .. }) => {
            assert_eq!(location, "src/main.rs:10:5")
        }
        other => panic!("expected a definition, got {other:?}"),
    }
    assert!(fs.is_emitted(id));
    fs.on_rotate();
    assert!(!fs.is_emitted(id));
}

/// A SharedState with recording enabled.
fn enabled_shared_state() -> SharedState {
    let mut ss = SharedState::new(0);
    ss.enable();
    ss
}

#[test]
fn record_event_registers_tl_buffer_handle() {
    let mut ss = enabled_shared_state();
    // First event on this thread should register a handle.
    ss.record_event(1, poll_end_event());
    assert_eq!(ss.tl_buffers.len(), 1);
    assert!(matches!(ss.tl_buffers[0].buffer, BufferState::Live(_)));
}

#[test]
fn second_record_event_does_not_re_register() {
    let mut ss = enabled_shared_state();
    ss.record_event(1, poll_end_event());
    ss.record_event(1, poll_end_event());
    assert_eq!(ss.tl_buffers.len(), 1);
}

#[test]
fn drain_all_tl_buffers_flushes_idle_buffer() {
    let mut ss = enabled_shared_state();
    // Write an event (won't self-flush — buffer is not full).
    ss.record_event(1, poll_end_event());
    // Nothing in the collector yet (buffer not full).
    assert!(ss.collector.next().is_none());
    // Bump epoch so the idle buffer (epoch 0) is stale, then drain.
    ss.bump_drain_epoch();
    ss.drain_all_tl_buffers();
    let batch = ss.collector.next().expect("expected a batch after drain");
    assert!(batch.event_count > 0);
}

#[test]
fn drain_all_tl_buffers_from_another_thread() {
    let mut ss = enabled_shared_state();
    // Events of another thread.
    ss.record_event(2, poll_end_event());
    ss.record_event(2, poll_end_event());
    // Bump epoch so the buffer is stale, then drain.
    ss.bump_drain_epoch();
    ss.drain_all_tl_buffers();
    let batch = ss.collector.next().expect("expected a batch after drain");
    assert_eq!(batch.event_count, 2);
}

#[test]
fn drain_skips_busy_buffer() {
    let mut ss = enabled_shared_state();
    ss.record_event(1, poll_end_event());
    // Bump epoch to 1 (simulates the tick before the drain).
    ss.bump_drain_epoch();
    // Simulate a self-flush by stamping the current epoch.
    ss.tl_buffers[0].flush_epoch = 1;
    ss.drain_all_tl_buffers();
    // Buffer should NOT have been flushed — collector is empty.
    assert!(ss.collector.next().is_none());
}

#[test]
fn drain_prunes_dead_handles() {
    let mut ss = enabled_shared_state();
    ss.record_event(2, poll_end_event());
    // The thread has exited.
    ss.tl_buffers[0].buffer = BufferState::Gone;
    ss.drain_all_tl_buffers();
    assert_eq!(ss.tl_buffers.len(), 0, "dead handle should have been pruned");
}

#[test]
fn disabled_state_records_nothing() {
    let mut ss = SharedState::new(0);
    ss.record_event(1, poll_end_event());
    ss.record_queue_sample(1, 5, 3);
    assert!(ss.tl_buffers.is_empty());
    ss.enable();
    ss.record_queue_sample(1, 5, 3);
    ss.disable();
    ss.record_event(1, poll_end_event());
    ss.bump_drain_epoch();
    ss.drain_all_tl_buffers();
    assert_eq!(ss.collector.next().unwrap().event_count, 1);
}

#[test]
fn hooks_are_installed_in_order() {
    let base = vec![
        Hook::ThreadPark,
        Hook::ThreadUnpark,
        Hook::BeforeTaskPoll,
        Hook::AfterTaskPoll,
        Hook::ThreadStart,
        Hook::ThreadStop,
    ];
    assert_eq!(installed_hooks(false), base);
    let mut with_spawn = base.clone();
    with_spawn.insert(4, Hook::TaskSpawn);
    assert_eq!(installed_hooks(true), with_spawn);
}

#[test]
fn hooks_record_their_events() {
    let mut ss = enabled_shared_state();
    let mut worker = WorkerThread::new();
    let threads = Some(vec![Some(11), Some(22), None]);
    let id = resolve_current_worker(&mut ss, &mut worker, 22, 4711, &threads);
    assert_eq!(id, Some(1));
    assert_eq!(ss.thread_roles.get(&4711), Some(&ThreadRole::Worker(1)));
    // The answer is kept, whatever is asked later.
    assert_eq!(resolve_current_worker(&mut ss, &mut worker, 11, 1, &threads), Some(1));
    assert_eq!(ss.thread_roles.len(), 1);

    let park = HookCall::ThreadPark { cpu_time_nanos: 5, wait_time_ns: Some(100) };
    on_hook(&mut ss, &mut worker, 9, 1000, id, Some(3), park);
    let unpark = HookCall::ThreadUnpark { cpu_time_nanos: 6, wait_time_ns: Some(130) };
    on_hook(&mut ss, &mut worker, 9, 2000, id, Some(4), unpark);
    let task = TaskId::from_u32(77);
    let start = HookCall::BeforeTaskPoll { task_id: task, location: location(1) };
    on_hook(&mut ss, &mut worker, 9, 3000, id, None, start);
    on_hook(&mut ss, &mut worker, 9, 4000, None, None, HookCall::AfterTaskPoll);
    let spawn = HookCall::TaskSpawn { task_id: task, location: location(1) };
    on_hook(&mut ss, &mut worker, 9, 5000, id, None, spawn);

    ss.bump_drain_epoch();
    ss.drain_all_tl_buffers();
    let events = ss.collector.next().unwrap().raw_events;
    assert_eq!(events.len(), 5);
    match &events[0] {
        RawEvent::WorkerPark { timestamp_nanos, worker_id, worker_local_queue_depth, .. } => {
            assert_eq!(*timestamp_nanos, 1000);
            assert_eq!(worker_id.as_u64(), 1);
            assert_eq!(*worker_local_queue_depth, 3);
        }
        other => panic!("expected a park, got {other:?}"),
    }
    match &events[1] {
        RawEvent::WorkerUnpark { sched_wait_delta_nanos, .. } => {
            assert_eq!(*sched_wait_delta_nanos, 30)
        }
        other => panic!("expected an unpark, got {other:?}"),
    }
    match &events[2] {
        RawEvent::PollStart { worker_local_queue_depth, task_id, .. } => {
            assert_eq!(*worker_local_queue_depth, 0);
            assert_eq!(*task_id, task);
        }
        other => panic!("expected a poll start, got {other:?}"),
    }
    match &events[3] {
        RawEvent::PollEnd { worker_id, .. } => assert_eq!(*worker_id, WorkerId::unknown()),
        other => panic!("expected a poll end, got {other:?}"),
    }
    assert!(matches!(events[4], RawEvent::TaskSpawn { .. }));
}

#[test]
fn foreign_threads_are_remembered_as_no_workers() {
    let mut ss = enabled_shared_state();
    let mut worker = WorkerThread::new();
    assert_eq!(resolve_current_worker(&mut ss, &mut worker, 5, 1, &None), None);
    assert!(!worker.not_a_worker);
    let threads = Some(vec![Some(1)]);
    assert_eq!(resolve_current_worker(&mut ss, &mut worker, 5, 1, &threads), None);
    assert!(worker.not_a_worker);
    assert!(ss.thread_roles.is_empty());
}

#[test]
fn ticker_samples_and_flushes_when_due() {
    let ms = 1_000_000;
    let mut ticker = FlushTicker::new(0);
    let quiet = TickActions { sample: false, flush: false };
    assert_eq!(ticker.tick(5 * ms), quiet);
    assert_eq!(ticker.tick(10 * ms), TickActions { sample: true, flush: false });
    assert_eq!(ticker.tick(19 * ms), quiet);
    assert_eq!(ticker.tick(250 * ms), TickActions { sample: true, flush: true });
    assert_eq!(ticker.tick(255 * ms), quiet);
    // A clock that is set back stands still.
    assert_eq!(ticker.tick(0), quiet);
}

#[test]
fn failed_samplers_do_not_stop_the_build() {
    let mut sequence = TracedRuntime::builder()
        .with_cpu_profiling(CpuProfilingConfig::default())
        .with_sched_events(SchedEventConfig::default())
        .with_inline_callframe_symbols(true)
        .build();
    assert!(matches!(sequence.step(), BuildStep::StartCpuProfiler(_)));
    sequence.done(false);
    assert!(matches!(sequence.step(), BuildStep::StartSchedProfiler(_)));
    sequence.done(true);
    assert!(matches!(sequence.step(), BuildStep::InstallHooks(_)));
    sequence.done(true);
    assert!(matches!(sequence.step(), BuildStep::BuildRuntime));
    sequence.done(true);
    assert!(matches!(
        sequence.step(),
        BuildStep::SpawnFlushThread { inline_callframe_symbols: true }
    ));
    sequence.done(true);
    match sequence.step() {
        BuildStep::Ready(built) => {
            assert!(!built.enabled);
            assert!(!built.cpu_profiler);
            assert!(built.sched_profiler);
            assert!(built.inline_callframe_symbols);
        }
        other => panic!("expected a runtime, got {other:?}"),
    }
}

#[test]
fn failed_runtime_ends_the_build() {
    let mut sequence = TracedRuntime::build_and_start();
    sequence.done(true);
    assert!(matches!(sequence.step(), BuildStep::BuildRuntime));
    sequence.done(false);
    assert!(matches!(sequence.step(), BuildStep::Failed));
}

#[test]
fn recorder_flushes_and_disables() {
    let mut recorder = TelemetryRecorder::new(NullWriter, 0);
    recorder.enable();
    recorder.shared.collector.accept_flush(Batch {
        raw_events: vec![poll_end_event()],
        encoded_bytes: Vec::new(),
        event_count: 1,
    });
    assert!(recorder.flush().is_ok());
    assert!(recorder.shared.collector.next().is_none());
    assert!(recorder.shared.enabled);
    assert!(recorder.disable().is_ok());
    assert!(!recorder.shared.enabled);
}

/// Counts the events that it is given.
struct Counter {
    events: usize,
    flushes: usize,
}

impl SegmentWriter for Counter {
    fn write_atomic(&mut self, events: &EventList) -> std::io::Result<WriteAtomicResult> {
        self.events += events.len();
        Ok(WriteAtomicResult::Written)
    }

    fn take_rotated(&mut self) -> bool {
        false
    }

    fn flush(&mut self) -> std::io::Result<()> {
        self.flushes += 1;
        Ok(())
    }
}

fn drain_and_flush(recorder: &mut TelemetryRecorder<Counter>) -> usize {
    recorder.shared.bump_drain_epoch();
    recorder.shared.drain_all_tl_buffers();
    recorder.flush().unwrap();
    recorder.event_writer.writer.events
}

#[test]
fn nothing_is_recorded_between_disable_and_enable() {
    let mut recorder = TelemetryRecorder::new(Counter { events: 0, flushes: 0 }, 0);
    recorder.enable();
    recorder.shared.record_event(1, poll_end_event());
    recorder.shared.record_event(2, poll_end_event());
    assert_eq!(drain_and_flush(&mut recorder), 2);
    recorder.disable().unwrap();
    for thread in 0..100 {
        recorder.shared.record_event(thread, poll_end_event());
        recorder.shared.record_queue_sample(thread, 5, 1);
    }
    assert_eq!(drain_and_flush(&mut recorder), 2);
    assert_eq!(drain_and_flush(&mut recorder), 2);
    recorder.enable();
    recorder.shared.record_event(1, poll_end_event());
    assert_eq!(drain_and_flush(&mut recorder), 3);
    assert_eq!(recorder.event_writer.writer.flushes, 5);
}

#[test]
fn recorded_events_are_taken_oldest_first() {
    let mut ss = enabled_shared_state();
    for timestamp_nanos in [1, 2] {
        ss.record_event(
            timestamp_nanos,
            RawEvent::PollEnd { timestamp_nanos, worker_id: WorkerId::from(0usize) },
        );
    }
    ss.bump_drain_epoch();
    ss.drain_all_tl_buffers();
    let times: Vec<u64> = ss
        .take_recorded()
        .iter()
        .map(|e| match e {
            RawEvent::PollEnd { timestamp_nanos, .. } => *timestamp_nanos,
            other => panic!("expected a poll end, got {other:?}"),
        })
        .collect();
    assert_eq!(times, vec![1, 2]);
    assert!(ss.take_recorded().is_empty());
}

/// Rotates in place of the writes whose numbers it is given; keeps the others.
struct Rotating {
    rotate_at: Vec<usize>,
    writes: usize,
    files: Vec<Vec<String>>,
    rotated: bool,
}

fn rotating(rotate_at: &[usize]) -> Rotating {
    Rotating { rotate_at: rotate_at.to_vec(), writes: 0, files: vec![Vec::new()], rotated: false }
}

impl SegmentWriter for Rotating {
    fn write_atomic(&mut self, events: &EventList) -> std::io::Result<WriteAtomicResult> {
        self.writes += 1;
        if self.rotate_at.contains(&self.writes) {
            self.rotated = true;
            self.files.push(Vec::new());
            return Ok(WriteAtomicResult::Rotated);
        }
        for i in 0..events.len() {
            let text = match events.get(i).unwrap() {
                TelemetryEvent::CpuSample { tid, .. } => format!("sample {tid}"),
                TelemetryEvent::CallframeDef { address, .. } => format!("frame {address}"),
                TelemetryEvent::ThreadNameDef { tid, name } => format!("name {tid} {name}"),
                TelemetryEvent::SpawnLocationDef { .. } => "location".to_string(),
                _ => "event".to_string(),
            };
            self.files.last_mut().unwrap().push(text);
        }
        Ok(WriteAtomicResult::Written)
    }

    fn take_rotated(&mut self) -> bool {
        std::mem::take(&mut self.rotated)
    }

    fn flush(&mut self) -> std::io::Result<()> {
        Ok(())
    }
}

fn sample(tid: u32, callchain: Vec<u64>) -> RawEvent {
    RawEvent::CpuSample(Box::new(CpuSampleData {
        timestamp_nanos: 1,
        worker_id: WorkerId::unknown(),
        tid,
        source: CpuSampleSource::CpuProfile,
        thread_name: None,
        callchain,
    }))
}

fn no_symbol(_: u64) -> SymbolInfo {
    SymbolInfo { name: None, code_info: None }
}

#[test]
fn cpu_batch_is_collected_again_after_a_rotation() {
    let mut ew = RetryingEventWriter::new(rotating(&[4]));
    let mut cpu = CpuFlushState::new(true);
    cpu.intern_thread_name(7, "pool".to_string());
    ew.cpu_flush = Some(cpu);
    let spawn = RawEvent::TaskSpawn {
        timestamp_nanos: 1,
        task_id: TaskId::from_u32(1),
        location: location(1),
    };
    ew.write_raw_event(&spawn).unwrap();
    ew.write_cpu_event(sample(7, vec![1, 2, 1]), &no_symbol);
    ew.write_cpu_event(sample(7, vec![2, 3]), &no_symbol);
    ew.write_cpu_event(sample(7, vec![1]), &no_symbol);
    ew.write_raw_event(&spawn).unwrap();
    assert_eq!(
        ew.writer.files,
        vec![
            vec![
                "location", "event", "name 7 pool", "frame 1", "frame 2", "sample 7", "frame 3",
                "sample 7",
            ],
            vec!["name 7 pool", "frame 1", "sample 7", "location", "event"],
        ]
    );
}

#[test]
fn rotation_of_an_event_resets_the_cpu_state() {
    let mut ew = RetryingEventWriter::new(rotating(&[2]));
    ew.cpu_flush = Some(CpuFlushState::new(true));
    ew.write_cpu_event(sample(7, vec![1]), &no_symbol);
    ew.write_raw_event(&poll_end_event()).unwrap();
    ew.write_cpu_event(sample(7, vec![1]), &no_symbol);
    assert_eq!(
        ew.writer.files,
        vec![vec!["frame 1", "sample 7"], vec!["event", "frame 1", "sample 7"]]
    );
}

#[test]
fn cpu_batches_without_symbols_or_names_hold_samples_alone() {
    let mut ew = RetryingEventWriter::new(rotating(&[]));
    ew.write_cpu_event(sample(7, vec![1]), &no_symbol);
    assert_eq!(ew.writer.files, vec![Vec::<String>::new()]);
    ew.cpu_flush = Some(CpuFlushState::new(false));
    ew.write_cpu_event(sample(7, vec![1, 2]), &no_symbol);
    ew.write_cpu_event(sample(8, vec![1]), &no_symbol);
    assert_eq!(ew.writer.files, vec![vec!["sample 7", "sample 8"]]);
}
