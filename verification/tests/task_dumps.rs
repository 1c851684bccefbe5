//! Task dumps and traced futures.

use dial9_tokio_telemetry::task_dumped::{
    capture_frames, FrameBuf, PollPlan, StackFrame, TaskDumped,
};
use dial9_tokio_telemetry::telemetry::events::RawEvent;
use dial9_tokio_telemetry::telemetry::recorder::shared_state::SharedState;
use dial9_tokio_telemetry::telemetry::task_dump_config::TaskDumpConfig;
use dial9_tokio_telemetry::telemetry::task_metadata::TaskId;
use dial9_tokio_telemetry::time::Duration;
use dial9_tokio_telemetry::traced::{
    enable_task_dumps, record_wake_event, take_task_dump_override, TaskDumpOverride, Traced,
};

const MS: u64 = 1_000_000;

fn frames(list: &[(u64, u64)]) -> Vec<StackFrame> {
    list.iter().map(|(ip, symbol)| StackFrame { ip: *ip, symbol: *symbol }).collect()
}

/// A walk: two frames of plumbing, the leaf, three frames of the task, the
/// root and what called it.
fn walk() -> Vec<StackFrame> {
    frames(&[(1, 10), (2, 20), (3, 99), (4, 40), (5, 50), (6, 60), (7, 70), (8, 80)])
}

#[test]
fn frames_above_leaf_and_below_root_are_kept() {
    let mut ips = vec![1000];
    capture_frames(&mut ips, &walk(), Some(70), 99);
    assert_eq!(ips, vec![1000, 4, 5, 6]);
    let mut ips = Vec::new();
    capture_frames(&mut ips, &walk(), None, 99);
    assert_eq!(ips, vec![4, 5, 6, 7, 8]);
    let mut ips = Vec::new();
    capture_frames(&mut ips, &walk(), None, 12345);
    assert!(ips.is_empty());
}

#[test]
fn frame_buf_keeps_chains_apart() {
    let mut buf = FrameBuf::new();
    assert!(!buf.has_data());
    buf.add_chain(&walk(), Some(60), 99);
    buf.add_chain(&Vec::new(), None, 99);
    buf.add_chain(&walk(), Some(80), 50);
    assert!(buf.has_data());
    let dumps = buf.emit(true, TaskId::from_u32(5), 42);
    let chains: Vec<Vec<u64>> = dumps.iter().map(|d| d.callchain.clone()).collect();
    assert_eq!(chains, vec![vec![4, 5], vec![], vec![6, 7]]);
    assert!(dumps.iter().all(|d| d.timestamp_ns == 42 && d.task_id == TaskId::from_u32(5)));
    assert!(!buf.has_data());
    buf.add_chain(&walk(), None, 99);
    assert!(buf.emit(false, TaskId::from_u32(5), 42).is_empty());
    assert!(!buf.has_data());
}

#[test]
fn real_stacks_are_walked() {
    let mut buf = FrameBuf::new();
    buf.capture_chain(None, 0);
    assert!(buf.has_data());
    assert_eq!(buf.emit(true, TaskId::from_u32(1), 0).len(), 1);
}

/// A task that sleeps `idle` nanoseconds between two polls.
fn sleep_once(idle: u64) -> usize {
    let config = TaskDumpConfig::default();
    let threshold = config.idle_threshold().as_nanos() as u64;
    let mut task = TaskDumped::new(TaskId::from_u32(1), threshold);
    assert_eq!(task.begin_poll(true, true, 0), PollPlan::Capture { emit: false });
    assert!(task.end_poll(false, true, false).is_empty());
    task.add_chain(&walk(), None, 99);
    task.captured(5);
    match task.begin_poll(true, true, 5 + idle) {
        PollPlan::Capture { emit } => {
            let dumps = task.end_poll(emit, true, true);
            for d in &dumps {
                assert_eq!(d.timestamp_ns, 5);
                assert!(!d.callchain.is_empty(), "callchain should not be empty");
            }
            dumps.len()
        }
        PollPlan::Forward => panic!("dumps are on"),
    }
}

#[test]
fn task_dump_emitted_for_long_sleep() {
    // 50ms sleep — well above 10ms threshold
    assert_eq!(sleep_once(50 * MS), 1);
    assert_eq!(sleep_once(10 * MS + 1), 1);
}

#[test]
fn no_task_dump_for_short_sleep() {
    // 1ms sleep — below 10ms threshold
    assert_eq!(sleep_once(MS), 0);
    assert_eq!(sleep_once(10 * MS), 0);
}

#[test]
fn stale_frames_are_dropped_while_dumps_are_off() {
    let mut task = TaskDumped::new(TaskId::from_u32(1), 0);
    task.begin_poll(true, true, 0);
    task.end_poll(false, true, false);
    task.capture_chain(None, 0);
    task.captured(1);
    assert_eq!(task.begin_poll(false, true, 100), PollPlan::Forward);
    assert_eq!(task.begin_poll(true, true, 200), PollPlan::Capture { emit: false });
    assert_eq!(task.begin_poll(true, false, 300), PollPlan::Forward);
}

#[test]
fn config_threshold_defaults_to_ten_milliseconds() {
    assert_eq!(TaskDumpConfig::default().idle_threshold(), Duration::from_millis(10));
    let config = TaskDumpConfig::builder().idle_threshold(Duration::from_secs(2)).build();
    assert_eq!(config.idle_threshold(), Duration::from_secs(2));
}

#[test]
fn override_reaches_one_task_only() {
    let mut flag = TaskDumpOverride::new();
    assert!(!take_task_dump_override(&mut flag));
    enable_task_dumps(&mut flag);
    let mut first = Traced::new(TaskId::from_u32(1));
    let mut second = Traced::new(TaskId::from_u32(2));
    assert!(!first.polled(false, false, &mut flag, false), "recording is off");
    assert!(first.polled(true, false, &mut flag, false));
    assert!(!second.polled(true, false, &mut flag, false));
    // The first task keeps it.
    assert!(first.polled(true, false, &mut flag, false));
    assert!(second.polled(true, false, &mut flag, true), "dumps are on for all");
}

#[test]
fn pending_frames_are_replaced_and_dropped() {
    let mut flag = TaskDumpOverride::new();
    let mut task = Traced::new(TaskId::from_u32(1));
    assert!(task.polled(true, false, &mut flag, true));
    task.add_backtrace(&walk());
    task.add_backtrace(&frames(&[(9, 9)]));
    task.captured(3);
    assert_eq!(task.pending_frames().len(), 2);
    assert_eq!(task.pending_frames()[0], vec![1, 2, 3, 4, 5, 6, 7, 8]);
    assert!(task.polled(true, false, &mut flag, true));
    assert!(task.pending_frames().is_empty());
    task.add_backtrace(&walk());
    assert!(!task.polled(true, true, &mut flag, true));
    assert!(task.pending_frames().is_empty());
}

#[test]
fn wakes_are_recorded_with_waker_and_worker() {
    let mut shared = SharedState::new(0);
    shared.enable();
    let woken = TaskId::from_u32(7);
    record_wake_event(&mut shared, 1, 10, Some(TaskId::from_u32(3)), woken, Some(254));
    record_wake_event(&mut shared, 1, 11, None, woken, Some(255));
    record_wake_event(&mut shared, 1, 12, None, woken, None);
    shared.bump_drain_epoch();
    shared.drain_all_tl_buffers();
    let events = shared.collector.next().unwrap().raw_events;
    let seen: Vec<(u64, u32, u32, u8)> = events
        .iter()
        .map(|e| match e {
            RawEvent::WakeEvent { timestamp_nanos, waker_task_id, woken_task_id, target_worker } => {
                (*timestamp_nanos, waker_task_id.to_u32(), woken_task_id.to_u32(), *target_worker)
            }
            other => panic!("expected a wake, got {other:?}"),
        })
        .collect();
    assert_eq!(seen, vec![(10, 3, 7, 254), (11, 0, 7, 255), (12, 0, 7, 255)]);
}

#[test]
fn backtraces_of_the_calling_thread_are_kept() {
    let mut task = Traced::new(TaskId::from_u32(1));
    task.capture_backtrace();
    task.capture_backtrace();
    assert_eq!(task.pending_frames().len(), 2);
    assert!(task.pending_frames().iter().all(|f| f.len() > 2 && f.iter().any(|ip| *ip != 0)));
}
