//! Samplers, thread names and tracepoints.

use dial9_tokio_telemetry::telemetry::codec::{FieldType, FieldValue};
use dial9_tokio_telemetry::telemetry::cpu_profile::{
    comm_path, read_thread_name, sched_sample, tracepoint_event, tracepoint_fields, CpuProfiler,
    CpuProfilingConfig, EventSource, FieldDef, PerfSample, SchedEventConfig, Tracepoint,
    TracepointDef,
};
use dial9_tokio_telemetry::telemetry::events::CpuSampleSource;

fn sample(pid: u32, tid: u32) -> PerfSample {
    PerfSample { pid, tid, cpu: 4, time: 1234, callchain: vec![1, 2, 3] }
}

fn comm(name: &str) -> Option<String> {
    Some(format!("{name}\n"))
}

fn def() -> TracepointDef {
    TracepointDef {
        name: "sched_switch".to_string(),
        id: 314,
        fields: vec![FieldDef { name: "prev_pid".to_string(), field_type: FieldType::Varint }],
    }
}

#[test]
fn sampler_settings() {
    let cpu = CpuProfilingConfig::default().sampler();
    assert_eq!((cpu.frequency_hz, cpu.event_source, cpu.include_kernel), (99, EventSource::SwCpuClock, false));
    let sched = SchedEventConfig { include_kernel: true }.sampler();
    assert_eq!(
        (sched.frequency_hz, sched.event_source, sched.include_kernel),
        (1, EventSource::SwContextSwitches, true)
    );
    assert!(!SchedEventConfig::default().include_kernel);
    assert_eq!(def().sampler().event_source, EventSource::Tracepoint(314));
}

#[test]
fn thread_names_are_trimmed() {
    assert_eq!(comm_path(4711), "/proc/self/task/4711/comm");
    assert_eq!(read_thread_name(comm("tokio-worker")).as_deref(), Some("tokio-worker"));
    assert_eq!(read_thread_name(comm("  two words \t")).as_deref(), Some("two words"));
    assert_eq!(read_thread_name(comm("\u{a0}\u{3000}")), None);
    assert_eq!(read_thread_name(comm("")), None);
    assert_eq!(read_thread_name(None), None);
}

#[test]
fn profiler_drops_children_and_caches_names() {
    let mut profiler = CpuProfiler::new(100);
    assert!(!profiler.wants_name(&sample(101, 1)));
    assert!(profiler.accept(sample(101, 1), comm("child")).is_none());

    assert!(profiler.wants_name(&sample(100, 1)));
    let (raw, name) = profiler.accept(sample(100, 1), comm("main")).unwrap();
    assert_eq!((raw.tid, raw.timestamp_nanos), (1, 1234));
    assert_eq!(raw.callchain, vec![1, 2, 3]);
    assert_eq!(raw.source, CpuSampleSource::CpuProfile);
    assert_eq!(name.as_deref(), Some("main"));

    // The name is known now, and stays.
    assert!(!profiler.wants_name(&sample(100, 1)));
    let (_, name) = profiler.accept(sample(100, 1), comm("renamed")).unwrap();
    assert_eq!(name.as_deref(), Some("main"));

    // A thread without a name is asked for again.
    let (_, name) = profiler.accept(sample(100, 2), None).unwrap();
    assert_eq!(name, None);
    assert!(profiler.wants_name(&sample(100, 2)));
}

#[test]
fn context_switches_are_sched_events() {
    let raw = sched_sample(sample(100, 5));
    assert_eq!(raw.tid, 5);
    assert_eq!(raw.source, CpuSampleSource::SchedEvent);
}

#[test]
fn tracepoints_parse_and_resolve() {
    let t = Tracepoint::parse("sched:sched_switch").unwrap();
    assert_eq!(t.lookup(), Some(("sched".to_string(), "sched_switch".to_string())));
    let t = Tracepoint::parse("a:b:c").unwrap();
    assert_eq!(t.lookup(), Some(("a".to_string(), "b:c".to_string())));
    let e = Tracepoint::parse("sched_switch").unwrap_err();
    assert_eq!(e.message(), "expected 'subsystem:event', got 'sched_switch'");

    let t = Tracepoint::new("sched", String::from("sched_switch"));
    assert!(t.clone().validate(Err(std::io::Error::other("no tracefs"))).is_err());
    let t = t.validate(Ok(def())).unwrap();
    assert!(t.lookup().is_none());
    // Resolved once, the lookup is not asked again.
    let t = t.validate(Err(std::io::Error::other("gone"))).unwrap();
    assert_eq!(t.into_def(Err(std::io::Error::other("gone"))).unwrap().id, 314);
}

#[test]
fn tracepoint_records_start_with_worker_thread_and_cpu() {
    let fields: Vec<String> = tracepoint_fields(&def()).into_iter().map(|f| f.name).collect();
    assert_eq!(fields, vec!["worker_id", "tid", "cpu", "prev_pid"]);
    let e = tracepoint_event(&sample(1, 22), Some(vec![FieldValue::Varint(9)])).unwrap();
    assert_eq!((e.timestamp_ns, e.tid), (1234, 22));
    let values: Vec<u64> = e
        .values
        .iter()
        .map(|v| match v {
            FieldValue::Varint(n) => *n,
            other => panic!("expected a number, got {other:?}"),
        })
        .collect();
    assert_eq!(values, vec![0, 22, 4, 9]);
    assert!(tracepoint_event(&sample(1, 22), None).is_none());
}
