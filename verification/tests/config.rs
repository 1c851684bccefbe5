//! The configuration builder and the assembly of a runtime from it.

use dial9_tokio_telemetry::config::{
    Dial9Config, Dial9ConfigBuilder, Dial9ConfigBuilderError, Inner,
};
use dial9_tokio_telemetry::telemetry::cpu_profile::{CpuProfilingConfig, EventSource};
use dial9_tokio_telemetry::telemetry::recorder::builder::{BuildStep, TracedRuntimeBuilder};
use dial9_tokio_telemetry::telemetry_runtime::{
    AssemblyState, AssemblyStep, RuntimeAssembly, TelemetryRuntimeError,
};
use dial9_tokio_telemetry::time::Duration;
use std::cell::RefCell;
use std::rc::Rc;

type Knob = u32;

type Configure = Box<dyn FnOnce(TracedRuntimeBuilder) -> TracedRuntimeBuilder>;

fn config() -> Dial9ConfigBuilder<Knob, Configure> {
    Dial9Config::builder()
}

/// Runs an assembly; opening the writer or starting the traced runtime may
/// fail. Counts how often the tokio configurators are applied.
fn assemble(
    mut assembly: RuntimeAssembly<Knob>,
    writer_fails: bool,
    traced_fails: bool,
) -> (Result<bool, TelemetryRuntimeError>, u32) {
    let mut applied = 0;
    loop {
        let result = match assembly.step() {
            AssemblyStep::OpenWriter { .. } => {
                if writer_fails {
                    Err(std::io::Error::new(std::io::ErrorKind::NotFound, "no such directory"))
                } else {
                    Ok(())
                }
            }
            AssemblyStep::StartTraced(_) => {
                applied += assembly.tokio_configurators().len() as u32;
                if traced_fails {
                    Err(std::io::Error::other("no threads"))
                } else {
                    Ok(())
                }
            }
            AssemblyStep::BuildPlain => {
                applied += assembly.tokio_configurators().len() as u32;
                Ok(())
            }
            AssemblyStep::Done { guard } => return (Ok(guard), applied),
            AssemblyStep::Failed => break,
        };
        assembly.done(result);
    }
    let error = match assembly.state() {
        AssemblyState::Failed(TelemetryRuntimeError::RotatingWriter(_)) => {
            TelemetryRuntimeError::RotatingWriter(std::io::Error::other("writer"))
        }
        AssemblyState::Failed(TelemetryRuntimeError::TelemetryCore(_)) => {
            TelemetryRuntimeError::TelemetryCore(std::io::Error::other("core"))
        }
        _ => TelemetryRuntimeError::TokioRuntimeBuilder(std::io::Error::other("tokio")),
    };
    (Err(error), applied)
}

#[test]
fn builder_accepts_required_fields() {
    let config = config()
        .base_path("/tmp/trace.bin")
        .max_file_size(1024)
        .max_total_size(4096)
        .build()
        .expect("build should succeed");
    match config.0 {
        Inner::Enabled { base_path, max_file_size, max_total_size, rotation_period, .. } => {
            assert_eq!(base_path, "/tmp/trace.bin");
            assert_eq!(max_file_size, 1024);
            assert_eq!(max_total_size, 4096);
            assert_eq!(rotation_period, None);
        }
        Inner::Disabled { .. } => panic!("expected an enabled configuration"),
    }
}

#[test]
fn missing_required_fields_errors_with_all_missing_names() {
    match config().build() {
        Err(Dial9ConfigBuilderError::MissingFields(m)) => {
            assert_eq!(m.fields(), ["base_path", "max_file_size", "max_total_size"]);
        }
        Err(_) => panic!("expected MissingFields error"),
        Ok(_) => panic!("expected MissingFields error, got Ok"),
    }
}

#[test]
fn missing_some_required_fields_lists_only_missing() {
    match config().max_file_size(1024).build() {
        Err(Dial9ConfigBuilderError::MissingFields(m)) => {
            assert_eq!(m.fields(), ["base_path", "max_total_size"]);
        }
        Err(_) => panic!("expected MissingFields error"),
        Ok(_) => panic!("expected MissingFields error, got Ok"),
    }
}

#[test]
fn explicitly_enabled_still_requires_fields() {
    match config().enabled(true).build() {
        Err(Dial9ConfigBuilderError::MissingFields(_)) => {}
        Err(_) => panic!("expected MissingFields error"),
        Ok(_) => panic!("expected MissingFields error, got Ok"),
    }
}

#[test]
fn missing_fields_are_named_in_words() {
    let error = config().max_file_size(1024).build().unwrap_err();
    assert_eq!(
        error.message(),
        "missing required Dial9Config fields: base_path, max_total_size"
    );
}

#[test]
fn disabled_needs_nothing_and_keeps_tokio_knobs() {
    let config = config()
        .with_tokio(1)
        .enabled(false)
        .with_tokio(2)
        .build()
        .expect("nothing is required");
    match config.0 {
        Inner::Disabled { tokio_configurators } => assert_eq!(tokio_configurators, vec![1, 2]),
        Inner::Enabled { .. } => panic!("expected a disabled configuration"),
    }
}

#[test]
fn build_or_disabled_from_incomplete_builder_yields_disabled_runtime() {
    let cfg = config().build_or_disabled();
    let (result, _) = assemble(RuntimeAssembly::lenient(cfg), false, false);
    assert_eq!(result.expect("fallback runtime should build"), false);
}

#[test]
fn build_or_disabled_from_complete_builder_yields_enabled_runtime() {
    let cfg = config()
        .base_path("/tmp/trace.bin")
        .max_file_size(1024)
        .max_total_size(4096)
        .build_or_disabled();
    let (result, _) = assemble(RuntimeAssembly::lenient(cfg), false, false);
    assert_eq!(result.expect("enabled runtime should build"), true);
}

#[test]
fn build_or_disabled_cascades_runtime_io_failure_to_disabled() {
    let cfg = config()
        .base_path("/this/dir/does/not/exist/dial9_test_trace.bin")
        .max_file_size(1024)
        .max_total_size(4096)
        .build_or_disabled();
    let (result, _) = assemble(RuntimeAssembly::lenient(cfg), true, false);
    assert_eq!(result.expect("writer failure should cascade to disabled"), false);
}

#[test]
fn build_or_disabled_replays_with_tokio_configurators_on_cascade() {
    let cfg = config()
        .base_path("/this/dir/does/not/exist/dial9_test_trace.bin")
        .max_file_size(1024)
        .max_total_size(4096)
        .with_tokio(1)
        .build_or_disabled();
    let (result, applied) = assemble(RuntimeAssembly::lenient(cfg), true, false);
    assert_eq!(result.expect("cascade should produce a runtime"), false);
    assert!(applied >= 1, "configurator must run on the fallback build (was {applied})");
}

#[test]
fn lenient_core_failure_applies_configurators_twice() {
    let cfg = config()
        .base_path("trace.bin")
        .max_file_size(1024)
        .max_total_size(4096)
        .with_tokio(1)
        .build_or_disabled();
    let (result, applied) = assemble(RuntimeAssembly::lenient(cfg), false, true);
    assert_eq!(result.expect("cascade should produce a runtime"), false);
    assert_eq!(applied, 2);
}

#[test]
fn strict_build_still_bubbles_rotating_writer_error_on_unwritable_path() {
    let cfg = config()
        .base_path("/this/dir/does/not/exist/dial9_test_trace.bin")
        .max_file_size(1024)
        .max_total_size(4096)
        .build()
        .expect("validation passes; only runtime I/O should fail");
    let (result, _) = assemble(RuntimeAssembly::strict(cfg), true, false);
    assert!(
        matches!(result, Err(TelemetryRuntimeError::RotatingWriter(_))),
        "strict path must propagate RotatingWriter error, got {result:?}"
    );
}

#[test]
fn strict_build_bubbles_core_error() {
    let cfg = config()
        .base_path("trace.bin")
        .max_file_size(1024)
        .max_total_size(4096)
        .build()
        .unwrap();
    let (result, _) = assemble(RuntimeAssembly::strict(cfg), false, true);
    assert!(matches!(result, Err(TelemetryRuntimeError::TelemetryCore(_))));
}

#[test]
fn plain_runtime_failure_is_reported() {
    let cfg = config().enabled(false).build().unwrap();
    let mut assembly = RuntimeAssembly::strict(cfg);
    assert!(matches!(assembly.step(), AssemblyStep::BuildPlain));
    assembly.done(Err(std::io::Error::other("no threads")));
    assert!(matches!(
        assembly.state(),
        AssemblyState::Failed(TelemetryRuntimeError::TokioRuntimeBuilder(_))
    ));
}

#[test]
fn telemetry_runtime_error_display_and_source_chain() {
    let inner = std::io::Error::other("boom");
    let err = TelemetryRuntimeError::TelemetryCore(inner);
    let display = err.message();
    assert!(
        display.contains("telemetry core:"),
        "the text should label the variant, got: {display}"
    );
    assert!(
        display.contains("boom"),
        "the text should hold the inner message, got: {display}"
    );
    assert_eq!(display, "telemetry core: boom");
    let source = err.source();
    assert_eq!(source.to_string(), "boom");
    let err = TelemetryRuntimeError::TokioRuntimeBuilder(std::io::Error::other("x"));
    assert_eq!(err.message(), "tokio runtime builder: x");
}

#[test]
fn runtime_configurators_apply_in_order() {
    let config = config()
        .base_path("trace.bin")
        .max_file_size(1)
        .max_total_size(2)
        .rotation_period(Duration::from_secs(60))
        .with_runtime(Box::new(|b| b.with_task_tracking(false)))
        .with_runtime(Box::new(|b| {
            b.with_task_tracking(true).with_cpu_profiling(CpuProfilingConfig::default())
        }))
        .build()
        .unwrap();
    let runtime_builder = match config.0 {
        Inner::Enabled { runtime_builder, rotation_period, .. } => {
            assert_eq!(rotation_period, Some(Duration::from_secs(60)));
            runtime_builder
        }
        Inner::Disabled { .. } => panic!("expected an enabled configuration"),
    };
    let mut sequence = runtime_builder.build_and_start();
    match sequence.step() {
        BuildStep::StartCpuProfiler(sampler) => {
            assert_eq!(sampler.frequency_hz, 99);
            assert_eq!(sampler.event_source, EventSource::SwCpuClock);
            assert!(!sampler.include_kernel);
        }
        other => panic!("expected the CPU sampler first, got {other:?}"),
    }
    sequence.done(true);
    match sequence.step() {
        BuildStep::InstallHooks(hooks) => assert_eq!(hooks.len(), 7),
        other => panic!("expected the hooks, got {other:?}"),
    }
}

type Calls = Rc<RefCell<Vec<(u32, Option<String>)>>>;

/// A configurator that notes its number and the trace path it is given.
fn noting(calls: &Calls, number: u32) -> Configure {
    let calls = calls.clone();
    Box::new(move |b| {
        calls.borrow_mut().push((number, b.trace_path().map(|p| p.to_string())));
        b.with_trace_path(format!("path of {number}"))
    })
}

#[test]
fn runtime_configurators_run_once_the_base_path_is_known() {
    let calls: Calls = Rc::new(RefCell::new(Vec::new()));
    let builder = config()
        .with_runtime(noting(&calls, 1))
        .with_runtime(noting(&calls, 2))
        .base_path("late.bin")
        .max_file_size(1)
        .max_total_size(2);
    assert!(calls.borrow().is_empty());
    let built = builder.build().unwrap();
    assert_eq!(
        *calls.borrow(),
        vec![(1, Some("late.bin".to_string())), (2, Some("path of 1".to_string()))]
    );
    match built.0 {
        Inner::Enabled { base_path, runtime_builder, .. } => {
            assert_eq!(base_path, "late.bin");
            assert_eq!(runtime_builder.trace_path(), Some("path of 2"));
        }
        Inner::Disabled { .. } => panic!("expected an enabled configuration"),
    }
}

#[test]
fn runtime_configurators_do_not_run_where_there_is_no_telemetry() {
    let calls: Calls = Rc::new(RefCell::new(Vec::new()));
    let off = config()
        .base_path("trace.bin")
        .max_file_size(1)
        .max_total_size(2)
        .with_runtime(noting(&calls, 1))
        .enabled(false)
        .build()
        .unwrap();
    assert!(matches!(off.0, Inner::Disabled { .. }));
    assert!(config().base_path("trace.bin").with_runtime(noting(&calls, 2)).build().is_err());
    let fallback = config().max_file_size(1).with_runtime(noting(&calls, 3)).build_or_disabled();
    assert!(matches!(fallback.0, Inner::Disabled { .. }));
    assert!(calls.borrow().is_empty());
}
