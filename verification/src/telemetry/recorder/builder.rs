//! Setting up a traced runtime: what is configured, in which order it is put
//! together, and when the flush thread samples and flushes.

use crate::telemetry::cpu_profile::{CpuProfilingConfig, SamplerConfig, SchedEventConfig};
use crate::telemetry::recorder::install::{hooks, installed_hooks, Hook};
use crate::text::IntoText;
use vstd::prelude::*;

verus! {

/// Configures a traced runtime.
#[derive(Debug)]
pub struct TracedRuntimeBuilder {
    task_tracking_enabled: bool,
    cpu_profiling_config: Option<CpuProfilingConfig>,
    sched_event_config: Option<SchedEventConfig>,
    inline_callframe_symbols: bool,
    trace_path: Option<String>,
}

/// The value of a [`TracedRuntimeBuilder`].
#[verifier::ext_equal]
pub struct RuntimeModel {
    pub task_tracking: bool,
    pub cpu_profiling: Option<CpuProfilingConfig>,
    pub sched_events: Option<SchedEventConfig>,
    pub inline_symbols: bool,
    /// Where the trace is written, where that is known.
    pub trace_path: Option<Seq<char>>,
}

impl View for TracedRuntimeBuilder {
    type V = RuntimeModel;

    closed spec fn view(&self) -> RuntimeModel {
        RuntimeModel {
            task_tracking: self.task_tracking_enabled,
            cpu_profiling: self.cpu_profiling_config,
            sched_events: self.sched_event_config,
            inline_symbols: self.inline_callframe_symbols,
            trace_path: match self.trace_path {
                Some(path) => Some(path@),
                None => None,
            },
        }
    }
}

impl Clone for TracedRuntimeBuilder {
    fn clone(&self) -> (b: TracedRuntimeBuilder)
        ensures
            b@ == self@,
    {
        TracedRuntimeBuilder {
            task_tracking_enabled: self.task_tracking_enabled,
            cpu_profiling_config: self.cpu_profiling_config,
            sched_event_config: self.sched_event_config,
            inline_callframe_symbols: self.inline_callframe_symbols,
            trace_path: match &self.trace_path {
                Some(path) => Some(path.clone()),
                None => None,
            },
        }
    }
}

/// Entry point for setting up a traced Tokio runtime.
///
/// Use [`TracedRuntime::builder`] for the full builder API.
#[derive(Debug, Clone, Copy, PartialEq, Eq, Structural)]
pub struct TracedRuntime;

impl TracedRuntime {
    /// Returns a builder for configuring the traced runtime: no task tracking,
    /// no profiling.
    pub fn builder() -> (b: TracedRuntimeBuilder)
        ensures
            b@ == (RuntimeModel {
                task_tracking: false,
                cpu_profiling: None,
                sched_events: None,
                inline_symbols: false,
                trace_path: None,
            }),
    {
        TracedRuntimeBuilder {
            task_tracking_enabled: false,
            cpu_profiling_config: None,
            sched_event_config: None,
            inline_callframe_symbols: false,
            trace_path: None,
        }
    }

    /// Put a traced runtime together with telemetry **disabled**, without task
    /// tracking.
    pub fn build() -> (s: BuildSequence)
        ensures
            s@ == begun(
                RuntimeModel {
                    task_tracking: false,
                    cpu_profiling: None,
                    sched_events: None,
                    inline_symbols: false,
                    trace_path: None,
                },
                false,
            ),
    {
        TracedRuntime::builder().build()
    }

    /// Put a traced runtime together and start recording, with task tracking.
    pub fn build_and_start() -> (s: BuildSequence)
        ensures
            s@ == begun(
                RuntimeModel {
                    task_tracking: true,
                    cpu_profiling: None,
                    sched_events: None,
                    inline_symbols: false,
                    trace_path: None,
                },
                true,
            ),
    {
        TracedRuntime::builder().with_task_tracking(true).build_and_start()
    }
}

impl TracedRuntimeBuilder {
    /// Enables task tracking on the runtime
    ///
    /// This will cause the emitted events to carry task tracking information
    /// (namely a TaskId and spawn location)
    pub fn with_task_tracking(self, enabled: bool) -> (b: TracedRuntimeBuilder)
        ensures
            b@ == (RuntimeModel { task_tracking: enabled, ..self@ }),
    {
        TracedRuntimeBuilder { task_tracking_enabled: enabled, ..self }
    }

    /// Enable CPU profiling. Captures stack traces at the configured frequency
    /// and merges them into the trace timeline.
    pub fn with_cpu_profiling(self, config: CpuProfilingConfig) -> (b: TracedRuntimeBuilder)
        ensures
            b@ == (RuntimeModel { cpu_profiling: Some(config), ..self@ }),
    {
        TracedRuntimeBuilder { cpu_profiling_config: Some(config), ..self }
    }

    /// Enable per-worker sched event capture (context switches).
    ///
    /// Captures the stack at every context switch of a worker thread. Can be
    /// used alongside CPU profiling.
    pub fn with_sched_events(self, config: SchedEventConfig) -> (b: TracedRuntimeBuilder)
        ensures
            b@ == (RuntimeModel { sched_events: Some(config), ..self@ }),
    {
        TracedRuntimeBuilder { sched_event_config: Some(config), ..self }
    }

    /// When enabled, callframe addresses from CPU samples are symbolicated inline
    /// and emitted as `CallframeDef` events in the trace. This allows reading the
    /// trace without needing to symbolicate offline.
    pub fn with_inline_callframe_symbols(self, enabled: bool) -> (b: TracedRuntimeBuilder)
        ensures
            b@ == (RuntimeModel { inline_symbols: enabled, ..self@ }),
    {
        TracedRuntimeBuilder { inline_callframe_symbols: enabled, ..self }
    }

    /// Tell where the trace is written.
    pub fn with_trace_path<P: IntoText>(self, path: P) -> (b: TracedRuntimeBuilder)
        ensures
            b@ == (RuntimeModel { trace_path: Some(path.text()), ..self@ }),
    {
        TracedRuntimeBuilder { trace_path: Some(path.into_text()), ..self }
    }

    /// Where the trace is written, where that is known.
    pub fn trace_path(&self) -> (p: Option<&str>)
        ensures
            match (p, self@.trace_path) {
                (Some(p), Some(path)) => p@ == path,
                (None, None) => true,
                _ => false,
            },
    {
        match &self.trace_path {
            Some(path) => Some(path.as_str()),
            None => None,
        }
    }

    /// Put the runtime together with telemetry **disabled**.
    pub fn build(self) -> (s: BuildSequence)
        ensures
            s@ == begun(self@, false),
    {
        BuildSequence::begin(self, false)
    }

    /// Put the runtime together and immediately start recording.
    pub fn build_and_start(self) -> (s: BuildSequence)
        ensures
            s@ == begun(self@, true),
    {
        BuildSequence::begin(self, true)
    }
}

/// How far the runtime is put together.
#[derive(Debug, Clone, Copy, PartialEq, Eq, Structural)]
pub enum BuildStage {
    /// The process-wide CPU sampler is to be opened.
    CpuProfiler,
    /// The context-switch sampler is to be made.
    SchedProfiler,
    /// The hooks are to be installed on the runtime's builder.
    Hooks,
    /// The runtime is to be built.
    Runtime,
    /// The flush thread is to be spawned.
    FlushThread,
    /// All is done.
    Ready,
    /// The runtime could not be built.
    Failed,
}

/// The next thing to be done.
#[derive(Debug)]
pub enum BuildStep {
    StartCpuProfiler(SamplerConfig),
    StartSchedProfiler(SamplerConfig),
    InstallHooks(Vec<Hook>),
    BuildRuntime,
    /// The thread symbolicates addresses inline or leaves them.
    SpawnFlushThread { inline_callframe_symbols: bool },
    /// The runtime is ready.
    Ready(Built),
    /// There is no runtime.
    Failed,
}

/// What a traced runtime came to be.
#[derive(Debug, Clone, Copy, PartialEq, Eq, Structural)]
pub struct Built {
    /// Whether recording is on from the start.
    pub enabled: bool,
    /// Whether the CPU sampler runs.
    pub cpu_profiler: bool,
    /// Whether context switches are captured.
    pub sched_profiler: bool,
    /// Whether addresses are symbolicated inline.
    pub inline_callframe_symbols: bool,
}

/// Puts a runtime together, one step after the other.
#[derive(Debug)]
pub struct BuildSequence {
    config: TracedRuntimeBuilder,
    start: bool,
    stage: BuildStage,
    cpu_started: bool,
    sched_started: bool,
}

/// The value of a [`BuildSequence`].
#[verifier::ext_equal]
pub struct BuildModel {
    pub config: RuntimeModel,
    pub start: bool,
    pub stage: BuildStage,
    pub cpu_started: bool,
    pub sched_started: bool,
}

impl View for BuildSequence {
    type V = BuildModel;

    closed spec fn view(&self) -> BuildModel {
        BuildModel {
            config: self.config@,
            start: self.start,
            stage: self.stage,
            cpu_started: self.cpu_started,
            sched_started: self.sched_started,
        }
    }
}

/// The first stage with something to do, from `stage` on: what is not
/// configured is passed over.
pub open spec fn stage_from(config: RuntimeModel, stage: BuildStage) -> BuildStage {
    match stage {
        BuildStage::CpuProfiler => if config.cpu_profiling is Some {
            stage
        } else if config.sched_events is Some {
            BuildStage::SchedProfiler
        } else {
            BuildStage::Hooks
        },
        BuildStage::SchedProfiler => if config.sched_events is Some {
            stage
        } else {
            BuildStage::Hooks
        },
        _ => stage,
    }
}

/// The beginning of a build.
pub open spec fn begun(config: RuntimeModel, start: bool) -> BuildModel {
    BuildModel {
        config,
        start,
        stage: stage_from(config, BuildStage::CpuProfiler),
        cpu_started: false,
        sched_started: false,
    }
}

/// A build after its current step was done, successfully or not. A sampler that
/// cannot be opened is gone without.
pub open spec fn build_step(b: BuildModel, ok: bool) -> BuildModel {
    match b.stage {
        BuildStage::CpuProfiler => BuildModel {
            stage: stage_from(b.config, BuildStage::SchedProfiler),
            cpu_started: ok,
            ..b
        },
        BuildStage::SchedProfiler => BuildModel {
            stage: BuildStage::Hooks,
            sched_started: ok,
            ..b
        },
        BuildStage::Hooks => BuildModel { stage: BuildStage::Runtime, ..b },
        BuildStage::Runtime => BuildModel {
            stage: if ok {
                BuildStage::FlushThread
            } else {
                BuildStage::Failed
            },
            ..b
        },
        BuildStage::FlushThread => BuildModel { stage: BuildStage::Ready, ..b },
        _ => b,
    }
}

/// What a finished build came to.
pub open spec fn built(b: BuildModel) -> Built {
    Built {
        enabled: b.start,
        cpu_profiler: b.cpu_started,
        sched_profiler: b.sched_started,
        inline_callframe_symbols: b.config.inline_symbols,
    }
}

/// Whether `s` is the step of the stage that `b` is at.
pub open spec fn is_step(b: BuildModel, s: BuildStep) -> bool {
    match (b.stage, s) {
        (BuildStage::CpuProfiler, BuildStep::StartCpuProfiler(c)) => b.config.cpu_profiling matches
            Some(config) && c == (SamplerConfig {
            frequency_hz: config.frequency_hz,
            event_source: config.event_source,
            include_kernel: config.include_kernel,
        }),
        (BuildStage::SchedProfiler, BuildStep::StartSchedProfiler(c)) => b.config.sched_events
            matches Some(config) && c == (SamplerConfig {
            frequency_hz: 1,
            event_source: crate::telemetry::cpu_profile::EventSource::SwContextSwitches,
            include_kernel: config.include_kernel,
        }),
        (BuildStage::Hooks, BuildStep::InstallHooks(h)) => h@ == hooks(b.config.task_tracking),
        (BuildStage::Runtime, BuildStep::BuildRuntime) => true,
        (
            BuildStage::FlushThread,
            BuildStep::SpawnFlushThread { inline_callframe_symbols },
        ) => inline_callframe_symbols == b.config.inline_symbols,
        (BuildStage::Ready, BuildStep::Ready(r)) => r == built(b),
        (BuildStage::Failed, BuildStep::Failed) => true,
        _ => false,
    }
}

impl BuildSequence {
    /// The samplers that have a stage are configured.
    pub open spec fn wf(self) -> bool {
        self@.stage == stage_from(self@.config, self@.stage)
    }

    fn begin(config: TracedRuntimeBuilder, start: bool) -> (s: BuildSequence)
        ensures
            s@ == begun(config@, start),
    {
        let stage = if config.cpu_profiling_config.is_some() {
            BuildStage::CpuProfiler
        } else if config.sched_event_config.is_some() {
            BuildStage::SchedProfiler
        } else {
            BuildStage::Hooks
        };
        BuildSequence { config, start, stage, cpu_started: false, sched_started: false }
    }

    /// The next thing to be done.
    pub fn step(&self) -> (s: BuildStep)
        requires
            self.wf(),
        ensures
            is_step(self@, s),
    {
        match self.stage {
            BuildStage::CpuProfiler => BuildStep::StartCpuProfiler(
                self.config.cpu_profiling_config.unwrap().sampler(),
            ),
            BuildStage::SchedProfiler => BuildStep::StartSchedProfiler(
                self.config.sched_event_config.unwrap().sampler(),
            ),
            BuildStage::Hooks => BuildStep::InstallHooks(
                installed_hooks(self.config.task_tracking_enabled),
            ),
            BuildStage::Runtime => BuildStep::BuildRuntime,
            BuildStage::FlushThread => BuildStep::SpawnFlushThread {
                inline_callframe_symbols: self.config.inline_callframe_symbols,
            },
            BuildStage::Ready => BuildStep::Ready(
                Built {
                    enabled: self.start,
                    cpu_profiler: self.cpu_started,
                    sched_profiler: self.sched_started,
                    inline_callframe_symbols: self.config.inline_callframe_symbols,
                },
            ),
            BuildStage::Failed => BuildStep::Failed,
        }
    }

    /// The step was done, successfully or not. Only the samplers and the
    /// runtime can fail.
    pub fn done(&mut self, ok: bool)
        requires
            old(self).wf(),
            ok || old(self)@.stage != BuildStage::Hooks && old(self)@.stage
                != BuildStage::FlushThread,
        ensures
            final(self).wf(),
            final(self)@ == build_step(old(self)@, ok),
    {
        match self.stage {
            BuildStage::CpuProfiler => {
                self.cpu_started = ok;
                self.stage = if self.config.sched_event_config.is_some() {
                    BuildStage::SchedProfiler
                } else {
                    BuildStage::Hooks
                };
            },
            BuildStage::SchedProfiler => {
                self.sched_started = ok;
                self.stage = BuildStage::Hooks;
            },
            BuildStage::Hooks => {
                self.stage = BuildStage::Runtime;
            },
            BuildStage::Runtime => {
                self.stage = if ok {
                    BuildStage::FlushThread
                } else {
                    BuildStage::Failed
                };
            },
            BuildStage::FlushThread => {
                self.stage = BuildStage::Ready;
            },
            _ => {},
        }
    }
}

/// A build from its hooks on, with what its samplers came to.
pub open spec fn at_hooks(
    config: RuntimeModel,
    start: bool,
    cpu_ok: bool,
    sched_ok: bool,
) -> BuildModel {
    BuildModel {
        config,
        start,
        stage: BuildStage::Hooks,
        cpu_started: config.cpu_profiling is Some && cpu_ok,
        sched_started: config.sched_events is Some && sched_ok,
    }
}

/// A build whose samplers were tried.
pub open spec fn samplers_tried(
    config: RuntimeModel,
    start: bool,
    cpu_ok: bool,
    sched_ok: bool,
) -> BuildModel {
    let b = begun(config, start);
    let b = if b.stage == BuildStage::CpuProfiler {
        build_step(b, cpu_ok)
    } else {
        b
    };
    if b.stage == BuildStage::SchedProfiler {
        build_step(b, sched_ok)
    } else {
        b
    }
}

/// A sampler that cannot be opened does not keep the runtime from being built:
/// whatever came of the samplers, the runtime alone decides. Recording is on
/// from the start exactly where that was asked for, and a sampler runs exactly
/// where it is configured and could be opened.
pub proof fn lemma_only_the_runtime_decides(
    config: RuntimeModel,
    start: bool,
    cpu_ok: bool,
    sched_ok: bool,
    runtime_ok: bool,
)
    ensures
        ({
            let tried = samplers_tried(config, start, cpu_ok, sched_ok);
            let runtime = build_step(build_step(tried, true), runtime_ok);
            &&& tried == at_hooks(config, start, cpu_ok, sched_ok)
            &&& !runtime_ok ==> runtime.stage == BuildStage::Failed
            &&& runtime_ok ==> {
                let ready = build_step(runtime, true);
                &&& ready.stage == BuildStage::Ready
                &&& built(ready) == (Built {
                    enabled: start,
                    cpu_profiler: config.cpu_profiling is Some && cpu_ok,
                    sched_profiler: config.sched_events is Some && sched_ok,
                    inline_callframe_symbols: config.inline_symbols,
                })
            }
        }),
{
}

/// How long the flush thread pauses between two looks at the clock.
pub const PAUSE_MILLIS: u64 = 5;

/// The least time between two queue samples, in nanoseconds.
pub const SAMPLE_INTERVAL_NS: u64 = 10_000_000;

/// The least time between two flushes, in nanoseconds.
pub const FLUSH_INTERVAL_NS: u64 = 250_000_000;

/// What the flush thread is to do now.
#[derive(Debug, Clone, Copy, PartialEq, Eq, Structural)]
pub struct TickActions {
    /// Record the depth of the global queue.
    pub sample: bool,
    /// Write out what the collector holds.
    pub flush: bool,
}

/// When the flush thread last sampled and flushed, in nanoseconds of one clock.
#[derive(Debug, Clone, Copy, PartialEq, Eq, Structural)]
pub struct FlushTicker {
    pub last_sample: u64,
    pub last_flush: u64,
}

/// Whether `interval` has passed since `last`. A clock that was set back counts
/// as one that stands still.
pub open spec fn is_due(now: u64, last: u64, interval: u64) -> bool {
    now >= last && now - last >= interval
}

impl FlushTicker {
    /// A ticker that starts at `now`.
    pub fn new(now: u64) -> (t: FlushTicker)
        ensures
            t == (FlushTicker { last_sample: now, last_flush: now }),
    {
        FlushTicker { last_sample: now, last_flush: now }
    }

    /// What is to be done at `now`; it is taken to be done.
    pub fn tick(&mut self, now: u64) -> (a: TickActions)
        ensures
            a.sample == is_due(now, old(self).last_sample, SAMPLE_INTERVAL_NS),
            a.flush == is_due(now, old(self).last_flush, FLUSH_INTERVAL_NS),
            final(self).last_sample == (if a.sample {
                now
            } else {
                old(self).last_sample
            }),
            final(self).last_flush == (if a.flush {
                now
            } else {
                old(self).last_flush
            }),
    {
        let sample = now.saturating_sub(self.last_sample) >= SAMPLE_INTERVAL_NS;
        if sample {
            self.last_sample = now;
        }
        let flush = now.saturating_sub(self.last_flush) >= FLUSH_INTERVAL_NS;
        if flush {
            self.last_flush = now;
        }
        TickActions { sample, flush }
    }
}

/// A step asks for what was configured: a sampler with the frequency, the event
/// source and the kernel flag set for it, the hook on task spawns with task
/// tracking only, inline symbols as they were set. What is ready says whether
/// recording is on, which samplers run, and whether symbols are inline.
pub proof fn lemma_step_asks_for_what_was_configured(b: BuildModel, s: BuildStep)
    requires
        is_step(b, s),
    ensures
        match s {
            BuildStep::StartCpuProfiler(c) => b.config.cpu_profiling matches Some(set)
                && c.frequency_hz == set.frequency_hz && c.event_source == set.event_source
                && c.include_kernel == set.include_kernel && b.stage == BuildStage::CpuProfiler,
            BuildStep::StartSchedProfiler(c) => b.config.sched_events matches Some(set)
                && c.frequency_hz == 1 && c.event_source
                == crate::telemetry::cpu_profile::EventSource::SwContextSwitches
                && c.include_kernel == set.include_kernel && b.stage == BuildStage::SchedProfiler,
            BuildStep::InstallHooks(h) => b.stage == BuildStage::Hooks && (h@.contains(
                Hook::TaskSpawn,
            ) <==> b.config.task_tracking) && h@.contains(Hook::BeforeTaskPoll) && h@.contains(
                Hook::AfterTaskPoll,
            ) && h@.contains(Hook::ThreadPark) && h@.contains(Hook::ThreadUnpark) && h@.contains(
                Hook::ThreadStart,
            ) && h@.contains(Hook::ThreadStop),
            BuildStep::BuildRuntime => b.stage == BuildStage::Runtime,
            BuildStep::SpawnFlushThread { inline_callframe_symbols } => b.stage
                == BuildStage::FlushThread && inline_callframe_symbols == b.config.inline_symbols,
            BuildStep::Ready(r) => b.stage == BuildStage::Ready && r.enabled == b.start
                && r.cpu_profiler == b.cpu_started && r.sched_profiler == b.sched_started
                && r.inline_callframe_symbols == b.config.inline_symbols,
            BuildStep::Failed => b.stage == BuildStage::Failed,
        },
{
    crate::telemetry::recorder::install::lemma_hooks_are_installed_once(b.config.task_tracking);
}

/// A build starts with the CPU sampler where one is configured, else with the
/// context switches where these are, else with the hooks. It then goes through
/// hooks, runtime and flush thread in this order; the hooks are installed
/// before the runtime is built. A step changes neither the configuration nor
/// whether recording starts at once.
pub proof fn lemma_stages_follow_in_order(config: RuntimeModel, start: bool, b: BuildModel, ok: bool)
    ensures
        begun(config, start).config == config,
        begun(config, start).start == start,
        !begun(config, start).cpu_started && !begun(config, start).sched_started,
        begun(config, start).stage == BuildStage::CpuProfiler <==> config.cpu_profiling is Some,
        begun(config, start).stage == BuildStage::SchedProfiler <==> config.cpu_profiling is None
            && config.sched_events is Some,
        begun(config, start).stage == BuildStage::Hooks <==> config.cpu_profiling is None
            && config.sched_events is None,
        build_step(b, ok).config == b.config,
        build_step(b, ok).start == b.start,
        b.stage == BuildStage::CpuProfiler ==> build_step(b, ok).cpu_started == ok && (
        b.config.sched_events is Some ==> build_step(b, ok).stage == BuildStage::SchedProfiler) && (
        b.config.sched_events is None ==> build_step(b, ok).stage == BuildStage::Hooks),
        b.stage == BuildStage::SchedProfiler ==> build_step(b, ok).sched_started == ok
            && build_step(b, ok).cpu_started == b.cpu_started && build_step(b, ok).stage
            == BuildStage::Hooks,
        b.stage == BuildStage::Hooks ==> build_step(b, ok).stage == BuildStage::Runtime,
        b.stage == BuildStage::Runtime ==> build_step(b, ok).stage == if ok {
            BuildStage::FlushThread
        } else {
            BuildStage::Failed
        },
        b.stage == BuildStage::FlushThread ==> build_step(b, ok).stage == BuildStage::Ready,
{
}

/// The flush thread samples the queue at most every ten milliseconds and
/// flushes at most four times a second: neither is due sooner, and both are once
/// the time has passed, also where a tick comes late.
pub proof fn lemma_ticks_keep_their_interval(now: u64, last: u64)
    ensures
        is_due(now, last, SAMPLE_INTERVAL_NS) <==> now - last >= 10_000_000,
        is_due(now, last, FLUSH_INTERVAL_NS) <==> now - last >= 250_000_000,
        is_due(now, last, FLUSH_INTERVAL_NS) ==> is_due(now, last, SAMPLE_INTERVAL_NS),
        PAUSE_MILLIS == 5,
{
}

} // verus!
