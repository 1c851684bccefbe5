//! From a configuration to a tokio runtime with its telemetry.
//!
//! [`RuntimeAssembly`] says what to build next; whoever runs it does that and
//! hands back what came of it.

use crate::config::{
    is_assembled, ConfigModel, Dial9Config, Dial9ConfigFallback, Inner, InnerModel,
};
use crate::telemetry::recorder::builder::TracedRuntimeBuilder;
use crate::text::push_text;
use crate::time::Duration;
use vstd::prelude::*;

verus! {

/// Errors produced while constructing a runtime from a configuration.
#[derive(Debug)]
#[non_exhaustive]
pub enum TelemetryRuntimeError {
    /// The trace files could not be opened.
    RotatingWriter(std::io::Error),
    /// The tokio runtime could not be built.
    TokioRuntimeBuilder(std::io::Error),
    /// The telemetry core (traced runtime + background worker) could not be
    /// set up.
    TelemetryCore(std::io::Error),
}

/// `ToString::to_string` on an I/O error writes it out in words. Nothing is
/// claimed of the words: those of a system error rest on the machine.
#[verifier::external_body]
fn io_error_text(e: &std::io::Error) -> String {
    e.to_string()
}

/// Whether `words` is what the I/O error `e` may be written out as.
pub closed spec fn reads_as(e: std::io::Error, words: String) -> bool {
    call_ensures(io_error_text, (&e,), words)
}

impl TelemetryRuntimeError {
    /// The I/O error behind it.
    pub open spec fn cause(self) -> std::io::Error {
        match self {
            TelemetryRuntimeError::RotatingWriter(e) => e,
            TelemetryRuntimeError::TokioRuntimeBuilder(e) => e,
            TelemetryRuntimeError::TelemetryCore(e) => e,
        }
    }

    /// What failed.
    pub open spec fn label(self) -> Seq<char> {
        match self {
            TelemetryRuntimeError::RotatingWriter(_) => "rotating writer: "@,
            TelemetryRuntimeError::TokioRuntimeBuilder(_) => "tokio runtime builder: "@,
            TelemetryRuntimeError::TelemetryCore(_) => "telemetry core: "@,
        }
    }

    /// The I/O error behind it.
    pub fn source(&self) -> (e: &std::io::Error)
        ensures
            *e == self.cause(),
    {
        match self {
            TelemetryRuntimeError::RotatingWriter(e) => e,
            TelemetryRuntimeError::TokioRuntimeBuilder(e) => e,
            TelemetryRuntimeError::TelemetryCore(e) => e,
        }
    }

    /// What failed, and then `words`.
    pub fn describe(&self, words: &str) -> (text: String)
        ensures
            text@ == self.label() + words@,
    {
        let mut text = String::new();
        match self {
            TelemetryRuntimeError::RotatingWriter(_) => push_text(&mut text, "rotating writer: "),
            TelemetryRuntimeError::TokioRuntimeBuilder(_) => push_text(
                &mut text,
                "tokio runtime builder: ",
            ),
            TelemetryRuntimeError::TelemetryCore(_) => push_text(&mut text, "telemetry core: "),
        }
        push_text(&mut text, words);
        assert(text@ =~= self.label() + words@);
        text
    }

    /// What failed, and then the I/O error in words.
    pub fn message(&self) -> (text: String)
        ensures
            exists|words: String| #[trigger]
                reads_as(self.cause(), words) && text@ == self.label() + words@,
    {
        let words = io_error_text(self.source());
        assert(reads_as(self.cause(), words));
        self.describe(words.as_str())
    }
}

/// How far a runtime has come.
#[derive(Debug)]
pub enum AssemblyState {
    /// The trace writer is to be opened.
    Writer,
    /// The traced runtime is to be built and started.
    Traced,
    /// A plain tokio runtime is to be built.
    Plain,
    /// The runtime is there, with a telemetry guard or without.
    Done { guard: bool },
    /// There is no runtime.
    Failed(TelemetryRuntimeError),
}

/// The next thing to be built.
#[derive(Debug)]
pub enum AssemblyStep {
    /// Open the writer.
    OpenWriter {
        base_path: String,
        max_file_size: u64,
        max_total_size: u64,
        rotation_period: Option<Duration>,
    },
    /// Build and start a traced runtime with the writer and the tokio
    /// configurators.
    StartTraced(TracedRuntimeBuilder),
    /// Build a plain tokio runtime with the tokio configurators.
    BuildPlain,
    /// Nothing: the runtime is there.
    Done { guard: bool },
    /// Nothing: there is no runtime.
    Failed,
}

/// The value of an [`AssemblyStep`].
#[verifier::ext_equal]
pub enum AssemblyStepModel {
    OpenWriter {
        base_path: Seq<char>,
        max_file_size: u64,
        max_total_size: u64,
        rotation_period: Option<Duration>,
    },
    StartTraced(crate::telemetry::recorder::builder::RuntimeModel),
    BuildPlain,
    Done { guard: bool },
    Failed,
}

impl View for AssemblyStep {
    type V = AssemblyStepModel;

    open spec fn view(&self) -> AssemblyStepModel {
        match *self {
            AssemblyStep::OpenWriter {
                base_path,
                max_file_size,
                max_total_size,
                rotation_period,
            } => AssemblyStepModel::OpenWriter {
                base_path: base_path@,
                max_file_size,
                max_total_size,
                rotation_period,
            },
            AssemblyStep::StartTraced(b) => AssemblyStepModel::StartTraced(b@),
            AssemblyStep::BuildPlain => AssemblyStepModel::BuildPlain,
            AssemblyStep::Done { guard } => AssemblyStepModel::Done { guard },
            AssemblyStep::Failed => AssemblyStepModel::Failed,
        }
    }
}

/// Builds the runtime of a configuration.
#[derive(Debug)]
pub struct RuntimeAssembly<T> {
    inner: Inner<T>,
    lenient: bool,
    state: AssemblyState,
}

/// The state after the current step had `result`. A strict configuration
/// reports each failure; a lenient one goes on with a plain runtime, whose own
/// failure alone is reported.
pub open spec fn assembly_step(
    lenient: bool,
    state: AssemblyState,
    result: std::io::Result<()>,
) -> AssemblyState {
    match (state, result) {
        (AssemblyState::Writer, Ok(_)) => AssemblyState::Traced,
        (AssemblyState::Writer, Err(e)) => if lenient {
            AssemblyState::Plain
        } else {
            AssemblyState::Failed(TelemetryRuntimeError::RotatingWriter(e))
        },
        (AssemblyState::Traced, Ok(_)) => AssemblyState::Done { guard: true },
        (AssemblyState::Traced, Err(e)) => if lenient {
            AssemblyState::Plain
        } else {
            AssemblyState::Failed(TelemetryRuntimeError::TelemetryCore(e))
        },
        (AssemblyState::Plain, Ok(_)) => AssemblyState::Done { guard: false },
        (AssemblyState::Plain, Err(e)) => AssemblyState::Failed(
            TelemetryRuntimeError::TokioRuntimeBuilder(e),
        ),
        _ => state,
    }
}

/// Where the assembly of a configuration begins.
pub open spec fn first_state<T>(inner: InnerModel<T>) -> AssemblyState {
    match inner {
        InnerModel::Enabled { .. } => AssemblyState::Writer,
        InnerModel::Disabled { .. } => AssemblyState::Plain,
    }
}

/// The step that a state asks for.
pub open spec fn step_of<T>(inner: InnerModel<T>, state: AssemblyState) -> AssemblyStepModel {
    match (state, inner) {
        (
            AssemblyState::Writer,
            InnerModel::Enabled {
                base_path,
                max_file_size,
                max_total_size,
                rotation_period,
                ..
            },
        ) => AssemblyStepModel::OpenWriter {
            base_path,
            max_file_size,
            max_total_size,
            rotation_period,
        },
        (
            AssemblyState::Traced,
            InnerModel::Enabled { runtime, .. },
        ) => AssemblyStepModel::StartTraced(runtime),
        (AssemblyState::Done { guard }, _) => AssemblyStepModel::Done { guard },
        (AssemblyState::Failed(_), _) => AssemblyStepModel::Failed,
        _ => AssemblyStepModel::BuildPlain,
    }
}

impl<T> RuntimeAssembly<T> {
    /// The configuration.
    pub closed spec fn config(self) -> InnerModel<T> {
        self.inner@
    }

    /// Whether failures of the telemetry are tolerated.
    pub closed spec fn is_lenient(self) -> bool {
        self.lenient
    }

    /// How far the runtime has come.
    pub closed spec fn spec_state(self) -> AssemblyState {
        self.state
    }

    fn begin(inner: Inner<T>, lenient: bool) -> (a: RuntimeAssembly<T>)
        ensures
            a.config() == inner@,
            a.is_lenient() == lenient,
            a.spec_state() == first_state(inner@),
    {
        let state = match &inner {
            Inner::Enabled { .. } => AssemblyState::Writer,
            Inner::Disabled { .. } => AssemblyState::Plain,
        };
        RuntimeAssembly { inner, lenient, state }
    }

    /// Assemble a strict configuration.
    pub fn strict(config: Dial9Config<T>) -> (a: RuntimeAssembly<T>)
        ensures
            a.config() == config.0@,
            !a.is_lenient(),
            a.spec_state() == first_state(config.0@),
    {
        RuntimeAssembly::begin(config.0, false)
    }

    /// Assemble a lenient configuration.
    pub fn lenient(config: Dial9ConfigFallback<T>) -> (a: RuntimeAssembly<T>)
        ensures
            a.config() == config.0@,
            a.is_lenient(),
            a.spec_state() == first_state(config.0@),
    {
        RuntimeAssembly::begin(config.0, true)
    }

    /// How far the runtime has come.
    pub fn state(&self) -> (s: &AssemblyState)
        ensures
            *s == self.spec_state(),
    {
        &self.state
    }

    /// The tokio configurators, to be applied in order to each runtime that is
    /// built.
    pub fn tokio_configurators(&self) -> (v: &Vec<T>)
        ensures
            v@ == (match self.config() {
                InnerModel::Enabled { tokio_configurators, .. } => tokio_configurators,
                InnerModel::Disabled { tokio_configurators } => tokio_configurators,
            }),
    {
        match &self.inner {
            Inner::Enabled { tokio_configurators, .. } => tokio_configurators,
            Inner::Disabled { tokio_configurators } => tokio_configurators,
        }
    }

    /// The next thing to be built.
    pub fn step(&self) -> (s: AssemblyStep)
        ensures
            s@ == step_of(self.config(), self.spec_state()),
            match (self.spec_state(), self.config()) {
                (
                    AssemblyState::Writer,
                    InnerModel::Enabled {
                        base_path,
                        max_file_size,
                        max_total_size,
                        rotation_period,
                        ..
                    },
                ) => s matches AssemblyStep::OpenWriter {
                    base_path: path,
                    max_file_size: file_size,
                    max_total_size: total_size,
                    rotation_period: period,
                } && path@ == base_path && file_size == max_file_size && total_size
                    == max_total_size && period == rotation_period,
                (AssemblyState::Traced, InnerModel::Enabled { runtime, .. }) => s matches
                    AssemblyStep::StartTraced(b) && b@ == runtime,
                (AssemblyState::Done { guard }, _) => s matches AssemblyStep::Done { guard: g } && g
                    == guard,
                (AssemblyState::Failed(_), _) => s is Failed,
                _ => s is BuildPlain,
            },
    {
        match (&self.state, &self.inner) {
            (
                AssemblyState::Writer,
                Inner::Enabled {
                    base_path,
                    max_file_size,
                    max_total_size,
                    rotation_period,
                    ..
                },
            ) => AssemblyStep::OpenWriter {
                base_path: base_path.clone(),
                max_file_size: *max_file_size,
                max_total_size: *max_total_size,
                rotation_period: *rotation_period,
            },
            (AssemblyState::Traced, Inner::Enabled { runtime_builder, .. }) => {
                AssemblyStep::StartTraced(runtime_builder.clone())
            },
            (AssemblyState::Done { guard }, _) => AssemblyStep::Done { guard: *guard },
            (AssemblyState::Failed(_), _) => AssemblyStep::Failed,
            _ => AssemblyStep::BuildPlain,
        }
    }

    /// Go on after the current step had `result`.
    pub fn done(&mut self, result: std::io::Result<()>)
        ensures
            final(self).config() == old(self).config(),
            final(self).is_lenient() == old(self).is_lenient(),
            final(self).spec_state() == assembly_step(
                old(self).is_lenient(),
                old(self).spec_state(),
                result,
            ),
    {
        let mut state = AssemblyState::Plain;
        std::mem::swap(&mut state, &mut self.state);
        self.state = match (state, result) {
            (AssemblyState::Writer, Ok(_)) => AssemblyState::Traced,
            (AssemblyState::Writer, Err(e)) => if self.lenient {
                AssemblyState::Plain
            } else {
                AssemblyState::Failed(TelemetryRuntimeError::RotatingWriter(e))
            },
            (AssemblyState::Traced, Ok(_)) => AssemblyState::Done { guard: true },
            (AssemblyState::Traced, Err(e)) => if self.lenient {
                AssemblyState::Plain
            } else {
                AssemblyState::Failed(TelemetryRuntimeError::TelemetryCore(e))
            },
            (AssemblyState::Plain, Ok(_)) => AssemblyState::Done { guard: false },
            (AssemblyState::Plain, Err(e)) => AssemblyState::Failed(
                TelemetryRuntimeError::TokioRuntimeBuilder(e),
            ),
            (state, _) => state,
        };
    }
}

/// A lenient configuration comes to a runtime whatever fails of its telemetry,
/// as long as a plain runtime can be built; without a guard where something
/// failed.
pub proof fn lemma_lenient_survives_telemetry_failures(
    writer: std::io::Result<()>,
    traced: std::io::Result<()>,
    plain: std::io::Result<()>,
)
    requires
        plain is Ok,
    ensures
        ({
            let opened = assembly_step(true, AssemblyState::Writer, writer);
            let started = if opened == AssemblyState::Traced {
                assembly_step(true, opened, traced)
            } else {
                opened
            };
            let end = if started == AssemblyState::Plain {
                assembly_step(true, started, plain)
            } else {
                started
            };
            end == (AssemblyState::Done { guard: writer is Ok && traced is Ok })
        }),
{
}

/// A strict configuration reports the first failure, and what it is of.
pub proof fn lemma_strict_reports_failures(e: std::io::Error)
    ensures
        assembly_step(false, AssemblyState::Writer, Err(e)) == AssemblyState::Failed(
            TelemetryRuntimeError::RotatingWriter(e),
        ),
        assembly_step(false, AssemblyState::Traced, Err(e)) == AssemblyState::Failed(
            TelemetryRuntimeError::TelemetryCore(e),
        ),
        assembly_step(false, AssemblyState::Plain, Err(e)) == AssemblyState::Failed(
            TelemetryRuntimeError::TokioRuntimeBuilder(e),
        ),
{
}

/// The writer of an enabled configuration is opened with what was configured:
/// the first step has the path, the two sizes and the rotation period that the
/// setters of these names were given. The step after it starts the runtime
/// that the configurators made. A configuration without telemetry asks for
/// neither.
pub proof fn lemma_writer_is_opened_as_configured<
    T,
    R: FnOnce(TracedRuntimeBuilder) -> TracedRuntimeBuilder,
>(m: ConfigModel<T, R>, inner: InnerModel<T>, opened: std::io::Result<()>, lenient: bool)
    requires
        is_assembled(m, Ok(inner)),
        opened is Ok,
    ensures
        m.enabled ==> {
            &&& step_of(inner, first_state(inner)) matches AssemblyStepModel::OpenWriter {
                base_path,
                max_file_size,
                max_total_size,
                rotation_period,
            } && m.base_path == Some(base_path) && m.max_file_size == Some(max_file_size)
                && m.max_total_size == Some(max_total_size) && rotation_period == m.rotation_period
            &&& step_of(inner, assembly_step(lenient, first_state(inner), opened)) matches
                AssemblyStepModel::StartTraced(runtime) && inner matches InnerModel::Enabled {
                runtime: made,
                ..
            } && runtime == made
        },
        !m.enabled ==> step_of(inner, first_state(inner)) is BuildPlain,
{
}

/// The value of a step has each of its fields under the same name.
pub proof fn lemma_value_has_every_field_of_the_step(step: AssemblyStep)
    ensures
        match (step, step@) {
            (
                AssemblyStep::OpenWriter {
                    base_path,
                    max_file_size,
                    max_total_size,
                    rotation_period,
                },
                AssemblyStepModel::OpenWriter {
                    base_path: path,
                    max_file_size: file_size,
                    max_total_size: total_size,
                    rotation_period: period,
                },
            ) => path == base_path@ && file_size == max_file_size && total_size == max_total_size
                && period == rotation_period,
            (AssemblyStep::StartTraced(b), AssemblyStepModel::StartTraced(runtime)) => runtime
                == b@,
            (AssemblyStep::BuildPlain, AssemblyStepModel::BuildPlain) => true,
            (AssemblyStep::Done { guard }, AssemblyStepModel::Done { guard: g }) => g == guard,
            (AssemblyStep::Failed, AssemblyStepModel::Failed) => true,
            _ => false,
        },
{
}

/// Where all goes well the writer is opened, then the traced runtime is
/// started, and the runtime comes with a guard; without telemetry a plain
/// runtime is all that is built, and it comes without. Strict and lenient
/// configurations do not differ in this, and an assembly that has come to its
/// end stays there.
pub proof fn lemma_success_leads_to_a_runtime<T>(
    inner: InnerModel<T>,
    lenient: bool,
    opened: std::io::Result<()>,
    started: std::io::Result<()>,
    late: std::io::Result<()>,
    guard: bool,
    error: TelemetryRuntimeError,
)
    requires
        opened is Ok,
        started is Ok,
    ensures
        inner is Enabled ==> assembly_step(
            lenient,
            assembly_step(lenient, first_state(inner), opened),
            started,
        ) == (AssemblyState::Done { guard: true }),
        inner is Disabled ==> assembly_step(lenient, first_state(inner), opened) == (
        AssemblyState::Done { guard: false }),
        assembly_step(lenient, AssemblyState::Done { guard }, late) == (AssemblyState::Done {
            guard,
        }),
        assembly_step(lenient, AssemblyState::Failed(error), late) == AssemblyState::Failed(error),
        step_of(inner, AssemblyState::Done { guard }) == (AssemblyStepModel::Done { guard }),
        step_of(inner, AssemblyState::Failed(error)) is Failed,
        step_of(inner, AssemblyState::Plain) is BuildPlain,
{
}

/// An error says what failed and keeps the I/O error behind it.
pub proof fn lemma_error_says_what_failed(e: std::io::Error)
    ensures
        TelemetryRuntimeError::RotatingWriter(e).cause() == e,
        TelemetryRuntimeError::TokioRuntimeBuilder(e).cause() == e,
        TelemetryRuntimeError::TelemetryCore(e).cause() == e,
        TelemetryRuntimeError::RotatingWriter(e).label() == "rotating writer: "@,
        TelemetryRuntimeError::TokioRuntimeBuilder(e).label() == "tokio runtime builder: "@,
        TelemetryRuntimeError::TelemetryCore(e).label() == "telemetry core: "@,
{
}

} // verus!
