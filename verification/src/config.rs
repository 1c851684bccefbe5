//! Unified configuration of a traced runtime.
//!
//! Start with [`Dial9Config::builder`] and chain setters to produce a
//! [`Dial9Config`]. To run without telemetry while preserving tokio knobs, call
//! `.enabled(false)` — the builder then skips required-field validation and
//! what was configured of the traced runtime is ignored.
//!
//! A configuration is generic in its tokio configurators `T`, which it keeps in
//! order and hands over unread, and in its runtime configurators `R`, which are
//! queued and applied when an enabled configuration is built.

use crate::telemetry::recorder::builder::{RuntimeModel, TracedRuntime, TracedRuntimeBuilder};
use crate::text::{push_text, IntoText};
use crate::time::Duration;
use vstd::prelude::*;

verus! {

/// Errors produced while building a [`Dial9Config`].
#[derive(Debug)]
#[non_exhaustive]
pub enum Dial9ConfigBuilderError {
    /// Telemetry is enabled (the default) but one or more required writer
    /// fields were never set on the builder.
    MissingFields(MissingFields),
}

/// Opaque payload for [`Dial9ConfigBuilderError::MissingFields`].
#[derive(Debug)]
pub struct MissingFields {
    fields: Vec<&'static str>,
}

/// The names as characters.
pub open spec fn field_names(fields: Seq<&'static str>) -> Seq<Seq<char>> {
    fields.map_values(|f: &'static str| f@)
}

/// The names, with `, ` between them.
pub open spec fn joined(names: Seq<Seq<char>>) -> Seq<char>
    decreases names.len(),
{
    if names.len() == 0 {
        Seq::empty()
    } else if names.len() == 1 {
        names[0]
    } else {
        joined(names.drop_last()) + ", "@ + names.last()
    }
}

impl View for MissingFields {
    type V = Seq<Seq<char>>;

    closed spec fn view(&self) -> Seq<Seq<char>> {
        field_names(self.fields@)
    }
}

impl MissingFields {
    /// The names of the required builder setters that were not called.
    pub fn fields(&self) -> (f: &[&'static str])
        ensures
            field_names(f@) == self@,
    {
        self.fields.as_slice()
    }

    /// What is missing, in words.
    pub fn message(&self) -> (text: String)
        ensures
            text@ == "missing required Dial9Config fields: "@ + joined(self@),
    {
        let mut text = String::new();
        push_text(&mut text, "missing required Dial9Config fields: ");
        let ghost head = text@;
        let ghost names = self@;
        let mut i: usize = 0;
        assert(head =~= "missing required Dial9Config fields: "@);
        assert(names.take(0) =~= Seq::empty());
        assert(text@ =~= head + joined(names.take(0)));
        while i < self.fields.len()
            invariant
                i <= self.fields@.len(),
                names == field_names(self.fields@),
                text@ == head + joined(names.take(i as int)),
            decreases self.fields@.len() - i,
        {
            let ghost next = names.take(i + 1);
            assert(next.drop_last() =~= names.take(i as int));
            assert(next.last() == self.fields@[i as int]@);
            if i > 0 {
                push_text(&mut text, ", ");
            }
            push_text(&mut text, self.fields[i]);
            i = i + 1;
            assert(text@ =~= head + joined(next));
        }
        assert(names.take(i as int) =~= names);
        text
    }
}

impl Dial9ConfigBuilderError {
    /// What is wrong, in words.
    pub fn message(&self) -> (text: String)
        ensures
            match *self {
                Dial9ConfigBuilderError::MissingFields(m) => text@
                    == "missing required Dial9Config fields: "@ + joined(m@),
            },
    {
        match self {
            Dial9ConfigBuilderError::MissingFields(m) => m.message(),
        }
    }
}

/// What a configuration comes to.
#[derive(Debug)]
pub enum Inner<T> {
    Enabled {
        base_path: String,
        max_file_size: u64,
        max_total_size: u64,
        rotation_period: Option<Duration>,
        tokio_configurators: Vec<T>,
        runtime_builder: TracedRuntimeBuilder,
    },
    Disabled { tokio_configurators: Vec<T> },
}

/// The value of an [`Inner`].
#[verifier::ext_equal]
#[verifier::reject_recursive_types(T)]
pub enum InnerModel<T> {
    Enabled {
        base_path: Seq<char>,
        max_file_size: u64,
        max_total_size: u64,
        rotation_period: Option<Duration>,
        tokio_configurators: Seq<T>,
        runtime: RuntimeModel,
    },
    Disabled { tokio_configurators: Seq<T> },
}

impl<T> View for Inner<T> {
    type V = InnerModel<T>;

    open spec fn view(&self) -> InnerModel<T> {
        match *self {
            Inner::Enabled {
                base_path,
                max_file_size,
                max_total_size,
                rotation_period,
                tokio_configurators,
                runtime_builder,
            } => InnerModel::Enabled {
                base_path: base_path@,
                max_file_size,
                max_total_size,
                rotation_period,
                tokio_configurators: tokio_configurators@,
                runtime: runtime_builder@,
            },
            Inner::Disabled { tokio_configurators } => InnerModel::Disabled {
                tokio_configurators: tokio_configurators@,
            },
        }
    }
}

/// Finalized strict configuration.
///
/// Constructed via [`Dial9Config::builder`] followed by
/// [`Dial9ConfigBuilder::build`]. Every I/O failure on the way to a runtime is
/// reported. For an opt-in lenient variant that silently downgrades to a plain
/// tokio runtime on I/O failure, see [`Dial9ConfigFallback`].
#[derive(Debug)]
pub struct Dial9Config<T>(pub Inner<T>);

/// Lenient configuration variant that opts into a fallback.
///
/// Constructed via [`Dial9ConfigBuilder::build_or_disabled`]. A writer or
/// telemetry failure on the way to a runtime downgrades to a plain tokio
/// runtime with the same tokio configurators.
#[derive(Debug)]
pub struct Dial9ConfigFallback<T>(pub Inner<T>);

/// Collects the parts of a [`Dial9Config`].
#[derive(Debug)]
pub struct Dial9ConfigBuilder<T, R> {
    tokio_configurators: Vec<T>,
    runtime_configurators: Vec<R>,
    enabled: bool,
    base_path: Option<String>,
    max_file_size: Option<u64>,
    max_total_size: Option<u64>,
    rotation_period: Option<Duration>,
}

/// The value of a [`Dial9ConfigBuilder`].
#[verifier::ext_equal]
#[verifier::reject_recursive_types(T)]
#[verifier::reject_recursive_types(R)]
pub struct ConfigModel<T, R> {
    pub tokio_configurators: Seq<T>,
    /// The queued runtime configurators, in call order.
    pub runtime_configurators: Seq<R>,
    pub enabled: bool,
    pub base_path: Option<Seq<char>>,
    pub max_file_size: Option<u64>,
    pub max_total_size: Option<u64>,
    pub rotation_period: Option<Duration>,
}

impl<T, R> View for Dial9ConfigBuilder<T, R> {
    type V = ConfigModel<T, R>;

    closed spec fn view(&self) -> ConfigModel<T, R> {
        ConfigModel {
            tokio_configurators: self.tokio_configurators@,
            runtime_configurators: self.runtime_configurators@,
            enabled: self.enabled,
            base_path: match self.base_path {
                Some(p) => Some(p@),
                None => None,
            },
            max_file_size: self.max_file_size,
            max_total_size: self.max_total_size,
            rotation_period: self.rotation_period,
        }
    }
}

/// The required fields that are missing, in a fixed order.
pub open spec fn missing_names<T, R>(m: ConfigModel<T, R>) -> Seq<Seq<char>> {
    (if m.base_path is None {
        seq!["base_path"@]
    } else {
        Seq::empty()
    }) + (if m.max_file_size is None {
        seq!["max_file_size"@]
    } else {
        Seq::empty()
    }) + (if m.max_total_size is None {
        seq!["max_total_size"@]
    } else {
        Seq::empty()
    })
}

/// Whether nothing that is required is missing.
pub open spec fn is_complete<T, R>(m: ConfigModel<T, R>) -> bool {
    m.base_path is Some && m.max_file_size is Some && m.max_total_size is Some
}

/// The builder that the first runtime configurator is given.
pub open spec fn first_runtime(base_path: Seq<char>) -> RuntimeModel {
    RuntimeModel {
        task_tracking: false,
        cpu_profiling: None,
        sched_events: None,
        inline_symbols: false,
        trace_path: Some(base_path),
    }
}

/// Whether each builder of `chain` is what the configurator at its place may
/// make of the one before it.
pub open spec fn is_chain<R: FnOnce(TracedRuntimeBuilder) -> TracedRuntimeBuilder>(
    configurators: Seq<R>,
    chain: Seq<TracedRuntimeBuilder>,
) -> bool {
    &&& 0 < chain.len() <= configurators.len() + 1
    &&& forall|i: int|
        0 < i < chain.len() ==> call_ensures(
            configurators[i - 1],
            (chain[i - 1],),
            #[trigger] chain[i],
        )
}

/// Whether the configurators can be called one after the other, each once, from
/// `b` on: each accepts what those before it may make of `b`.
pub open spec fn can_apply<R: FnOnce(TracedRuntimeBuilder) -> TracedRuntimeBuilder>(
    configurators: Seq<R>,
    b: TracedRuntimeBuilder,
) -> bool {
    forall|chain: Seq<TracedRuntimeBuilder>| #[trigger]
        is_chain(configurators, chain) && chain[0] == b && chain.len() <= configurators.len()
            ==> call_requires(configurators[chain.len() - 1], (chain.last(),))
}

/// Whether calling the configurators in order, each once, each with what the
/// one before returned, may lead from `b` to `end`.
pub open spec fn applied<R: FnOnce(TracedRuntimeBuilder) -> TracedRuntimeBuilder>(
    configurators: Seq<R>,
    b: TracedRuntimeBuilder,
    end: TracedRuntimeBuilder,
) -> bool {
    exists|chain: Seq<TracedRuntimeBuilder>| #[trigger]
        is_chain(configurators, chain) && chain.len() == configurators.len() + 1 && chain[0] == b
            && chain.last() == end
}

/// Whether the runtime configurators can be applied, where they are: telemetry
/// is on and nothing is missing.
pub open spec fn configurators_run<T, R: FnOnce(TracedRuntimeBuilder) -> TracedRuntimeBuilder>(
    m: ConfigModel<T, R>,
) -> bool {
    m.enabled && is_complete(m) ==> forall|first: TracedRuntimeBuilder|
        first@ == first_runtime(m.base_path->Some_0) ==> #[trigger] can_apply(
            m.runtime_configurators,
            first,
        )
}

/// Whether the builder that `runtime` is the value of came out of the
/// configurators, the first of which was given a builder with `base_path` as its
/// trace path.
pub open spec fn configured<R: FnOnce(TracedRuntimeBuilder) -> TracedRuntimeBuilder>(
    configurators: Seq<R>,
    base_path: Seq<char>,
    runtime: RuntimeModel,
) -> bool {
    exists|first: TracedRuntimeBuilder, end: TracedRuntimeBuilder| #[trigger]
        applied(configurators, first, end) && first@ == first_runtime(base_path) && end@ == runtime
}

/// Whether `r` is what is built: without telemetry where it is off; where it is
/// on, nothing unless all required fields are there. Only where all are there
/// are the runtime configurators applied.
pub open spec fn is_assembled<T, R: FnOnce(TracedRuntimeBuilder) -> TracedRuntimeBuilder>(
    m: ConfigModel<T, R>,
    r: Result<InnerModel<T>, Seq<Seq<char>>>,
) -> bool {
    if !m.enabled {
        r == Ok::<InnerModel<T>, Seq<Seq<char>>>(
            InnerModel::Disabled { tokio_configurators: m.tokio_configurators },
        )
    } else if is_complete(m) {
        r matches Ok(InnerModel::Enabled {
            base_path,
            max_file_size,
            max_total_size,
            rotation_period,
            tokio_configurators,
            runtime,
        }) && {
            &&& base_path == m.base_path->Some_0
            &&& max_file_size == m.max_file_size->Some_0
            &&& max_total_size == m.max_total_size->Some_0
            &&& rotation_period == m.rotation_period
            &&& tokio_configurators == m.tokio_configurators
            &&& configured(m.runtime_configurators, base_path, runtime)
        }
    } else {
        r == Err::<InnerModel<T>, Seq<Seq<char>>>(missing_names(m))
    }
}

impl<T> Dial9Config<T> {
    /// Start a fluent configuration chain.
    ///
    /// When telemetry is enabled (the default), the following setters are
    /// required: [`base_path`](Dial9ConfigBuilder::base_path),
    /// [`max_file_size`](Dial9ConfigBuilder::max_file_size),
    /// [`max_total_size`](Dial9ConfigBuilder::max_total_size). They may be
    /// omitted if `.enabled(false)` is set.
    pub fn builder<R>() -> (b: Dial9ConfigBuilder<T, R>)
        ensures
            b@.tokio_configurators == Seq::<T>::empty(),
            b@.runtime_configurators == Seq::<R>::empty(),
            b@.enabled,
            b@.base_path is None,
            b@.max_file_size is None,
            b@.max_total_size is None,
            b@.rotation_period is None,
    {
        Dial9ConfigBuilder {
            tokio_configurators: Vec::new(),
            runtime_configurators: Vec::new(),
            enabled: true,
            base_path: None,
            max_file_size: None,
            max_total_size: None,
            rotation_period: None,
        }
    }
}

impl<T, R> Dial9ConfigBuilder<T, R> {
    /// Defaults to `true`. When `false`, required writer fields are ignored and
    /// the runtime is built without telemetry.
    pub fn enabled(self, enabled: bool) -> (b: Dial9ConfigBuilder<T, R>)
        ensures
            b@ == (ConfigModel { enabled, ..self@ }),
    {
        Dial9ConfigBuilder { enabled, ..self }
    }

    /// Trace output path.
    pub fn base_path<P: IntoText>(self, base_path: P) -> (b: Dial9ConfigBuilder<T, R>)
        ensures
            b@ == (ConfigModel { base_path: Some(base_path.text()), ..self@ }),
    {
        Dial9ConfigBuilder { base_path: Some(base_path.into_text()), ..self }
    }

    /// Per-file rotation threshold in bytes.
    pub fn max_file_size(self, max_file_size: u64) -> (b: Dial9ConfigBuilder<T, R>)
        ensures
            b@ == (ConfigModel { max_file_size: Some(max_file_size), ..self@ }),
    {
        Dial9ConfigBuilder { max_file_size: Some(max_file_size), ..self }
    }

    /// Total disk budget in bytes.
    pub fn max_total_size(self, max_total_size: u64) -> (b: Dial9ConfigBuilder<T, R>)
        ensures
            b@ == (ConfigModel { max_total_size: Some(max_total_size), ..self@ }),
    {
        Dial9ConfigBuilder { max_total_size: Some(max_total_size), ..self }
    }

    /// Wall-clock rotation period for the writer.
    pub fn rotation_period(self, rotation_period: Duration) -> (b: Dial9ConfigBuilder<T, R>)
        ensures
            b@ == (ConfigModel { rotation_period: Some(rotation_period), ..self@ }),
    {
        Dial9ConfigBuilder { rotation_period: Some(rotation_period), ..self }
    }

    /// Queue a configurator for the tokio runtime builder.
    ///
    /// Can be called multiple times; configurators are kept in call order and
    /// applied each time a runtime is built.
    pub fn with_tokio(self, f: T) -> (b: Dial9ConfigBuilder<T, R>)
        ensures
            b@ == (ConfigModel {
                tokio_configurators: self@.tokio_configurators.push(f),
                ..self@
            }),
    {
        let mut tokio_configurators = self.tokio_configurators;
        tokio_configurators.push(f);
        Dial9ConfigBuilder { tokio_configurators, ..self }
    }

    /// Queue a configurator for the traced runtime.
    ///
    /// It receives the staged builder by value and must return it. Queued
    /// configurators are applied in call order during `build()`, once
    /// `base_path` is known. When `.enabled(false)` is set, queued configurators
    /// are ignored.
    pub fn with_runtime(self, f: R) -> (b: Dial9ConfigBuilder<T, R>)
        ensures
            b@ == (ConfigModel {
                runtime_configurators: self@.runtime_configurators.push(f),
                ..self@
            }),
    {
        let mut runtime_configurators = self.runtime_configurators;
        runtime_configurators.push(f);
        Dial9ConfigBuilder { runtime_configurators, ..self }
    }
}

impl<T, R: FnOnce(TracedRuntimeBuilder) -> TracedRuntimeBuilder> Dial9ConfigBuilder<T, R> {
    /// Finish into a [`Dial9Config`]. Fails exactly if telemetry is enabled and
    /// a required field is missing; the error names all that are.
    pub fn build(self) -> (r: Result<Dial9Config<T>, Dial9ConfigBuilderError>)
        requires
            configurators_run(self@),
        ensures
            is_assembled(
                self@,
                match r {
                    Ok(config) => Ok(config.0@),
                    Err(Dial9ConfigBuilderError::MissingFields(m)) => Err(m@),
                },
            ),
    {
        match assemble(self) {
            Ok(inner) => Ok(Dial9Config(inner)),
            Err((m, _)) => Err(Dial9ConfigBuilderError::MissingFields(m)),
        }
    }

    /// Finish into a [`Dial9ConfigFallback`]. Where a required field is missing,
    /// the configuration is one without telemetry, with the tokio configurators
    /// preserved.
    pub fn build_or_disabled(self) -> (c: Dial9ConfigFallback<T>)
        requires
            configurators_run(self@),
        ensures
            if self@.enabled && !is_complete(self@) {
                c.0@ == (InnerModel::Disabled { tokio_configurators: self@.tokio_configurators })
            } else {
                is_assembled(self@, Ok(c.0@))
            },
    {
        match assemble(self) {
            Ok(inner) => Dial9ConfigFallback(inner),
            Err((_, tokio_configurators)) => Dial9ConfigFallback(
                Inner::Disabled { tokio_configurators },
            ),
        }
    }
}

/// Calls the configurators in order, each once, from `b` on.
fn apply<R: FnOnce(TracedRuntimeBuilder) -> TracedRuntimeBuilder>(
    configurators: Vec<R>,
    b: TracedRuntimeBuilder,
) -> (end: TracedRuntimeBuilder)
    requires
        can_apply(configurators@, b),
    ensures
        applied(configurators@, b, end),
{
    let ghost all = configurators@;
    let ghost first = b;
    let ghost mut chain = seq![b];
    let mut current = b;
    for configure in it: configurators.into_iter()
        invariant
            it.seq() == all,
            can_apply(all, first),
            is_chain(all, chain),
            chain.len() == it.index() + 1,
            chain[0] == first,
            chain.last() == current,
    {
        assert(all[it.index()] == configure);
        let ghost given = current;
        current = configure(current);
        proof {
            let longer = chain.push(current);
            assert forall|i: int| 0 < i < longer.len() implies call_ensures(
                all[i - 1],
                (longer[i - 1],),
                #[trigger] longer[i],
            ) by {
                if i < chain.len() {
                    assert(longer[i] == chain[i]);
                }
            }
            assert(call_ensures(configure, (given,), current));
            chain = longer;
        }
    }
    current
}

/// What a builder comes to; with the error, the tokio configurators are handed
/// back.
fn assemble<T, R: FnOnce(TracedRuntimeBuilder) -> TracedRuntimeBuilder>(
    b: Dial9ConfigBuilder<T, R>,
) -> (r: Result<Inner<T>, (MissingFields, Vec<T>)>)
    requires
        configurators_run(b@),
    ensures
        is_assembled(
            b@,
            match r {
                Ok(inner) => Ok(inner@),
                Err((m, _)) => Err(m@),
            },
        ),
        r matches Err((_, kept)) ==> kept@ == b@.tokio_configurators,
{
    if !b.enabled {
        return Ok(Inner::Disabled { tokio_configurators: b.tokio_configurators });
    }
    match (b.base_path, b.max_file_size, b.max_total_size) {
        (Some(base_path), Some(max_file_size), Some(max_total_size)) => {
            let first = TracedRuntime::builder().with_trace_path(base_path.clone());
            assert(first@ =~= first_runtime(base_path@));
            let ghost given = first;
            assert(can_apply(b@.runtime_configurators, first));
            let runtime_builder = apply(b.runtime_configurators, first);
            assert(applied(b@.runtime_configurators, given, runtime_builder));
            Ok(
                Inner::Enabled {
                    base_path,
                    max_file_size,
                    max_total_size,
                    rotation_period: b.rotation_period,
                    tokio_configurators: b.tokio_configurators,
                    runtime_builder,
                },
            )
        },
        (base_path, max_file_size, max_total_size) => {
            let mut fields: Vec<&'static str> = Vec::new();
            if base_path.is_none() {
                fields.push("base_path");
            }
            if max_file_size.is_none() {
                fields.push("max_file_size");
            }
            if max_total_size.is_none() {
                fields.push("max_total_size");
            }
            assert(field_names(fields@) =~= missing_names(b@));
            Err((MissingFields { fields }, b.tokio_configurators))
        },
    }
}

/// A configuration lacks something exactly where telemetry is on and a required
/// field is missing; whatever else it comes to, it keeps its tokio
/// configurators.
pub proof fn lemma_build_keeps_tokio<T, R: FnOnce(TracedRuntimeBuilder) -> TracedRuntimeBuilder>(
    m: ConfigModel<T, R>,
    r: Result<InnerModel<T>, Seq<Seq<char>>>,
)
    requires
        is_assembled(m, r),
    ensures
        r is Err <==> m.enabled && missing_names(m).len() > 0,
        r matches Ok(inner) ==> (match inner {
            InnerModel::Enabled { tokio_configurators, .. } => tokio_configurators,
            InnerModel::Disabled { tokio_configurators } => tokio_configurators,
        }) == m.tokio_configurators,
{
}

/// With telemetry off, or with something missing, no runtime configurator has
/// any effect: the result is the same whatever was queued.
pub proof fn lemma_configurators_are_ignored<
    T,
    R: FnOnce(TracedRuntimeBuilder) -> TracedRuntimeBuilder,
>(m: ConfigModel<T, R>, queued: Seq<R>, r: Result<InnerModel<T>, Seq<Seq<char>>>)
    requires
        !m.enabled || !is_complete(m),
    ensures
        configurators_run(m),
        is_assembled(m, r) == is_assembled(
            ConfigModel { runtime_configurators: queued, ..m },
            r,
        ),
        is_assembled(m, r) ==> !(r matches Ok(inner) && inner is Enabled),
{
}

/// The value of what a configuration comes to has each of its fields under the
/// same name.
pub proof fn lemma_value_has_every_setting<T>(inner: Inner<T>)
    ensures
        match (inner, inner@) {
            (
                Inner::Enabled {
                    base_path,
                    max_file_size,
                    max_total_size,
                    rotation_period,
                    tokio_configurators,
                    runtime_builder,
                },
                InnerModel::Enabled {
                    base_path: path,
                    max_file_size: file_size,
                    max_total_size: total_size,
                    rotation_period: period,
                    tokio_configurators: tokio,
                    runtime,
                },
            ) => path == base_path@ && file_size == max_file_size && total_size == max_total_size
                && period == rotation_period && tokio == tokio_configurators@ && runtime
                == runtime_builder@,
            (
                Inner::Disabled { tokio_configurators },
                InnerModel::Disabled { tokio_configurators: tokio },
            ) => tokio == tokio_configurators@,
            _ => false,
        },
{
}

/// What is built has what was set: with telemetry on and all required fields
/// set, each field is the one given to the setter of its name, and the runtime
/// is what the queued configurators made, in order and each from what the one
/// before it returned, of a builder that has nothing but the path of the trace.
/// With telemetry off nothing but the tokio configurators is left.
pub proof fn lemma_configuration_has_what_was_set<
    T,
    R: FnOnce(TracedRuntimeBuilder) -> TracedRuntimeBuilder,
>(m: ConfigModel<T, R>, r: Result<InnerModel<T>, Seq<Seq<char>>>)
    requires
        is_assembled(m, r),
    ensures
        !m.enabled ==> (r matches Ok(InnerModel::Disabled { tokio_configurators })
            && tokio_configurators == m.tokio_configurators),
        m.enabled ==> match (m.base_path, m.max_file_size, m.max_total_size) {
            (Some(path), Some(file_size), Some(total_size)) => r matches Ok(
                InnerModel::Enabled {
                    base_path,
                    max_file_size,
                    max_total_size,
                    rotation_period,
                    tokio_configurators,
                    runtime,
                },
            ) && {
                &&& base_path == path
                &&& max_file_size == file_size
                &&& max_total_size == total_size
                &&& rotation_period == m.rotation_period
                &&& tokio_configurators == m.tokio_configurators
                &&& exists|chain: Seq<TracedRuntimeBuilder>|
                    {
                        &&& #[trigger] chain.len() == m.runtime_configurators.len() + 1
                        &&& chain[0]@.trace_path == Some(path)
                        &&& !chain[0]@.task_tracking
                        &&& chain[0]@.cpu_profiling is None
                        &&& chain[0]@.sched_events is None
                        &&& !chain[0]@.inline_symbols
                        &&& chain.last()@ == runtime
                        &&& forall|i: int|
                            0 < i < chain.len() ==> call_ensures(
                                m.runtime_configurators[i - 1],
                                (chain[i - 1],),
                                #[trigger] chain[i],
                            )
                    }
            },
            _ => r is Err,
        },
{
    if m.enabled && is_complete(m) {
        let path = m.base_path->Some_0;
        let runtime = r->Ok_0->runtime;
        let (first, end) = choose|first: TracedRuntimeBuilder, end: TracedRuntimeBuilder| #[trigger]
            applied(m.runtime_configurators, first, end) && first@ == first_runtime(path) && end@
                == runtime;
        let chain = choose|chain: Seq<TracedRuntimeBuilder>| #[trigger]
            is_chain(m.runtime_configurators, chain) && chain.len()
                == m.runtime_configurators.len() + 1 && chain[0] == first && chain.last() == end;
        assert(chain.len() == m.runtime_configurators.len() + 1);
    }
}

/// The error names exactly the required fields that were not set, each once and
/// in the order path, file size, total size.
pub proof fn lemma_error_names_what_is_missing<T, R>(m: ConfigModel<T, R>)
    ensures
        m.base_path is None ==> missing_names(m).len() > 0 && missing_names(m)[0] == "base_path"@,
        m.max_total_size is None ==> missing_names(m).len() > 0 && missing_names(m).last()
            == "max_total_size"@,
        m.max_file_size is None && m.base_path is None ==> missing_names(m).len() > 1
            && missing_names(m)[1] == "max_file_size"@,
        m.max_file_size is None && m.base_path is Some ==> missing_names(m).len() > 0
            && missing_names(m)[0] == "max_file_size"@,
        missing_names(m).len() == (if m.base_path is None {
            1int
        } else {
            0
        }) + (if m.max_file_size is None {
            1int
        } else {
            0
        }) + (if m.max_total_size is None {
            1int
        } else {
            0
        }),
{
}

/// A list of names in words is each name in order, with a comma and a blank
/// between two.
pub proof fn lemma_names_are_joined_in_order(names: Seq<Seq<char>>, name: Seq<char>)
    ensures
        joined(Seq::empty()) == Seq::<char>::empty(),
        joined(seq![name]) == name,
        names.len() > 0 ==> joined(names.push(name)) == joined(names) + seq![',', ' '] + name,
{
    reveal_strlit(", ");
    assert(", "@ =~= seq![',', ' ']);
    assert(names.push(name).drop_last() =~= names);
}

/// The names of fields are taken one by one, in order.
pub proof fn lemma_field_names_are_in_order(fields: Seq<&'static str>, i: int)
    requires
        0 <= i < fields.len(),
    ensures
        field_names(fields).len() == fields.len(),
        field_names(fields)[i] == fields[i]@,
{
}

/// The path and the two sizes are required, and nothing else is.
pub proof fn lemma_what_is_required<T, R>(m: ConfigModel<T, R>)
    ensures
        is_complete(m) <==> m.base_path is Some && m.max_file_size is Some && m.max_total_size
            is Some,
        is_complete(m) <==> missing_names(m).len() == 0,
{
}

} // verus!
