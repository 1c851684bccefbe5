//! CPU profiling integration: merges stack samples into the telemetry stream.
//!
//! A process-wide sampler captures CPU stack traces at a configurable
//! frequency; per-thread samplers capture context switches and kernel
//! tracepoints. What the samplers yield is turned into events here.

use crate::telemetry::codec::{field_models, FieldModel, FieldType, FieldValue};
use crate::telemetry::events::CpuSampleSource;
use crate::text::{
    decimal, from_chars, push_decimal, push_text, to_chars, trimmed, trimmed_range, IntoText,
};
use std::collections::HashMap;
use vstd::prelude::*;

verus! {

broadcast use vstd::std_specs::hash::group_hash_axioms;

/// What a sampler listens to.
#[derive(Debug, Clone, Copy, PartialEq, Eq, Structural)]
pub enum EventSource {
    /// The CPU clock of the kernel.
    SwCpuClock,
    /// Context switches.
    SwContextSwitches,
    /// The kernel tracepoint with this id.
    Tracepoint(u64),
}

/// How a sampler is to be opened.
#[derive(Debug, Clone, Copy, PartialEq, Eq, Structural)]
pub struct SamplerConfig {
    /// Sampling frequency in Hz.
    pub frequency_hz: u64,
    /// What to listen to.
    pub event_source: EventSource,
    /// Whether to take kernel stack frames in.
    pub include_kernel: bool,
}

/// Configuration for CPU profiling integration.
#[derive(Debug, Clone, Copy, PartialEq, Eq, Structural)]
pub struct CpuProfilingConfig {
    /// Sampling frequency in Hz. Default: 99 (low overhead).
    pub frequency_hz: u64,
    /// Which perf event source to use.
    pub event_source: EventSource,
    /// Whether to take kernel stack frames in.
    pub include_kernel: bool,
}

impl Default for CpuProfilingConfig {
    fn default() -> (c: CpuProfilingConfig)
        ensures
            c == (CpuProfilingConfig {
                frequency_hz: 99,
                event_source: EventSource::SwCpuClock,
                include_kernel: false,
            }),
    {
        CpuProfilingConfig {
            frequency_hz: 99,
            event_source: EventSource::SwCpuClock,
            include_kernel: false,
        }
    }
}

impl CpuProfilingConfig {
    /// How the process-wide sampler is to be opened.
    pub fn sampler(&self) -> (s: SamplerConfig)
        ensures
            s == (SamplerConfig {
                frequency_hz: self.frequency_hz,
                event_source: self.event_source,
                include_kernel: self.include_kernel,
            }),
    {
        SamplerConfig {
            frequency_hz: self.frequency_hz,
            event_source: self.event_source,
            include_kernel: self.include_kernel,
        }
    }
}

/// Configuration for per-worker sched event capture (context switches).
///
/// Each worker thread gets a sampler of its own when it starts.
#[derive(Debug, Clone, Copy, PartialEq, Eq, Structural)]
pub struct SchedEventConfig {
    /// Whether to take kernel stack frames in.
    pub include_kernel: bool,
}

impl Default for SchedEventConfig {
    fn default() -> (c: SchedEventConfig)
        ensures
            !c.include_kernel,
    {
        SchedEventConfig { include_kernel: false }
    }
}

impl SchedEventConfig {
    /// How the per-thread samplers are to be opened: every context switch.
    pub fn sampler(&self) -> (s: SamplerConfig)
        ensures
            s == (SamplerConfig {
                frequency_hz: 1,
                event_source: EventSource::SwContextSwitches,
                include_kernel: self.include_kernel,
            }),
    {
        SamplerConfig {
            frequency_hz: 1,
            event_source: EventSource::SwContextSwitches,
            include_kernel: self.include_kernel,
        }
    }
}

/// A CPU sample before worker-id resolution.
#[derive(Debug)]
pub struct RawCpuSample {
    pub tid: u32,
    pub timestamp_nanos: u64,
    pub callchain: Vec<u64>,
    pub source: CpuSampleSource,
}

/// A sample as a sampler yields it.
#[derive(Debug)]
pub struct PerfSample {
    pub pid: u32,
    pub tid: u32,
    pub cpu: u32,
    pub time: u64,
    pub callchain: Vec<u64>,
}

/// The path of the file that holds the name of a thread.
pub fn comm_path(tid: u32) -> (path: String)
    ensures
        path@ == "/proc/self/task/"@ + decimal(tid as nat) + "/comm"@,
{
    let mut path = String::new();
    push_text(&mut path, "/proc/self/task/");
    push_decimal(&mut path, tid as u64);
    push_text(&mut path, "/comm");
    assert(path@ =~= "/proc/self/task/"@ + decimal(tid as nat) + "/comm"@);
    path
}

/// The name in a `comm` file: without the white space around it, `None` if
/// nothing is left or the file could not be read.
pub open spec fn comm_name(comm: Option<Seq<char>>) -> Option<Seq<char>> {
    match comm {
        Some(text) => if trimmed(text).len() > 0 {
            Some(trimmed(text))
        } else {
            None
        },
        None => None,
    }
}

/// The name of a thread, from what its `comm` file holds; `None` if the file
/// could not be read or holds no name.
pub fn read_thread_name(comm: Option<String>) -> (name: Option<String>)
    ensures
        text_opt(name) == comm_name(text_opt(comm)),
{
    match comm {
        Some(text) => {
            let chars = to_chars(text.as_str());
            let (from, to) = trimmed_range(&chars);
            if from < to {
                Some(from_chars(&chars, from, to))
            } else {
                None
            }
        },
        None => None,
    }
}

/// The characters of a text that may be missing.
pub open spec fn text_opt(s: Option<String>) -> Option<Seq<char>> {
    match s {
        Some(s) => Some(s@),
        None => None,
    }
}

/// Attributes the samples of the process-wide sampler to threads by name.
#[derive(Debug)]
pub struct CpuProfiler {
    pid: u32,
    /// OS tid → thread name, cached at drain time so that short-lived threads
    /// are captured before they exit and their `comm` file disappears.
    tid_to_name: HashMap<u32, String>,
}

impl CpuProfiler {
    /// The process whose samples are kept.
    pub closed spec fn spec_pid(self) -> u32 {
        self.pid
    }

    /// The names that are known.
    pub closed spec fn names(self) -> Map<u32, Seq<char>> {
        self.tid_to_name@.map_values(|s: String| s@)
    }

    /// A profiler of the process `pid` that knows no thread.
    pub fn new(pid: u32) -> (p: CpuProfiler)
        ensures
            p.spec_pid() == pid,
            p.names() == Map::<u32, Seq<char>>::empty(),
    {
        let p = CpuProfiler { pid, tid_to_name: HashMap::new() };
        assert(p.names() =~= Map::<u32, Seq<char>>::empty());
        p
    }

    /// Whether the name of the sample's thread is to be read: the sample is of
    /// this process and the name is not known yet.
    pub fn wants_name(&self, sample: &PerfSample) -> (b: bool)
        ensures
            b == (sample.pid == self.spec_pid() && !self.names().contains_key(sample.tid)),
    {
        assert(self.names().contains_key(sample.tid) == self.tid_to_name@.contains_key(sample.tid));
        sample.pid == self.pid && !self.tid_to_name.contains_key(&sample.tid)
    }

    /// Take a sample. Those of child processes are dropped. `comm` is what the
    /// `comm` file of its thread holds, if it was read; a name that is found
    /// there is kept, a known one is not replaced.
    pub fn accept(&mut self, sample: PerfSample, comm: Option<String>) -> (s: Option<
        (RawCpuSample, Option<String>),
    >)
        ensures
            final(self).spec_pid() == old(self).spec_pid(),
            sample.pid != old(self).spec_pid() ==> s is None && final(self).names() == old(
                self,
            ).names(),
            sample.pid == old(self).spec_pid() ==> {
                &&& final(self).names() == (match comm_name(text_opt(comm)) {
                    Some(name) => if old(self).names().contains_key(sample.tid) {
                        old(self).names()
                    } else {
                        old(self).names().insert(sample.tid, name)
                    },
                    None => old(self).names(),
                })
                &&& s matches Some((raw, name)) && {
                    &&& raw.tid == sample.tid
                    &&& raw.timestamp_nanos == sample.time
                    &&& raw.callchain@ == sample.callchain@
                    &&& raw.source == CpuSampleSource::CpuProfile
                    &&& text_opt(name) == (if final(self).names().contains_key(sample.tid) {
                        Some(final(self).names()[sample.tid])
                    } else {
                        None
                    })
                }
            },
    {
        if sample.pid != self.pid {
            return None;
        }
        let ghost before = self.names();
        assert(before.contains_key(sample.tid) == self.tid_to_name@.contains_key(sample.tid));
        if !self.tid_to_name.contains_key(&sample.tid) {
            if let Some(name) = read_thread_name(comm) {
                let ghost chars = name@;
                self.tid_to_name.insert(sample.tid, name);
                assert(self.names() =~= before.insert(sample.tid, chars));
            }
        }
        let name: Option<String> = match self.tid_to_name.get(&sample.tid) {
            Some(name) => Some(name.clone()),
            None => None,
        };
        Some(
            (
                RawCpuSample {
                    tid: sample.tid,
                    timestamp_nanos: sample.time,
                    callchain: sample.callchain,
                    source: CpuSampleSource::CpuProfile,
                },
                name,
            ),
        )
    }
}

/// A context switch of a worker thread.
pub fn sched_sample(sample: PerfSample) -> (raw: RawCpuSample)
    ensures
        raw.tid == sample.tid,
        raw.timestamp_nanos == sample.time,
        raw.callchain@ == sample.callchain@,
        raw.source == CpuSampleSource::SchedEvent,
{
    RawCpuSample {
        tid: sample.tid,
        timestamp_nanos: sample.time,
        callchain: sample.callchain,
        source: CpuSampleSource::SchedEvent,
    }
}

/// A field of a record: its name and its type on the wire.
#[derive(Debug, Clone)]
pub struct FieldDef {
    pub name: String,
    pub field_type: FieldType,
}

/// The value of each field definition of a sequence.
pub open spec fn field_defs(fields: Seq<FieldDef>) -> Seq<(Seq<char>, FieldType)> {
    fields.map_values(|f: FieldDef| (f.name@, f.field_type))
}

/// A tracepoint as tracefs describes it.
#[derive(Debug, Clone)]
pub struct TracepointDef {
    pub name: String,
    pub id: u64,
    pub fields: Vec<FieldDef>,
}

impl TracepointDef {
    /// How the per-thread samplers are to be opened: every hit, without kernel
    /// frames.
    pub fn sampler(&self) -> (s: SamplerConfig)
        ensures
            s == (SamplerConfig {
                frequency_hz: 1,
                event_source: EventSource::Tracepoint(self.id),
                include_kernel: false,
            }),
    {
        SamplerConfig {
            frequency_hz: 1,
            event_source: EventSource::Tracepoint(self.id),
            include_kernel: false,
        }
    }
}

/// A kernel tracepoint to capture into the trace.
///
/// Tracepoints are identified by `subsystem:event` names matching the tracefs
/// layout at `/sys/kernel/debug/tracing/events/<subsystem>/<event>/format`.
#[derive(Debug, Clone)]
pub struct Tracepoint(TracepointInner);

#[derive(Debug, Clone)]
enum TracepointInner {
    Named { subsystem: String, event: String },
    Resolved(TracepointDef),
}

/// A tracepoint that is not of the form `subsystem:event`.
#[derive(Debug, Clone)]
pub struct TracepointParseError {
    input: String,
}

impl TracepointParseError {
    /// What was to be parsed.
    pub closed spec fn spec_input(self) -> Seq<char> {
        self.input@
    }

    /// What is wrong, in words.
    pub fn message(&self) -> (text: String)
        ensures
            text@ == "expected 'subsystem:event', got '"@ + self.spec_input() + "'"@,
    {
        let mut text = String::new();
        push_text(&mut text, "expected 'subsystem:event', got '");
        push_text(&mut text, self.input.as_str());
        push_text(&mut text, "'");
        assert(text@ =~= "expected 'subsystem:event', got '"@ + self.spec_input() + "'"@);
        text
    }
}

/// The value of a [`Tracepoint`].
pub enum TracepointModel {
    Named { subsystem: Seq<char>, event: Seq<char> },
    Resolved(TracepointDef),
}

impl View for Tracepoint {
    type V = TracepointModel;

    closed spec fn view(&self) -> TracepointModel {
        match self.0 {
            TracepointInner::Named { subsystem, event } => TracepointModel::Named {
                subsystem: subsystem@,
                event: event@,
            },
            TracepointInner::Resolved(def) => TracepointModel::Resolved(def),
        }
    }
}

/// The place of the first `c` in `s`, or the length of `s`.
pub open spec fn first_of(s: Seq<char>, c: char) -> nat
    decreases s.len(),
{
    if s.len() == 0 || s[0] == c {
        0
    } else {
        1 + first_of(s.skip(1), c)
    }
}

proof fn lemma_first_of(s: Seq<char>, c: char)
    ensures
        first_of(s, c) <= s.len(),
        first_of(s, c) < s.len() ==> s[first_of(s, c) as int] == c,
        forall|i: int| 0 <= i < first_of(s, c) ==> s[i] != c,
    decreases s.len(),
{
    if s.len() > 0 && s[0] != c {
        lemma_first_of(s.skip(1), c);
        assert forall|i: int| 0 <= i < first_of(s, c) implies s[i] != c by {
            if i > 0 {
                assert(s[i] == s.skip(1)[i - 1]);
            }
        }
    }
}

impl Tracepoint {
    /// Create a tracepoint from subsystem and event names. Infallible.
    pub fn new<S: IntoText, E: IntoText>(subsystem: S, event: E) -> (t: Tracepoint)
        ensures
            t@ == (TracepointModel::Named { subsystem: subsystem.text(), event: event.text() }),
    {
        Tracepoint(
            TracepointInner::Named { subsystem: subsystem.into_text(), event: event.into_text() },
        )
    }

    /// Parse a `"subsystem:event"` string (the format used by `perf record -e`).
    /// What follows the first colon is the event.
    pub fn parse(s: &str) -> (t: Result<Tracepoint, TracepointParseError>)
        ensures
            ({
                let colon = first_of(s@, ':') as int;
                match t {
                    Ok(t) => colon < s@.len() && t@ == (TracepointModel::Named {
                        subsystem: s@.take(colon),
                        event: s@.skip(colon + 1),
                    }),
                    Err(e) => colon == s@.len() && e.spec_input() == s@,
                }
            }),
    {
        let chars = to_chars(s);
        let len: usize = chars.len();
        let mut i: usize = 0;
        proof {
            lemma_first_of(s@, ':');
        }
        while i < len && chars[i] != ':'
            invariant
                i <= len,
                len == chars@.len(),
                chars@ == s@,
                i <= first_of(s@, ':') <= s@.len(),
                first_of(s@, ':') < s@.len() ==> s@[first_of(s@, ':') as int] == ':',
                forall|k: int| 0 <= k < first_of(s@, ':') ==> s@[k] != ':',
            decreases len - i,
        {
            i = i + 1;
        }
        if i == len {
            return Err(TracepointParseError { input: s.to_string() });
        }
        let subsystem = from_chars(&chars, 0, i);
        let event = from_chars(&chars, i + 1, len);
        assert(subsystem@ =~= s@.take(i as int));
        assert(event@ =~= s@.skip(i + 1));
        Ok(Tracepoint(TracepointInner::Named { subsystem, event }))
    }

    /// The subsystem and the event that are to be looked up in tracefs; `None`
    /// if that was done.
    pub fn lookup(&self) -> (names: Option<(String, String)>)
        ensures
            match (self@, names) {
                (TracepointModel::Named { subsystem, event }, Some(names)) => names.0@ == subsystem
                    && names.1@ == event,
                (TracepointModel::Resolved(_), None) => true,
                _ => false,
            },
    {
        match &self.0 {
            TracepointInner::Named { subsystem, event } => Some((subsystem.clone(), event.clone())),
            TracepointInner::Resolved(_) => None,
        }
    }

    /// The tracepoint resolved against tracefs. `found` is what the lookup
    /// gave, and is not read where the tracepoint is resolved already.
    pub fn validate(self, found: std::io::Result<TracepointDef>) -> (t: std::io::Result<Tracepoint>)
        ensures
            match self@ {
                TracepointModel::Resolved(_) => t == Ok::<Tracepoint, std::io::Error>(self),
                TracepointModel::Named { .. } => match found {
                    Ok(def) => t matches Ok(t) && t@ == TracepointModel::Resolved(def),
                    Err(e) => t == Err::<Tracepoint, std::io::Error>(e),
                },
            },
    {
        match self.0 {
            TracepointInner::Resolved(def) => Ok(Tracepoint(TracepointInner::Resolved(def))),
            TracepointInner::Named { .. } => match found {
                Ok(def) => Ok(Tracepoint(TracepointInner::Resolved(def))),
                Err(e) => Err(e),
            },
        }
    }

    /// The definition of the tracepoint. `found` is what the lookup gave, and
    /// is not read where the tracepoint is resolved already.
    pub fn into_def(self, found: std::io::Result<TracepointDef>) -> (d: std::io::Result<
        TracepointDef,
    >)
        ensures
            d == (match self@ {
                TracepointModel::Resolved(def) => Ok(def),
                TracepointModel::Named { .. } => found,
            }),
    {
        match self.0 {
            TracepointInner::Resolved(def) => Ok(def),
            TracepointInner::Named { .. } => found,
        }
    }
}

/// The fields of the records of a tracepoint: worker, thread and CPU before the
/// tracepoint's own.
pub open spec fn wrapped_fields(own: Seq<(Seq<char>, FieldType)>) -> Seq<(Seq<char>, FieldType)> {
    seq![
        ("worker_id"@, FieldType::Varint),
        ("tid"@, FieldType::Varint),
        ("cpu"@, FieldType::Varint),
    ] + own
}

/// The fields of the records of a tracepoint.
pub fn tracepoint_fields(def: &TracepointDef) -> (fields: Vec<FieldDef>)
    ensures
        field_defs(fields@) == wrapped_fields(field_defs(def.fields@)),
{
    let mut fields: Vec<FieldDef> = Vec::new();
    fields.push(FieldDef { name: "worker_id".to_string(), field_type: FieldType::Varint });
    fields.push(FieldDef { name: "tid".to_string(), field_type: FieldType::Varint });
    fields.push(FieldDef { name: "cpu".to_string(), field_type: FieldType::Varint });
    let ghost own = field_defs(def.fields@);
    let mut i: usize = 0;
    assert(field_defs(fields@) =~= wrapped_fields(own.take(0)));
    while i < def.fields.len()
        invariant
            i <= def.fields@.len(),
            own == field_defs(def.fields@),
            field_defs(fields@) == wrapped_fields(own.take(i as int)),
        decreases def.fields@.len() - i,
    {
        let f = &def.fields[i];
        let ghost sofar = field_defs(fields@);
        fields.push(FieldDef { name: f.name.clone(), field_type: f.field_type });
        i = i + 1;
        assert(field_defs(fields@) =~= sofar.push(own[i - 1]));
        assert(field_defs(fields@) =~= wrapped_fields(own.take(i as int)));
    }
    assert(own.take(i as int) =~= own);
    fields
}

/// A tracepoint event ready for encoding into the trace.
#[derive(Debug)]
pub struct RawTracepointEvent {
    /// Timestamp in nanoseconds.
    pub timestamp_ns: u64,
    /// OS thread ID from the perf sample.
    pub tid: u32,
    /// Field values, without the timestamp: worker, thread and CPU, then the
    /// tracepoint's own. The worker is 0 until the thread is resolved.
    pub values: Vec<FieldValue>,
}

/// The event of a tracepoint hit, where its own values could be extracted from
/// the sample; otherwise the hit is dropped.
pub fn tracepoint_event(sample: &PerfSample, extracted: Option<Vec<FieldValue>>) -> (e: Option<
    RawTracepointEvent,
>)
    ensures
        match (extracted, e) {
            (Some(own), Some(e)) => e.timestamp_ns == sample.time && e.tid == sample.tid
                && field_models(e.values@) == seq![
                FieldModel::Varint(0),
                FieldModel::Varint(sample.tid as u64),
                FieldModel::Varint(sample.cpu as u64),
            ] + field_models(own@),
            (None, None) => true,
            _ => false,
        },
{
    match extracted {
        Some(own) => {
            let ghost models = field_models(own@);
            let mut own = own;
            let mut values: Vec<FieldValue> = Vec::new();
            values.push(FieldValue::Varint(0));
            values.push(FieldValue::Varint(sample.tid as u64));
            values.push(FieldValue::Varint(sample.cpu as u64));
            values.append(&mut own);
            assert(field_models(values@) =~= seq![
                FieldModel::Varint(0),
                FieldModel::Varint(sample.tid as u64),
                FieldModel::Varint(sample.cpu as u64),
            ] + models);
            Some(RawTracepointEvent { timestamp_ns: sample.time, tid: sample.tid, values })
        },
        None => None,
    }
}

/// The name of a thread is what its file holds without the white space around
/// it; a file that could not be read, or that holds nothing else, gives none.
pub proof fn lemma_thread_name_is_trimmed(text: Seq<char>, name: Option<String>)
    ensures
        comm_name(None) is None,
        trimmed(text).len() == 0 ==> comm_name(Some(text)) is None,
        trimmed(text).len() > 0 ==> comm_name(Some(text)) == Some(trimmed(text)),
        match name {
            Some(s) => text_opt(name) == Some(s@),
            None => text_opt(name) is None,
        },
{
}

/// A tracepoint is told apart at its first colon: no colon stands in front of
/// it, and there is none at all where none is found.
pub proof fn lemma_first_colon_separates(s: Seq<char>)
    ensures
        first_of(s, ':') <= s.len(),
        first_of(s, ':') < s.len() ==> s == s.take(first_of(s, ':') as int) + seq![':'] + s.skip(
            first_of(s, ':') as int + 1,
        ),
        forall|i: int| 0 <= i < first_of(s, ':') ==> #[trigger] s[i] != ':',
{
    lemma_first_of(s, ':');
    let n = first_of(s, ':') as int;
    if n < s.len() {
        assert(s =~= s.take(n) + seq![':'] + s.skip(n + 1));
    }
}

/// A record of a tracepoint begins with worker, thread and CPU, all of them
/// numbers, and has the tracepoint's own fields behind, as they are.
pub proof fn lemma_tracepoint_records_are_wrapped(own: Seq<(Seq<char>, FieldType)>)
    ensures
        wrapped_fields(own).len() == own.len() + 3,
        wrapped_fields(own)[0] == ("worker_id"@, FieldType::Varint),
        wrapped_fields(own)[1] == ("tid"@, FieldType::Varint),
        wrapped_fields(own)[2] == ("cpu"@, FieldType::Varint),
        forall|i: int| 0 <= i < own.len() ==> wrapped_fields(own)[3 + i] == #[trigger] own[i],
{
}

/// The value of a field definition is its name and its type.
pub proof fn lemma_value_of_a_field_definition(fields: Seq<FieldDef>, i: int)
    requires
        0 <= i < fields.len(),
    ensures
        field_defs(fields).len() == fields.len(),
        field_defs(fields)[i].0 == fields[i].name@,
        field_defs(fields)[i].1 == fields[i].field_type,
{
}

} // verus!
