//! Intermediate layer between the recorder and the raw `TraceWriter`.

use crate::telemetry::cpu_profile::RawCpuSample;
use crate::telemetry::events::{CpuSampleData, RawEvent, ThreadRole};
use crate::telemetry::format::{WorkerId, BLOCKING_WORKER, UNKNOWN_WORKER};
use crate::telemetry::recorder::cpu_flush_state::{
    answers, frames_extended, CpuFlushState, CpuModel, SymbolInfo,
};
use crate::telemetry::recorder::flush_state::written;
use crate::telemetry::recorder::shared_state::{all_raw, SharedState};
use crate::telemetry::writer::{TraceWriter, WriterCall, WriterReply};
use std::collections::HashMap;
use vstd::prelude::*;

verus! {

broadcast use vstd::std_specs::hash::group_hash_axioms;

/// The worker that a thread's samples count for: its worker number, the
/// blocking pool, or unknown.
pub open spec fn worker_of(roles: Map<u32, ThreadRole>, tid: u32) -> WorkerId {
    if roles.contains_key(tid) {
        match roles[tid] {
            ThreadRole::Worker(id) => WorkerId(id),
            ThreadRole::Blocking => WorkerId(BLOCKING_WORKER),
        }
    } else {
        WorkerId(UNKNOWN_WORKER)
    }
}

/// The worker that a thread's samples count for.
pub fn resolve_role(roles: &HashMap<u32, ThreadRole>, tid: u32) -> (id: WorkerId)
    ensures
        id == worker_of(roles@, tid),
{
    match roles.get(&tid) {
        Some(ThreadRole::Worker(id)) => WorkerId(*id),
        Some(ThreadRole::Blocking) => WorkerId(BLOCKING_WORKER),
        None => WorkerId(UNKNOWN_WORKER),
    }
}

/// Whether `event` is the sample `raw`, attributed by `roles`.
pub open spec fn attributes(
    event: RawEvent,
    raw: RawCpuSample,
    roles: Map<u32, ThreadRole>,
) -> bool {
    event matches RawEvent::CpuSample(data) && {
        &&& data.timestamp_nanos == raw.timestamp_nanos
        &&& data.worker_id == worker_of(roles, raw.tid)
        &&& data.tid == raw.tid
        &&& data.source == raw.source
        &&& data.thread_name is None
        &&& data.callchain == raw.callchain
    }
}

fn attribute(raw: RawCpuSample, roles: &HashMap<u32, ThreadRole>) -> (event: RawEvent)
    ensures
        attributes(event, raw, roles@),
{
    RawEvent::CpuSample(
        Box::new(
            CpuSampleData {
                timestamp_nanos: raw.timestamp_nanos,
                worker_id: resolve_role(roles, raw.tid),
                tid: raw.tid,
                source: raw.source,
                thread_name: None,
                callchain: raw.callchain,
            },
        ),
    )
}

/// Owns the writer and the CPU-profiling interning state.
///
/// - `write_raw_event(raw)` — write event through the writer
/// - `write_cpu_event(event)` — intern CPU defs, write atomically
/// - `flush_cpu(samples)` — write drained samples into the trace via `write_cpu_event`
/// - `flush()` — flush the underlying writer
pub struct EventWriter<W: TraceWriter> {
    pub writer: W,
    pub cpu_flush: Option<CpuFlushState>,
}

/// The CPU interning state, if there is one.
pub open spec fn cpu_model(cpu: Option<CpuFlushState>) -> Option<CpuModel> {
    match cpu {
        Some(c) => Some(c@),
        None => None,
    }
}

/// The CPU interning state after a rotation, if `rotated`.
pub open spec fn cpu_rotated_if(cpu: Option<CpuModel>, rotated: bool) -> Option<CpuModel> {
    match cpu {
        Some(c) => if rotated {
            Some(c.rotated())
        } else {
            cpu
        },
        None => None,
    }
}

/// Whether writing `raw` from the writer `w0` goes by `w1` (asked for a
/// rotation, answered `b1`), `w2` (wrote, answered `r`) and, unless that
/// failed, `w3` (asked again, answered `b2`).
pub open spec fn raw_write_path<W: TraceWriter>(
    w0: W,
    raw: RawEvent,
    b1: bool,
    w1: W,
    r: std::io::Result<()>,
    w2: W,
    b2: bool,
    w3: W,
) -> bool {
    &&& W::does(w0, WriterCall::TakeRotated, WriterReply::Flag(b1), w1)
    &&& W::does(w1, WriterCall::WriteAtomic(seq![raw]), WriterReply::Done(r), w2)
    &&& if r is Ok {
        W::does(w2, WriterCall::TakeRotated, WriterReply::Flag(b2), w3)
    } else {
        !b2 && w3 == w2
    }
}

/// Whether writing `raw` from the writer `w0` and the CPU state `c0` may return
/// `result` and leave `w` and `c`: a rotation before or by the write resets the
/// CPU state.
pub open spec fn raw_event_written<W: TraceWriter>(
    w0: W,
    c0: Option<CpuModel>,
    raw: RawEvent,
    result: std::io::Result<()>,
    w: W,
    c: Option<CpuModel>,
) -> bool {
    exists|b1: bool, w1: W, w2: W, b2: bool| #[trigger]
        raw_write_path(w0, raw, b1, w1, result, w2, b2, w) && c == cpu_rotated_if(c0, b1 || b2)
}

/// Whether `raws` were written one after the other. A failed write is passed
/// over.
pub open spec fn raws_written<W: TraceWriter>(
    w0: W,
    c0: Option<CpuModel>,
    raws: Seq<RawEvent>,
    w: W,
    c: Option<CpuModel>,
) -> bool
    decreases raws.len(),
{
    if raws.len() == 0 {
        w == w0 && c == c0
    } else {
        exists|wm: W, cm: Option<CpuModel>, r: std::io::Result<()>|
            raws_written(w0, c0, raws.drop_last(), wm, cm) && #[trigger] raw_event_written(
                wm,
                cm,
                raws.last(),
                r,
                w,
                c,
            )
    }
}

/// Whether writing the batch `batch` from `w0` goes by `w1` (wrote, answered
/// `r`) to `w2` (asked for a rotation, answered `b`).
pub open spec fn cpu_write_path<W: TraceWriter>(
    w0: W,
    batch: Seq<RawEvent>,
    r: std::io::Result<()>,
    w1: W,
    b: bool,
    w2: W,
) -> bool {
    &&& W::does(w0, WriterCall::WriteAtomic(batch), WriterReply::Done(r), w1)
    &&& W::does(w1, WriterCall::TakeRotated, WriterReply::Flag(b), w2)
}

/// Whether `batch` is `event` behind the definitions that `cpu` owes for it
/// when `frames` is the symbol table.
pub open spec fn is_cpu_batch(
    batch: Seq<RawEvent>,
    cpu: CpuModel,
    event: RawEvent,
    frames: Map<u64, (Seq<char>, Option<Seq<char>>)>,
) -> bool {
    &&& batch.len() == cpu.defs(event, frames).len() + 1
    &&& batch.last() == event
    &&& forall|i: int|
        0 <= i < batch.len() - 1 ==> #[trigger] written(batch[i], 0) == cpu.defs(event, frames)[i]
}

impl<W: TraceWriter> EventWriter<W> {
    pub open spec fn wf(self) -> bool {
        cpu_model(self.cpu_flush) matches Some(c) ==> c.wf()
    }

    /// A writer without CPU profiling.
    pub fn new(writer: W) -> (ew: EventWriter<W>)
        ensures
            ew.wf(),
            ew.writer == writer,
            ew.cpu_flush is None,
    {
        EventWriter { writer, cpu_flush: None }
    }

    /// Resets the CPU state for a new file.
    fn handle_rotation(&mut self)
        requires
            old(self).wf(),
        ensures
            final(self).wf(),
            final(self).writer == old(self).writer,
            cpu_model(final(self).cpu_flush) == cpu_rotated_if(
                cpu_model(old(self).cpu_flush),
                true,
            ),
    {
        let cpu = self.cpu_flush.take();
        self.cpu_flush = match cpu {
            Some(mut c) => {
                c.on_rotate();
                Some(c)
            },
            None => None,
        };
    }

    /// Write a RawEvent through the writer. A rotation before or by the write
    /// resets the CPU state.
    pub fn write_raw_event(&mut self, raw: RawEvent) -> (result: std::io::Result<()>)
        requires
            old(self).wf(),
        ensures
            final(self).wf(),
            raw_event_written(
                old(self).writer,
                cpu_model(old(self).cpu_flush),
                raw,
                result,
                final(self).writer,
                cpu_model(final(self).cpu_flush),
            ),
    {
        let ghost w0 = self.writer;
        let ghost cpu0 = cpu_model(self.cpu_flush);
        let b1 = self.writer.take_rotated();
        let ghost w1 = self.writer;
        if b1 {
            self.handle_rotation();
        }
        let mut batch: Vec<RawEvent> = Vec::new();
        batch.push(raw);
        assert(batch@ =~= seq![raw]);
        let r = self.writer.write_atomic(&batch);
        let ghost w2 = self.writer;
        if r.is_err() {
            assert(raw_write_path(w0, raw, b1, w1, r, w2, false, w2));
            return r;
        }
        let b2 = self.writer.take_rotated();
        if b2 {
            self.handle_rotation();
        }
        assert(raw_write_path(w0, raw, b1, w1, r, w2, b2, self.writer));
        assert(cpu_rotated_if(cpu_rotated_if(cpu0, b1), b2) == cpu_rotated_if(cpu0, b1 || b2));
        r
    }

    /// Write a single CPU event, emitting any necessary defs first, in one
    /// atomic batch. Without CPU profiling nothing is written. A failed write
    /// is passed over. `resolve` symbolicates an address.
    pub fn write_cpu_event<F: Fn(u64) -> SymbolInfo>(&mut self, event: RawEvent, resolve: &F)
        requires
            old(self).wf(),
            forall|a: u64| call_requires(*resolve, (a,)),
        ensures
            final(self).wf(),
            old(self).cpu_flush is None ==> *final(self) == *old(self),
            old(self).cpu_flush is Some <==> final(self).cpu_flush is Some,
            old(self).cpu_flush matches Some(cpu) ==> cpu_event_written(
                old(self).writer,
                cpu@,
                event,
                final(self).writer,
                final(self).cpu_flush->0@,
                answers(*resolve),
            ),
    {
        let cpu = self.cpu_flush.take();
        match cpu {
            Some(mut c) => {
                let ghost w0 = self.writer;
                let ghost c0 = c@;
                let batch = c.collect_cpu_event_batch(event, resolve);
                let ghost frames = c@.frames;
                let r = self.writer.write_atomic(&batch);
                let ghost w1 = self.writer;
                let b = self.writer.take_rotated();
                if b {
                    c.on_rotate();
                }
                self.cpu_flush = Some(c);
                assert(cpu_write_path(w0, batch@, r, w1, b, self.writer));
                assert(is_cpu_batch(batch@, c0, event, frames));
                assert(cpu_event_written(w0, c0, event, self.writer, c@, answers(*resolve)));
            },
            None => {},
        }
    }

    /// Write the samples that the process-wide profiler drained, each with the
    /// name of its thread where it is known, attributed by `roles`. A thread
    /// name is cached the first time it is seen.
    pub fn write_profiler_sample<F: Fn(u64) -> SymbolInfo>(
        &mut self,
        raw: RawCpuSample,
        thread_name: Option<String>,
        roles: &HashMap<u32, ThreadRole>,
        resolve: &F,
    )
        requires
            old(self).wf(),
            forall|a: u64| call_requires(*resolve, (a,)),
        ensures
            final(self).wf(),
            old(self).cpu_flush is None ==> *final(self) == *old(self),
            old(self).cpu_flush is Some <==> final(self).cpu_flush is Some,
            old(self).cpu_flush matches Some(cpu) ==> sample_written(
                old(self).writer,
                with_name(cpu@, raw.tid, thread_name),
                raw,
                roles@,
                final(self).writer,
                final(self).cpu_flush->0@,
                answers(*resolve),
            ),
    {
        let ghost tid = raw.tid;
        let ghost sample = raw;
        let cpu = self.cpu_flush.take();
        match cpu {
            Some(mut c) => {
                let ghost c0 = c@;
                if let Some(name) = thread_name {
                    c.intern_thread_name(raw.tid, name);
                }
                assert(c@ =~= with_name(c0, tid, thread_name));
                self.cpu_flush = Some(c);
                let event = attribute(raw, roles);
                self.write_cpu_event(event, resolve);
                assert(attributes(event, sample, roles@));
            },
            None => {
                assert(*self == *old(self));
            },
        }
    }

    /// Write a sample that the per-worker scheduler profiler drained,
    /// attributed by `roles`.
    pub fn write_sched_sample<F: Fn(u64) -> SymbolInfo>(
        &mut self,
        raw: RawCpuSample,
        roles: &HashMap<u32, ThreadRole>,
        resolve: &F,
    )
        requires
            old(self).wf(),
            forall|a: u64| call_requires(*resolve, (a,)),
        ensures
            final(self).wf(),
            old(self).cpu_flush is None ==> *final(self) == *old(self),
            old(self).cpu_flush is Some <==> final(self).cpu_flush is Some,
            old(self).cpu_flush matches Some(cpu) ==> sample_written(
                old(self).writer,
                cpu@,
                raw,
                roles@,
                final(self).writer,
                final(self).cpu_flush->0@,
                answers(*resolve),
            ),
    {
        let ghost sample = raw;
        let event = attribute(raw, roles);
        self.write_cpu_event(event, resolve);
        assert(attributes(event, sample, roles@));
    }

    /// Write what the profilers drained since the last flush cycle: first the
    /// samples of the process-wide profiler, each with the name of its thread
    /// where it is known, then those of the per-worker scheduler profiler.
    /// `roles` is the snapshot of thread roles of this cycle.
    pub fn flush_cpu<F: Fn(u64) -> SymbolInfo>(
        &mut self,
        profiled: Vec<(RawCpuSample, Option<String>)>,
        switched: Vec<RawCpuSample>,
        roles: &HashMap<u32, ThreadRole>,
        resolve: &F,
    )
        requires
            old(self).wf(),
            forall|a: u64| call_requires(*resolve, (a,)),
        ensures
            final(self).wf(),
            old(self).cpu_flush is None ==> *final(self) == *old(self),
            old(self).cpu_flush is Some <==> final(self).cpu_flush is Some,
            old(self).cpu_flush matches Some(cpu) ==> exists|w1: W, c1: CpuModel|
                profiled_written(old(self).writer, cpu@, profiled@, roles@, w1, c1, answers(*resolve))
                    && #[trigger] switched_written(
                    w1,
                    c1,
                    switched@,
                    roles@,
                    final(self).writer,
                    final(self).cpu_flush->0@,
                    answers(*resolve),
                ),
    {
        let ghost start = *self;
        let ghost samples = profiled@;
        let ghost w0 = self.writer;
        let ghost c0 = self.cpu_flush->0@;
        assert(samples.take(0) =~= Seq::empty());
        for sample in it: profiled.into_iter()
            invariant
                it.seq() == samples,
                self.wf(),
                forall|a: u64| call_requires(*resolve, (a,)),
                start.cpu_flush is None ==> *self == start,
                start.cpu_flush is Some <==> self.cpu_flush is Some,
                start.cpu_flush is Some ==> profiled_written(
                    w0,
                    c0,
                    samples.take(it.index()),
                    roles@,
                    self.writer,
                    self.cpu_flush->0@,
                    answers(*resolve),
                ),
        {
            let ghost before = *self;
            let ghost next = samples.take(it.index() + 1);
            assert(next.drop_last() =~= samples.take(it.index()));
            assert(next.last() == sample);
            let (raw, name) = sample;
            self.write_profiler_sample(raw, name, roles, resolve);
            proof {
                if start.cpu_flush is Some {
                    assert(profiled_written(
                        w0,
                        c0,
                        next.drop_last(),
                        roles@,
                        before.writer,
                        before.cpu_flush->0@,
                        answers(*resolve),
                    ));
                    assert(next.last().0 == raw && next.last().1 == name);
                    assert(sample_written(
                        before.writer,
                        with_name(before.cpu_flush->0@, next.last().0.tid, next.last().1),
                        next.last().0,
                        roles@,
                        self.writer,
                        self.cpu_flush->0@,
                        answers(*resolve),
                    ));
                    assert(profiled_written(
                        w0,
                        c0,
                        next,
                        roles@,
                        self.writer,
                        self.cpu_flush->0@,
                        answers(*resolve),
                    ));
                }
            }
        }
        assert(samples.take(samples.len() as int) =~= samples);
        let ghost w1 = self.writer;
        let ghost c1 = self.cpu_flush->0@;
        let ghost sched = switched@;
        assert(sched.take(0) =~= Seq::empty());
        for sample in it: switched.into_iter()
            invariant
                it.seq() == sched,
                self.wf(),
                forall|a: u64| call_requires(*resolve, (a,)),
                start.cpu_flush is None ==> *self == start,
                start.cpu_flush is Some <==> self.cpu_flush is Some,
                start.cpu_flush is Some ==> switched_written(
                    w1,
                    c1,
                    sched.take(it.index()),
                    roles@,
                    self.writer,
                    self.cpu_flush->0@,
                    answers(*resolve),
                ),
        {
            let ghost before = *self;
            let ghost next = sched.take(it.index() + 1);
            assert(next.drop_last() =~= sched.take(it.index()));
            assert(next.last() == sample);
            self.write_sched_sample(sample, roles, resolve);
            proof {
                if start.cpu_flush is Some {
                    assert(switched_written(
                        w1,
                        c1,
                        next.drop_last(),
                        roles@,
                        before.writer,
                        before.cpu_flush->0@,
                        answers(*resolve),
                    ));
                    assert(sample_written(
                        before.writer,
                        before.cpu_flush->0@,
                        next.last(),
                        roles@,
                        self.writer,
                        self.cpu_flush->0@,
                        answers(*resolve),
                    ));
                    assert(switched_written(
                        w1,
                        c1,
                        next,
                        roles@,
                        self.writer,
                        self.cpu_flush->0@,
                        answers(*resolve),
                    ));
                }
            }
        }
        assert(sched.take(sched.len() as int) =~= sched);
    }

    /// Write all of a flush cycle: what the profilers drained, then the recorded
    /// events `raws`, one after the other, and then flush the writer. A failed
    /// write is passed over; the result is that of the flush.
    pub fn flush_recorded<F: Fn(u64) -> SymbolInfo>(
        &mut self,
        profiled: Vec<(RawCpuSample, Option<String>)>,
        switched: Vec<RawCpuSample>,
        roles: &HashMap<u32, ThreadRole>,
        raws: Vec<RawEvent>,
        resolve: &F,
    ) -> (result: std::io::Result<()>)
        requires
            old(self).wf(),
            forall|a: u64| call_requires(*resolve, (a,)),
        ensures
            final(self).wf(),
            cycle_written(
                *old(self),
                profiled@,
                switched@,
                roles@,
                raws@,
                result,
                *final(self),
                answers(*resolve),
            ),
    {
        let ghost start = *self;
        self.flush_cpu(profiled, switched, roles, resolve);
        let ghost w1 = self.writer;
        let ghost c1 = cpu_model(self.cpu_flush);
        assert(cpu_flushed(
            start.writer,
            cpu_model(start.cpu_flush),
            profiled@,
            switched@,
            roles@,
            w1,
            c1,
            answers(*resolve),
        ));
        let ghost all = raws@;
        assert(all.take(0) =~= Seq::empty());
        for raw in it: raws.into_iter()
            invariant
                it.seq() == all,
                self.wf(),
                raws_written(
                    w1,
                    c1,
                    all.take(it.index()),
                    self.writer,
                    cpu_model(self.cpu_flush),
                ),
        {
            let ghost before = *self;
            let ghost next = all.take(it.index() + 1);
            assert(next.drop_last() =~= all.take(it.index()));
            assert(next.last() == raw);
            let r = self.write_raw_event(raw);
            assert(raw_event_written(
                before.writer,
                cpu_model(before.cpu_flush),
                next.last(),
                r,
                self.writer,
                cpu_model(self.cpu_flush),
            ));
        }
        assert(all.take(all.len() as int) =~= all);
        let ghost w2 = self.writer;
        let result = self.flush();
        assert(raws_written(w1, c1, all, w2, cpu_model(self.cpu_flush)));
        result
    }

    /// Write out what was recorded: first what the profilers drained, attributed
    /// by the thread roles of `shared`, then every batch that its collector
    /// holds, oldest first, and then flush the writer.
    pub fn flush_trace<F: Fn(u64) -> SymbolInfo>(
        &mut self,
        shared: &mut SharedState,
        profiled: Vec<(RawCpuSample, Option<String>)>,
        switched: Vec<RawCpuSample>,
        resolve: &F,
    ) -> (result: std::io::Result<()>)
        requires
            old(self).wf(),
            old(shared)@.wf(),
            forall|a: u64| call_requires(*resolve, (a,)),
        ensures
            final(self).wf(),
            final(shared)@.wf(),
            final(shared)@ == old(shared)@.taken(),
            cycle_written(
                *old(self),
                profiled@,
                switched@,
                old(shared)@.roles,
                all_raw(old(shared)@.collector.batches),
                result,
                *final(self),
                answers(*resolve),
            ),
    {
        let raws = shared.take_recorded();
        self.flush_recorded(profiled, switched, &shared.thread_roles, raws, resolve)
    }

    /// Flush the underlying writer.
    pub fn flush(&mut self) -> (r: std::io::Result<()>)
        ensures
            W::does(
                old(self).writer,
                WriterCall::Flush,
                WriterReply::Done(r),
                final(self).writer,
            ),
            final(self).cpu_flush == old(self).cpu_flush,
    {
        self.writer.flush()
    }

    /// Seal the current segment of the underlying writer.
    pub fn seal(&mut self) -> (r: std::io::Result<()>)
        ensures
            W::does(old(self).writer, WriterCall::Seal, WriterReply::Done(r), final(self).writer),
            final(self).cpu_flush == old(self).cpu_flush,
    {
        self.writer.seal()
    }
}

/// Whether what the profilers drained was written: nothing without CPU
/// profiling; with it, first the samples of the process-wide profiler, then
/// those of the per-worker scheduler profiler.
pub open spec fn cpu_flushed<W: TraceWriter>(
    w0: W,
    c0: Option<CpuModel>,
    profiled: Seq<(RawCpuSample, Option<String>)>,
    switched: Seq<RawCpuSample>,
    roles: Map<u32, ThreadRole>,
    w: W,
    c: Option<CpuModel>,
    symbols: spec_fn(u64, SymbolInfo) -> bool,
) -> bool {
    match (c0, c) {
        (None, None) => w == w0,
        (Some(c0), Some(c)) => exists|wm: W, cm: CpuModel|
            profiled_written(w0, c0, profiled, roles, wm, cm, symbols)
                && #[trigger] switched_written(wm, cm, switched, roles, w, c, symbols),
        _ => false,
    }
}

/// Whether a flush cycle led from `before` to `after` with `result`: CPU events,
/// then the recorded events `raws`, then a flush of the writer.
pub open spec fn cycle_written<W: TraceWriter>(
    before: EventWriter<W>,
    profiled: Seq<(RawCpuSample, Option<String>)>,
    switched: Seq<RawCpuSample>,
    roles: Map<u32, ThreadRole>,
    raws: Seq<RawEvent>,
    result: std::io::Result<()>,
    after: EventWriter<W>,
    symbols: spec_fn(u64, SymbolInfo) -> bool,
) -> bool {
    exists|w1: W, c1: Option<CpuModel>, w2: W|
        {
            &&& #[trigger] cpu_flushed(
                before.writer,
                cpu_model(before.cpu_flush),
                profiled,
                switched,
                roles,
                w1,
                c1,
                symbols,
            )
            &&& #[trigger] raws_written(w1, c1, raws, w2, cpu_model(after.cpu_flush))
            &&& W::does(w2, WriterCall::Flush, WriterReply::Done(result), after.writer)
        }
}

/// The CPU interning state once a thread name, if given, is cached: a name
/// that is cached already stays.
pub open spec fn with_name(cpu: CpuModel, tid: u32, name: Option<String>) -> CpuModel {
    match name {
        Some(n) => CpuModel {
            names: if cpu.names.contains_key(tid) {
                cpu.names
            } else {
                cpu.names.insert(tid, n@)
            },
            ..cpu
        },
        None => cpu,
    }
}

/// Whether `event` was written from `w0` and the state `c0`: some symbol table
/// that extends the old one by what `symbols` allows, the batch of definitions
/// and event over it, one atomic write, one question for a rotation, and the
/// CPU state reset if there was one.
pub open spec fn cpu_event_written<W: TraceWriter>(
    w0: W,
    c0: CpuModel,
    event: RawEvent,
    w2: W,
    c2: CpuModel,
    symbols: spec_fn(u64, SymbolInfo) -> bool,
) -> bool {
    exists|
        frames: Map<u64, (Seq<char>, Option<Seq<char>>)>,
        batch: Seq<RawEvent>,
        r: std::io::Result<()>,
        w1: W,
        b: bool,
    |
        #![trigger is_cpu_batch(batch, c0, event, frames), cpu_write_path(w0, batch, r, w1, b, w2)]
        {
            &&& frames_extended(c0.frames, frames, c0.chain_of(event), symbols)
            &&& is_cpu_batch(batch, c0, event, frames)
            &&& cpu_write_path(w0, batch, r, w1, b, w2)
            &&& c2 == (if b {
                c0.after(event, frames).rotated()
            } else {
                c0.after(event, frames)
            })
        }
}

/// Whether the sample `raw`, attributed by `roles`, was written as a CPU event.
pub open spec fn sample_written<W: TraceWriter>(
    w0: W,
    c0: CpuModel,
    raw: RawCpuSample,
    roles: Map<u32, ThreadRole>,
    w2: W,
    c2: CpuModel,
    symbols: spec_fn(u64, SymbolInfo) -> bool,
) -> bool {
    exists|event: RawEvent| #[trigger]
        attributes(event, raw, roles) && cpu_event_written(w0, c0, event, w2, c2, symbols)
}

/// Whether the profiler samples `samples` were written one after the other,
/// the thread name of each cached before it.
pub open spec fn profiled_written<W: TraceWriter>(
    w0: W,
    c0: CpuModel,
    samples: Seq<(RawCpuSample, Option<String>)>,
    roles: Map<u32, ThreadRole>,
    w: W,
    c: CpuModel,
    symbols: spec_fn(u64, SymbolInfo) -> bool,
) -> bool
    decreases samples.len(),
{
    if samples.len() == 0 {
        w == w0 && c == c0
    } else {
        exists|wm: W, cm: CpuModel|
            profiled_written(w0, c0, samples.drop_last(), roles, wm, cm, symbols) && #[trigger]
            sample_written(
                wm,
                with_name(cm, samples.last().0.tid, samples.last().1),
                samples.last().0,
                roles,
                w,
                c,
                symbols,
            )
    }
}

/// Whether the scheduler samples `samples` were written one after the other.
pub open spec fn switched_written<W: TraceWriter>(
    w0: W,
    c0: CpuModel,
    samples: Seq<RawCpuSample>,
    roles: Map<u32, ThreadRole>,
    w: W,
    c: CpuModel,
    symbols: spec_fn(u64, SymbolInfo) -> bool,
) -> bool
    decreases samples.len(),
{
    if samples.len() == 0 {
        w == w0 && c == c0
    } else {
        exists|wm: W, cm: CpuModel|
            switched_written(w0, c0, samples.drop_last(), roles, wm, cm, symbols) && #[trigger]
            sample_written(
                wm,
                cm,
                samples.last(),
                roles,
                w,
                c,
                symbols,
            )
    }
}

/// A sample counts for the thread that it was taken on: for the worker that the
/// thread is registered as, for the blocking pool where it is registered as a
/// thread of that, and for no worker where it is not registered. Its time, its
/// thread, its source and its callchain are those that were drained.
pub proof fn lemma_sample_counts_for_its_thread(
    event: RawEvent,
    raw: RawCpuSample,
    roles: Map<u32, ThreadRole>,
)
    requires
        attributes(event, raw, roles),
    ensures
        event matches RawEvent::CpuSample(data) && {
            &&& data.timestamp_nanos == raw.timestamp_nanos
            &&& data.tid == raw.tid
            &&& data.source == raw.source
            &&& data.callchain@ == raw.callchain@
            &&& data.thread_name is None
            &&& !roles.contains_key(raw.tid) ==> data.worker_id.0 == UNKNOWN_WORKER
            &&& roles.contains_key(raw.tid) ==> match roles[raw.tid] {
                ThreadRole::Worker(id) => data.worker_id.0 == id,
                ThreadRole::Blocking => data.worker_id.0 == BLOCKING_WORKER,
            }
        },
{
}

/// A recorded event is written by one atomic write of that event alone. The
/// writer is asked for a rotation before it and, unless it failed, after it; a
/// rotation makes the CPU state owe all its definitions again, and nothing else
/// changes that state. The outcome of the write is what is returned.
pub proof fn lemma_recorded_event_is_written_alone<W: TraceWriter>(
    w0: W,
    c0: Option<CpuModel>,
    raw: RawEvent,
    result: std::io::Result<()>,
    w: W,
    c: Option<CpuModel>,
) -> (path: (bool, W, W, bool))
    requires
        raw_event_written(w0, c0, raw, result, w, c),
    ensures
        W::does(w0, WriterCall::TakeRotated, WriterReply::Flag(path.0), path.1),
        W::does(path.1, WriterCall::WriteAtomic(seq![raw]), WriterReply::Done(result), path.2),
        result is Ok ==> W::does(path.2, WriterCall::TakeRotated, WriterReply::Flag(path.3), w),
        result is Err ==> w == path.2 && !path.3,
        c0 is None <==> c is None,
        c0 matches Some(m) ==> (if path.0 || path.3 {
            &&& c->0.frames_emitted.is_empty()
            &&& c->0.names_emitted.is_empty()
            &&& c->0.frames == m.frames
            &&& c->0.names == m.names
            &&& c->0.inline == m.inline
        } else {
            c->0 == m
        }),
{
    let (b1, w1, w2, b2) = choose|b1: bool, w1: W, w2: W, b2: bool| #[trigger]
        raw_write_path(w0, raw, b1, w1, result, w2, b2, w) && c == cpu_rotated_if(c0, b1 || b2);
    (b1, w1, w2, b2)
}

/// Recorded events are written in the order in which they were recorded, each
/// once, also behind one that could not be written.
pub proof fn lemma_recorded_events_are_written_in_order<W: TraceWriter>(
    w0: W,
    c0: Option<CpuModel>,
    raws: Seq<RawEvent>,
    w: W,
    c: Option<CpuModel>,
) -> (path: (W, Option<CpuModel>, std::io::Result<()>))
    requires
        raws_written(w0, c0, raws, w, c),
    ensures
        raws.len() == 0 ==> w == w0 && c == c0,
        raws.len() > 0 ==> raws_written(w0, c0, raws.drop_last(), path.0, path.1)
            && raw_event_written(path.0, path.1, raws.last(), path.2, w, c),
{
    if raws.len() == 0 {
        (w0, c0, Ok(()))
    } else {
        let (wm, cm, r) = choose|wm: W, cm: Option<CpuModel>, r: std::io::Result<()>|
            raws_written(w0, c0, raws.drop_last(), wm, cm) && #[trigger] raw_event_written(
                wm,
                cm,
                raws.last(),
                r,
                w,
                c,
            );
        (wm, cm, r)
    }
}

/// A CPU event is written by one atomic write that ends with the event, behind
/// the definitions that it needs and the file lacks. The addresses of the event
/// are then known and defined; a rotation by the write makes the state owe all
/// definitions again.
pub proof fn lemma_cpu_event_is_written_behind_its_definitions<W: TraceWriter>(
    w0: W,
    c0: CpuModel,
    event: RawEvent,
    w: W,
    c: CpuModel,
    symbols: spec_fn(u64, SymbolInfo) -> bool,
) -> (path: (
    Map<u64, (Seq<char>, Option<Seq<char>>)>,
    Seq<RawEvent>,
    std::io::Result<()>,
    W,
    bool,
))
    requires
        cpu_event_written(w0, c0, event, w, c, symbols),
    ensures
        frames_extended(c0.frames, path.0, c0.chain_of(event), symbols),
        path.1.len() == c0.defs(event, path.0).len() + 1,
        path.1.last() == event,
        forall|i: int|
            0 <= i < path.1.len() - 1 ==> #[trigger] written(path.1[i], 0) == c0.defs(
                event,
                path.0,
            )[i],
        W::does(w0, WriterCall::WriteAtomic(path.1), WriterReply::Done(path.2), path.3),
        W::does(path.3, WriterCall::TakeRotated, WriterReply::Flag(path.4), w),
        c.frames == path.0,
        c.names == c0.names,
        c.inline == c0.inline,
        path.4 ==> c.frames_emitted.is_empty() && c.names_emitted.is_empty(),
        !path.4 ==> forall|a: u64| #[trigger]
            c.frames_emitted.contains(a) <==> c0.frames_emitted.contains(a) || c0.chain_of(
                event,
            ).contains(a),
{
    let (frames, batch, r, w1, b) = choose|
        frames: Map<u64, (Seq<char>, Option<Seq<char>>)>,
        batch: Seq<RawEvent>,
        r: std::io::Result<()>,
        w1: W,
        b: bool,
    |
        #![trigger is_cpu_batch(batch, c0, event, frames), cpu_write_path(w0, batch, r, w1, b, w)]
        {
            &&& frames_extended(c0.frames, frames, c0.chain_of(event), symbols)
            &&& is_cpu_batch(batch, c0, event, frames)
            &&& cpu_write_path(w0, batch, r, w1, b, w)
            &&& c == (if b {
                c0.after(event, frames).rotated()
            } else {
                c0.after(event, frames)
            })
        };
    (frames, batch, r, w1, b)
}

/// A drained sample is written as one CPU event, the sample as it is attributed
/// by the roles of the threads.
pub proof fn lemma_sample_is_written_as_attributed<W: TraceWriter>(
    w0: W,
    c0: CpuModel,
    raw: RawCpuSample,
    roles: Map<u32, ThreadRole>,
    w: W,
    c: CpuModel,
    symbols: spec_fn(u64, SymbolInfo) -> bool,
) -> (event: RawEvent)
    requires
        sample_written(w0, c0, raw, roles, w, c, symbols),
    ensures
        attributes(event, raw, roles),
        cpu_event_written(w0, c0, event, w, c, symbols),
{
    choose|event: RawEvent| #[trigger]
        attributes(event, raw, roles) && cpu_event_written(w0, c0, event, w, c, symbols)
}

/// The name of a thread is cached the first time it is known and stays; no
/// other name, and nothing else, changes by it.
pub proof fn lemma_first_name_of_a_thread_stays(
    cpu: CpuModel,
    tid: u32,
    name: Option<String>,
    other: u32,
)
    ensures
        ({
            let m = with_name(cpu, tid, name);
            &&& cpu.names.contains_key(tid) ==> m.names == cpu.names
            &&& !cpu.names.contains_key(tid) ==> match name {
                Some(n) => m.names.contains_key(tid) && m.names[tid] == n@,
                None => !m.names.contains_key(tid),
            }
            &&& other != tid ==> (m.names.contains_key(other) <==> cpu.names.contains_key(other))
                && m.names[other] == cpu.names[other]
            &&& m.frames == cpu.frames
            &&& m.frames_emitted == cpu.frames_emitted
            &&& m.names_emitted == cpu.names_emitted
            &&& m.inline == cpu.inline
        }),
{
}

/// The samples of the profiler are written in the order in which they were
/// drained, each once and each behind its thread's name being cached.
pub proof fn lemma_profiled_samples_are_written_in_order<W: TraceWriter>(
    w0: W,
    c0: CpuModel,
    samples: Seq<(RawCpuSample, Option<String>)>,
    roles: Map<u32, ThreadRole>,
    w: W,
    c: CpuModel,
    symbols: spec_fn(u64, SymbolInfo) -> bool,
) -> (path: (W, CpuModel))
    requires
        profiled_written(w0, c0, samples, roles, w, c, symbols),
    ensures
        samples.len() == 0 ==> w == w0 && c == c0,
        samples.len() > 0 ==> profiled_written(
            w0,
            c0,
            samples.drop_last(),
            roles,
            path.0,
            path.1,
            symbols,
        ) && sample_written(
            path.0,
            with_name(path.1, samples.last().0.tid, samples.last().1),
            samples.last().0,
            roles,
            w,
            c,
            symbols,
        ),
{
    if samples.len() == 0 {
        (w0, c0)
    } else {
        let (wm, cm) = choose|wm: W, cm: CpuModel|
            profiled_written(w0, c0, samples.drop_last(), roles, wm, cm, symbols) && #[trigger]
            sample_written(
                wm,
                with_name(cm, samples.last().0.tid, samples.last().1),
                samples.last().0,
                roles,
                w,
                c,
                symbols,
            );
        (wm, cm)
    }
}

/// The samples of context switches are written in the order in which they were
/// drained, each once.
pub proof fn lemma_switched_samples_are_written_in_order<W: TraceWriter>(
    w0: W,
    c0: CpuModel,
    samples: Seq<RawCpuSample>,
    roles: Map<u32, ThreadRole>,
    w: W,
    c: CpuModel,
    symbols: spec_fn(u64, SymbolInfo) -> bool,
) -> (path: (W, CpuModel))
    requires
        switched_written(w0, c0, samples, roles, w, c, symbols),
    ensures
        samples.len() == 0 ==> w == w0 && c == c0,
        samples.len() > 0 ==> switched_written(
            w0,
            c0,
            samples.drop_last(),
            roles,
            path.0,
            path.1,
            symbols,
        ) && sample_written(path.0, path.1, samples.last(), roles, w, c, symbols),
{
    if samples.len() == 0 {
        (w0, c0)
    } else {
        let (wm, cm) = choose|wm: W, cm: CpuModel|
            switched_written(w0, c0, samples.drop_last(), roles, wm, cm, symbols) && #[trigger]
            sample_written(wm, cm, samples.last(), roles, w, c, symbols);
        (wm, cm)
    }
}

/// A flush cycle writes the samples of the profiler, then those of the context
/// switches, then the recorded events, and then flushes the writer, whose
/// outcome it returns. Without CPU profiling no sample is written.
pub proof fn lemma_flush_cycle_goes_in_order<W: TraceWriter>(
    before: EventWriter<W>,
    profiled: Seq<(RawCpuSample, Option<String>)>,
    switched: Seq<RawCpuSample>,
    roles: Map<u32, ThreadRole>,
    raws: Seq<RawEvent>,
    result: std::io::Result<()>,
    after: EventWriter<W>,
    symbols: spec_fn(u64, SymbolInfo) -> bool,
) -> (path: (W, CpuModel, W, Option<CpuModel>, W))
    requires
        cycle_written(before, profiled, switched, roles, raws, result, after, symbols),
    ensures
        before.cpu_flush is None ==> path.2 == before.writer && path.3 is None,
        before.cpu_flush matches Some(cpu) ==> path.3 matches Some(c) && profiled_written(
            before.writer,
            cpu@,
            profiled,
            roles,
            path.0,
            path.1,
            symbols,
        ) && switched_written(path.0, path.1, switched, roles, path.2, c, symbols),
        before.cpu_flush is None <==> after.cpu_flush is None,
        raws_written(
            path.2,
            path.3,
            raws,
            path.4,
            match after.cpu_flush {
                Some(cpu) => Some(cpu@),
                None => None,
            },
        ),
        W::does(path.4, WriterCall::Flush, WriterReply::Done(result), after.writer),
{
    let (w1, c1, w2) = choose|w1: W, c1: Option<CpuModel>, w2: W|
        {
            &&& #[trigger] cpu_flushed(
                before.writer,
                cpu_model(before.cpu_flush),
                profiled,
                switched,
                roles,
                w1,
                c1,
                symbols,
            )
            &&& #[trigger] raws_written(w1, c1, raws, w2, cpu_model(after.cpu_flush))
            &&& W::does(w2, WriterCall::Flush, WriterReply::Done(result), after.writer)
        };
    lemma_raws_keep_profiling(w1, c1, raws, w2, cpu_model(after.cpu_flush));
    match (cpu_model(before.cpu_flush), c1) {
        (Some(c0), Some(c)) => {
            let (wm, cm) = choose|wm: W, cm: CpuModel|
                profiled_written(before.writer, c0, profiled, roles, wm, cm, symbols)
                    && #[trigger] switched_written(wm, cm, switched, roles, w1, c, symbols);
            (wm, cm, w1, c1, w2)
        },
        _ => (w1, CpuModel::fresh(false), w1, c1, w2),
    }
}

proof fn lemma_raws_keep_profiling<W: TraceWriter>(
    w0: W,
    c0: Option<CpuModel>,
    raws: Seq<RawEvent>,
    w: W,
    c: Option<CpuModel>,
)
    requires
        raws_written(w0, c0, raws, w, c),
    ensures
        c0 is None <==> c is None,
    decreases raws.len(),
{
    if raws.len() > 0 {
        let path = lemma_recorded_events_are_written_in_order(w0, c0, raws, w, c);
        lemma_raws_keep_profiling(w0, c0, raws.drop_last(), path.0, path.1);
        lemma_recorded_event_is_written_alone(path.0, path.1, raws.last(), path.2, w, c);
    }
}

/// The CPU state has its value where it is there.
pub proof fn lemma_value_of_a_cpu_state(c: CpuFlushState)
    ensures
        cpu_model(Some(c)) == Some(c@),
        cpu_model(None) is None,
{
}

} // verus!
