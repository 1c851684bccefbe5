//! The flush path for writers that refuse a batch when they rotate: the batch
//! is resolved again, with its definitions, and written into the new file.

use crate::telemetry::event_list::{event_models, EventList};
use crate::telemetry::events::{EventModel, RawEvent};
use crate::telemetry::recorder::cpu_flush_state::{
    answers, frames_extended, lemma_defs_are_defs, models0, CpuFlushState, CpuModel, FrameModel,
    SymbolInfo,
};
use crate::telemetry::recorder::event_writer::cpu_model;
use crate::telemetry::recorder::flush_state::{spawn_location, written, FlushModel, FlushState};
use crate::telemetry::recorder::shared_state::{
    all_raw, batched, held_by_all, lemma_enabled_records_each_event, SharedModel, SharedState,
};
use crate::telemetry::rotation::{batch_has_room, batch_state};
use crate::telemetry::writer::NullWriter;
use vstd::prelude::*;

verus! {

/// The outcome of an atomic write.
#[derive(Debug, Clone, Copy, PartialEq, Eq, Structural)]
pub enum WriteAtomicResult {
    /// The batch was written.
    Written,
    /// The batch is too large for a single file and was dropped.
    OversizedBatch,
    /// The writer rotated to a new file instead of writing.
    Rotated,
}

/// A call of a [`SegmentWriter`] method, with its argument.
pub enum SegmentCall {
    WriteAtomic(Seq<EventModel>),
    TakeRotated,
    Flush,
}

/// What a [`SegmentWriter`] method returned.
pub enum SegmentReply {
    Wrote(std::io::Result<WriteAtomicResult>),
    Flag(bool),
    Done(std::io::Result<()>),
}

/// A sink for resolved events that reports rotation in its outcome.
///
/// `does` is the implementor's own account of what a call may do.
pub trait SegmentWriter: Sized {
    /// Whether `call` on `before` may reply `reply` and leave `after`. An
    /// implementor that gives no account of itself may do anything.
    open spec fn does(before: Self, call: SegmentCall, reply: SegmentReply, after: Self) -> bool {
        true
    }

    /// Write a group of events so that all of them land in the same file.
    fn write_atomic(&mut self, events: &EventList) -> (r: std::io::Result<WriteAtomicResult>)
        ensures
            Self::does(
                *old(self),
                SegmentCall::WriteAtomic(events@),
                SegmentReply::Wrote(r),
                *final(self),
            ),
    ;

    /// Whether the writer rotated to a new file since the last call.
    fn take_rotated(&mut self) -> (b: bool)
        ensures
            Self::does(*old(self), SegmentCall::TakeRotated, SegmentReply::Flag(b), *final(self)),
    ;

    /// Flush what is buffered.
    fn flush(&mut self) -> (r: std::io::Result<()>)
        ensures
            Self::does(*old(self), SegmentCall::Flush, SegmentReply::Done(r), *final(self)),
    ;
}

impl SegmentWriter for NullWriter {
    /// Every call succeeds at once, and there never is a rotation.
    open spec fn does(
        before: NullWriter,
        call: SegmentCall,
        reply: SegmentReply,
        after: NullWriter,
    ) -> bool {
        match call {
            SegmentCall::WriteAtomic(_) => reply matches SegmentReply::Wrote(r) && (r matches Ok(w)
                && w == WriteAtomicResult::Written),
            SegmentCall::TakeRotated => reply == SegmentReply::Flag(false),
            SegmentCall::Flush => reply matches SegmentReply::Done(r) && r is Ok,
        }
    }

    fn write_atomic(&mut self, _events: &EventList) -> (r: std::io::Result<WriteAtomicResult>) {
        Ok(WriteAtomicResult::Written)
    }

    fn take_rotated(&mut self) -> (b: bool) {
        false
    }

    fn flush(&mut self) -> (r: std::io::Result<()>) {
        Ok(())
    }
}

/// Whether `r` reports a rotation.
pub open spec fn is_rotated(r: std::io::Result<WriteAtomicResult>) -> bool {
    r matches Ok(WriteAtomicResult::Rotated)
}

/// What is known of the current file: the interned spawn locations, and the CPU
/// interning state where there is CPU profiling.
#[verifier::ext_equal]
pub struct InternModel {
    pub locations: FlushModel,
    pub cpu: Option<CpuModel>,
}

impl InternModel {
    /// The state at the start of a new file.
    pub open spec fn rotated(self) -> InternModel {
        InternModel {
            locations: self.locations.rotated(),
            cpu: match self.cpu {
                Some(c) => Some(c.rotated()),
                None => None,
            },
        }
    }

    /// What `raw` resolves to.
    pub open spec fn events_for(self, raw: RawEvent) -> Seq<EventModel> {
        self.locations.events_for(raw)
    }

    /// The state after `raw` is resolved.
    pub open spec fn after(self, raw: RawEvent) -> InternModel {
        InternModel { locations: self.locations.after(raw), ..self }
    }
}

/// The interning state, for a new file if there was a rotation.
pub open spec fn rotated_if(m: InternModel, rotated: bool) -> InternModel {
    if rotated {
        m.rotated()
    } else {
        m
    }
}

/// The first attempt to write `raw`: from the writer `w0` and the interning
/// state `s1` the resolved events are written, with the reply `r1`.
pub open spec fn first_attempt<W: SegmentWriter>(
    w0: W,
    s0: InternModel,
    raw: RawEvent,
    b0: bool,
    w1: W,
    r1: std::io::Result<WriteAtomicResult>,
    w2: W,
) -> bool {
    &&& W::does(w0, SegmentCall::TakeRotated, SegmentReply::Flag(b0), w1)
    &&& W::does(
        w1,
        SegmentCall::WriteAtomic(rotated_if(s0, b0).events_for(raw)),
        SegmentReply::Wrote(r1),
        w2,
    )
}

/// The second attempt, after a rotation: the events are resolved again for the
/// new file and written, with the reply `r2`.
pub open spec fn second_attempt<W: SegmentWriter>(
    w2: W,
    s2: InternModel,
    raw: RawEvent,
    b1: bool,
    w3: W,
    r2: std::io::Result<WriteAtomicResult>,
    w4: W,
) -> bool {
    &&& W::does(w2, SegmentCall::TakeRotated, SegmentReply::Flag(b1), w3)
    &&& W::does(w3, SegmentCall::WriteAtomic(s2.events_for(raw)), SegmentReply::Wrote(r2), w4)
}

/// Whether writing `raw` from `w0` and `s0` may return `result` and leave `w`
/// and `s`: a rotation that was not noted yet resets the interning state; the
/// event is written, and written once more if that attempt rotated.
pub open spec fn event_written<W: SegmentWriter>(
    w0: W,
    s0: InternModel,
    raw: RawEvent,
    result: std::io::Result<WriteAtomicResult>,
    w: W,
    s: InternModel,
) -> bool {
    exists|b0: bool, w1: W, r1: std::io::Result<WriteAtomicResult>, w2: W|
        {
            &&& #[trigger] first_attempt(w0, s0, raw, b0, w1, r1, w2)
            &&& if is_rotated(r1) {
                let s2 = rotated_if(s0, b0).after(raw).rotated();
                exists|b1: bool, w3: W|
                    {
                        &&& #[trigger] second_attempt(w2, s2, raw, b1, w3, result, w)
                        &&& s == s2.after(raw)
                    }
            } else {
                &&& result == r1
                &&& w == w2
                &&& s == rotated_if(s0, b0).after(raw)
            }
        }
}

/// Whether `batch` is what `event` needs and itself, for the CPU state `c` and
/// some symbol table that extends its own by what `symbols` allows: `frames`.
pub open spec fn is_sample_batch(
    batch: Seq<EventModel>,
    c: CpuModel,
    event: RawEvent,
    frames: Map<u64, FrameModel>,
    symbols: spec_fn(u64, SymbolInfo) -> bool,
) -> bool {
    &&& frames_extended(c.frames, frames, c.chain_of(event), symbols)
    &&& batch == c.defs(event, frames).push(written(event, 0))
}

/// Whether the batch of the sample `event` is written from `w0`, with the reply
/// `r`.
pub open spec fn sample_attempt<W: SegmentWriter>(
    w0: W,
    c: CpuModel,
    event: RawEvent,
    frames: Map<u64, FrameModel>,
    symbols: spec_fn(u64, SymbolInfo) -> bool,
    r: std::io::Result<WriteAtomicResult>,
    w: W,
) -> bool {
    exists|batch: Seq<EventModel>| #[trigger]
        is_sample_batch(batch, c, event, frames, symbols) && W::does(
            w0,
            SegmentCall::WriteAtomic(batch),
            SegmentReply::Wrote(r),
            w,
        )
}

/// Whether writing the sample `event` from `w0`, the locations `l0` and the CPU
/// state `c0` may leave `w` and `s`: its batch is written; if that rotated
/// instead, the interning state is that of a new file, and the batch is collected
/// again and written once more. Any other outcome is passed over.
pub open spec fn sample_written_or_retried<W: SegmentWriter>(
    w0: W,
    l0: FlushModel,
    c0: CpuModel,
    event: RawEvent,
    symbols: spec_fn(u64, SymbolInfo) -> bool,
    w: W,
    s: InternModel,
) -> bool {
    exists|f1: Map<u64, FrameModel>, r1: std::io::Result<WriteAtomicResult>, w1: W|
        {
            &&& #[trigger] sample_attempt(w0, c0, event, f1, symbols, r1, w1)
            &&& if is_rotated(r1) {
                let c1 = c0.after(event, f1).rotated();
                exists|
                    b: bool,
                    w2: W,
                    f2: Map<u64, FrameModel>,
                    r2: std::io::Result<WriteAtomicResult>,
                |
                    {
                        &&& #[trigger] W::does(
                            w1,
                            SegmentCall::TakeRotated,
                            SegmentReply::Flag(b),
                            w2,
                        )
                        &&& #[trigger] sample_attempt(w2, c1, event, f2, symbols, r2, w)
                        &&& s == (InternModel {
                            locations: l0.rotated(),
                            cpu: Some(c1.after(event, f2)),
                        })
                    }
            } else {
                &&& w == w1
                &&& s == (InternModel { locations: l0, cpu: Some(c0.after(event, f1)) })
            }
        }
}

/// The written form of events that carry no spawn location.
fn written_list(batch: &Vec<RawEvent>, state: &mut FlushState) -> (events: EventList)
    requires
        old(state).inv(),
        forall|i: int| 0 <= i < batch@.len() ==> spawn_location(#[trigger] batch@[i]) is None,
    ensures
        final(state).inv(),
        final(state)@ == old(state)@,
        events@ == models0(batch@),
{
    let mut events = EventList::new();
    let mut i: usize = 0;
    assert(events@ =~= models0(batch@).take(0));
    while i < batch.len()
        invariant
            i <= batch@.len(),
            state.inv(),
            state@ == old(state)@,
            forall|i: int| 0 <= i < batch@.len() ==> spawn_location(#[trigger] batch@[i]) is None,
            events@ == models0(batch@).take(i as int),
        decreases batch@.len() - i,
    {
        assert(spawn_location(batch@[i as int]) is None);
        let mut one = state.resolve(&batch[i]).into_events();
        let ghost all = one@;
        assert(event_models(all) == seq![written(batch@[i as int], 0)]);
        assert(all.len() == 1 && event_models(all)[0] == all[0]@);
        let event = one.remove(0);
        events.push(event);
        i = i + 1;
        assert(events@ =~= models0(batch@).take(i as int));
    }
    assert(models0(batch@).take(i as int) =~= models0(batch@));
    events
}

/// Owns the writer, the spawn-location interning and the CPU-profiling interning
/// state.
pub struct RetryingEventWriter<W: SegmentWriter> {
    pub writer: W,
    pub flush_state: FlushState,
    pub cpu_flush: Option<CpuFlushState>,
}

impl<W: SegmentWriter> RetryingEventWriter<W> {
    pub open spec fn inv(self) -> bool {
        self.flush_state.inv() && (self.cpu_flush matches Some(c) ==> c@.wf())
    }

    /// The interning state.
    pub open spec fn interned(self) -> InternModel {
        InternModel { locations: self.flush_state@, cpu: cpu_model(self.cpu_flush) }
    }

    /// Take note of a rotation.
    fn handle_rotation(&mut self)
        requires
            old(self).inv(),
        ensures
            final(self).inv(),
            final(self).writer == old(self).writer,
            final(self).interned() == old(self).interned().rotated(),
    {
        self.flush_state.on_rotate();
        if let Some(mut cpu) = self.cpu_flush.take() {
            cpu.on_rotate();
            self.cpu_flush = Some(cpu);
        }
        assert(self.interned() =~= old(self).interned().rotated());
    }

    pub fn new(writer: W) -> (ew: RetryingEventWriter<W>)
        ensures
            ew.inv(),
            ew.writer == writer,
            ew.interned() == (InternModel { locations: FlushModel::fresh(), cpu: None }),
    {
        RetryingEventWriter { writer, flush_state: FlushState::new(), cpu_flush: None }
    }

    /// Convert a recorded event to its written form, interning locations as
    /// needed, and write it.
    ///
    /// - `Written` — event was written successfully
    /// - `OversizedBatch` — event + defs too large for a single file, dropped
    /// - `Rotated` — the retry rotated again; the caller should disable recording
    pub fn write_raw_event(&mut self, raw: &RawEvent) -> (result: std::io::Result<
        WriteAtomicResult,
    >)
        requires
            old(self).inv(),
            spawn_location(*raw) matches Some(location)
                ==> old(self).flush_state@.has_room(location),
        ensures
            final(self).inv(),
            event_written(
                old(self).writer,
                old(self).interned(),
                *raw,
                result,
                final(self).writer,
                final(self).interned(),
            ),
    {
        let ghost w0 = self.writer;
        let ghost s0 = self.interned();
        let b0 = self.writer.take_rotated();
        let ghost w1 = self.writer;
        if b0 {
            self.handle_rotation();
        }
        let events = self.flush_state.resolve(raw);
        let r1 = self.writer.write_atomic(&events);
        let ghost w2 = self.writer;
        assert(first_attempt(w0, s0, *raw, b0, w1, r1, w2));
        let retry = match &r1 {
            Ok(WriteAtomicResult::Rotated) => true,
            _ => false,
        };
        if !retry {
            return r1;
        }
        let b1 = self.writer.take_rotated();
        let ghost w3 = self.writer;
        self.handle_rotation();
        let ghost s2 = self.interned();
        let events = self.flush_state.resolve(raw);
        let r2 = self.writer.write_atomic(&events);
        assert(second_attempt(w2, s2, *raw, b1, w3, r2, self.writer));
        r2
    }

    /// Flush the underlying writer.
    pub fn flush(&mut self) -> (r: std::io::Result<()>)
        ensures
            W::does(
                old(self).writer,
                SegmentCall::Flush,
                SegmentReply::Done(r),
                final(self).writer,
            ),
            final(self).flush_state == old(self).flush_state,
            final(self).cpu_flush == old(self).cpu_flush,
    {
        self.writer.flush()
    }

    /// Write a CPU sample with the definitions that it needs, so that all of them
    /// land in the same file. Where the writer rotates instead, they are collected
    /// again and written into the new file. Without CPU profiling nothing happens.
    pub fn write_cpu_event<F: Fn(u64) -> SymbolInfo>(&mut self, event: RawEvent, resolve: &F)
        requires
            old(self).inv(),
            event is CpuSample,
            forall|a: u64| call_requires(*resolve, (a,)),
        ensures
            final(self).inv(),
            old(self).cpu_flush is None ==> *final(self) == *old(self),
            old(self).cpu_flush matches Some(cpu) ==> sample_written_or_retried(
                old(self).writer,
                old(self).flush_state@,
                cpu@,
                event,
                answers(*resolve),
                final(self).writer,
                final(self).interned(),
            ),
    {
        let ghost w0 = self.writer;
        let ghost l0 = self.flush_state@;
        let ghost symbols = answers(*resolve);
        let mut cpu = match self.cpu_flush.take() {
            Some(cpu) => cpu,
            None => {
                return;
            },
        };
        let ghost c0 = cpu@;
        let (events, again) = sample_events(&mut cpu, &mut self.flush_state, event, resolve);
        let ghost f1 = cpu@.frames;
        let r1 = self.writer.write_atomic(&events);
        let ghost w1 = self.writer;
        assert(is_sample_batch(events@, c0, event, f1, symbols));
        assert(sample_attempt(w0, c0, event, f1, symbols, r1, w1));
        let retry = match r1 {
            Ok(WriteAtomicResult::Rotated) => true,
            _ => false,
        };
        if retry {
            let b = self.writer.take_rotated();
            let ghost w2 = self.writer;
            self.flush_state.on_rotate();
            cpu.on_rotate();
            let ghost c1 = cpu@;
            let (events, _) = sample_events(&mut cpu, &mut self.flush_state, again, resolve);
            let ghost f2 = cpu@.frames;
            let r2 = self.writer.write_atomic(&events);
            assert(is_sample_batch(events@, c1, event, f2, symbols));
            assert(sample_attempt(w2, c1, event, f2, symbols, r2, self.writer));
            assert(W::does(w1, SegmentCall::TakeRotated, SegmentReply::Flag(b), w2));
        }
        self.cpu_flush = Some(cpu);
        assert(self.interned().cpu == Some(cpu@));
    }
}

/// The batch of a sample, in written form, and the sample again.
fn sample_events<F: Fn(u64) -> SymbolInfo>(
    cpu: &mut CpuFlushState,
    state: &mut FlushState,
    event: RawEvent,
    resolve: &F,
) -> (r: (EventList, RawEvent))
    requires
        old(cpu)@.wf(),
        old(state).inv(),
        event is CpuSample,
        forall|a: u64| call_requires(*resolve, (a,)),
    ensures
        final(cpu)@.wf(),
        final(state).inv(),
        final(state)@ == old(state)@,
        final(cpu)@ == old(cpu)@.after(event, final(cpu)@.frames),
        is_sample_batch(r.0@, old(cpu)@, event, final(cpu)@.frames, answers(*resolve)),
        r.1 == event,
{
    let ghost c0 = cpu@;
    let mut batch = cpu.collect_cpu_event_batch(event, resolve);
    let ghost defs = c0.defs(event, cpu@.frames);
    proof {
        lemma_defs_are_defs(c0, event, cpu@.frames);
        assert forall|i: int| 0 <= i < batch@.len() implies spawn_location(
            #[trigger] batch@[i],
        ) is None by {
            if i < batch@.len() - 1 {
                assert(written(batch@[i], 0) == defs[i]);
            } else {
                assert(batch@[i] == event);
            }
        }
        assert(models0(batch@) =~= defs.push(written(event, 0)));
    }
    let events = written_list(&batch, state);
    let last: usize = batch.len() - 1;
    (events, batch.remove(last))
}

/// Whether writing `raws` one after the other may leave `w` and `s`, and
/// whether it was given up because a retry rotated. A failed write is passed
/// over.
pub open spec fn events_written<W: SegmentWriter>(
    w0: W,
    s0: InternModel,
    raws: Seq<RawEvent>,
    w: W,
    s: InternModel,
    given_up: bool,
) -> bool
    decreases raws.len(),
{
    if raws.len() == 0 {
        w == w0 && s == s0 && !given_up
    } else {
        ||| given_up && events_written(w0, s0, raws.drop_last(), w, s, true)
        ||| exists|wm: W, sm: InternModel, r: std::io::Result<WriteAtomicResult>|
            {
                &&& events_written(w0, s0, raws.drop_last(), wm, sm, false)
                &&& #[trigger] event_written(wm, sm, raws.last(), r, w, s)
                &&& given_up == is_rotated(r)
            }
    }
}

/// The value of a [`TelemetryRecorder`].
#[verifier::ext_equal]
#[verifier::reject_recursive_types(W)]
pub struct RecorderModel<W> {
    pub shared: SharedModel,
    pub writer: W,
    /// The interning state.
    pub interned: InternModel,
}

/// Whether a flush may lead from `before` to `after` with `result`: all that
/// the collector held was written, one event after the other, and then the
/// writer was flushed; or a retry rotated, and recording was switched off.
pub open spec fn flushes<W: SegmentWriter>(
    before: RecorderModel<W>,
    after: RecorderModel<W>,
    result: std::io::Result<()>,
) -> bool {
    exists|w1: W, given_up: bool|
        {
            &&& #[trigger] events_written(
                before.writer,
                before.interned,
                all_raw(before.shared.collector.batches),
                w1,
                after.interned,
                given_up,
            )
            &&& after.shared == (SharedModel {
                enabled: before.shared.enabled && !given_up,
                ..before.shared.taken()
            })
            &&& if given_up {
                after.writer == w1 && result is Ok
            } else {
                W::does(w1, SegmentCall::Flush, SegmentReply::Done(result), after.writer)
            }
        }
}

/// A recorder with recording switched off.
pub open spec fn switched_off<W>(m: RecorderModel<W>) -> RecorderModel<W> {
    RecorderModel { shared: SharedModel { enabled: false, ..m.shared }, ..m }
}

/// Drains the collector into a writer.
pub struct TelemetryRecorder<W: SegmentWriter> {
    pub shared: SharedState,
    pub event_writer: RetryingEventWriter<W>,
}

proof fn lemma_names_after_write<W: SegmentWriter>(
    w0: W,
    s0: InternModel,
    raw: RawEvent,
    result: std::io::Result<WriteAtomicResult>,
    w: W,
    s: InternModel,
)
    requires
        event_written(w0, s0, raw, result, w, s),
    ensures
        s.locations.ids == s0.after(raw).locations.ids,
        s.locations.names == s0.after(raw).locations.names,
{
}

impl<W: SegmentWriter> View for TelemetryRecorder<W> {
    type V = RecorderModel<W>;

    open spec fn view(&self) -> RecorderModel<W> {
        RecorderModel {
            shared: self.shared@,
            writer: self.event_writer.writer,
            interned: self.event_writer.interned(),
        }
    }
}

impl<W: SegmentWriter> TelemetryRecorder<W> {
    pub open spec fn inv(self) -> bool {
        self.event_writer.inv() && self.shared@.wf()
    }

    /// A recorder that is disabled.
    pub fn new(writer: W, start_time_ns: u64) -> (r: TelemetryRecorder<W>)
        ensures
            r.inv(),
            r.shared@ == SharedModel::fresh(start_time_ns),
            r.event_writer.writer == writer,
            r.event_writer.interned() == (InternModel {
                locations: FlushModel::fresh(),
                cpu: None,
            }),
    {
        TelemetryRecorder {
            shared: SharedState::new(start_time_ns),
            event_writer: RetryingEventWriter::new(writer),
        }
    }

    /// Write everything that the collector holds, then flush the writer. If a
    /// retried write rotates again, recording is switched off, the rest of what
    /// was drained is dropped and the writer is not flushed.
    pub fn flush(&mut self) -> (result: std::io::Result<()>)
        requires
            old(self).inv(),
            batch_has_room(
                old(self).event_writer.flush_state@,
                all_raw(old(self).shared@.collector.batches),
            ),
        ensures
            final(self).inv(),
            flushes(old(self)@, final(self)@, result),
    {
        let ghost w0 = self.event_writer.writer;
        let ghost s0 = self.event_writer.interned();
        let raws = self.shared.take_recorded();
        let ghost drained = self.shared@;
        let mut i: usize = 0;
        assert(raws@.take(0) =~= Seq::empty());
        while i < raws.len()
            invariant
                i <= raws@.len(),
                self.inv(),
                self.shared@ == drained,
                batch_has_room(s0.locations, raws@),
                self.event_writer.flush_state@.ids == batch_state(
                    s0.locations,
                    raws@.take(i as int),
                ).ids,
                self.event_writer.flush_state@.names == batch_state(
                    s0.locations,
                    raws@.take(i as int),
                ).names,
                events_written(
                    w0,
                    s0,
                    raws@.take(i as int),
                    self.event_writer.writer,
                    self.event_writer.interned(),
                    false,
                ),
                w0 == old(self).event_writer.writer,
                s0 == old(self).event_writer.interned(),
                raws@ == all_raw(old(self).shared@.collector.batches),
                drained == old(self).shared@.taken(),
            decreases raws@.len() - i,
        {
            let ghost wm = self.event_writer.writer;
            let ghost sm = self.event_writer.interned();
            let ghost next = raws@.take(i + 1);
            assert(next.drop_last() =~= raws@.take(i as int));
            assert(next.last() == raws@[i as int]);
            assert(spawn_location(raws@[i as int]) == spawn_location(raws[i as int]));
            let r = self.event_writer.write_raw_event(&raws[i]);
            proof {
                lemma_names_after_write(
                    wm,
                    sm,
                    raws@[i as int],
                    r,
                    self.event_writer.writer,
                    self.event_writer.interned(),
                );
                assert(event_written(
                    wm,
                    sm,
                    next.last(),
                    r,
                    self.event_writer.writer,
                    self.event_writer.interned(),
                ));
            }
            let given_up = match &r {
                Ok(WriteAtomicResult::Rotated) => true,
                _ => false,
            };
            if given_up {
                self.shared.disable();
                proof {
                    lemma_given_up_stays(
                        w0,
                        s0,
                        raws@,
                        i + 1,
                        self.event_writer.writer,
                        self.event_writer.interned(),
                    );
                    assert(self@.shared =~= (SharedModel {
                        enabled: false,
                        ..old(self)@.shared.taken()
                    }));
                    assert(events_written(
                        old(self)@.writer,
                        old(self)@.interned,
                        all_raw(old(self)@.shared.collector.batches),
                        self@.writer,
                        self@.interned,
                        true,
                    ));
                }
                return Ok(());
            }
            i = i + 1;
        }
        assert(raws@.take(i as int) =~= raws@);
        let ghost w1 = self.event_writer.writer;
        let result = self.event_writer.flush();
        assert(self@.shared =~= (SharedModel {
            enabled: old(self)@.shared.enabled,
            ..old(self)@.shared.taken()
        }));
        assert(events_written(
            old(self)@.writer,
            old(self)@.interned,
            all_raw(old(self)@.shared.collector.batches),
            w1,
            self@.interned,
            false,
        ));
        result
    }

    /// Start recording telemetry events.
    pub fn enable(&mut self)
        requires
            old(self).inv(),
        ensures
            final(self).inv(),
            final(self).shared@ == (SharedModel { enabled: true, ..old(self).shared@ }),
            final(self).event_writer == old(self).event_writer,
    {
        self.shared.enable();
    }

    /// Stop recording telemetry events and flush any buffered data.
    pub fn disable(&mut self) -> (result: std::io::Result<()>)
        requires
            old(self).inv(),
            batch_has_room(
                old(self).event_writer.flush_state@,
                all_raw(old(self).shared@.collector.batches),
            ),
        ensures
            final(self).inv(),
            flushes(switched_off(old(self)@), final(self)@, result),
    {
        self.shared.disable();
        assert(self@ =~= switched_off(old(self)@));
        self.flush()
    }
}

proof fn lemma_given_up_stays<W: SegmentWriter>(
    w0: W,
    s0: InternModel,
    raws: Seq<RawEvent>,
    n: int,
    w: W,
    s: InternModel,
)
    requires
        0 <= n <= raws.len(),
        events_written(w0, s0, raws.take(n), w, s, true),
    ensures
        events_written(w0, s0, raws, w, s, true),
    decreases raws.len() - n,
{
    if n < raws.len() {
        assert(raws.take(n + 1).drop_last() =~= raws.take(n));
        lemma_given_up_stays(w0, s0, raws, n + 1, w, s);
    } else {
        assert(raws.take(n) =~= raws);
    }
}

/// Something that happens to a recorder.
pub enum RecorderOp {
    /// A thread records an event.
    Record { thread: u64, event: RawEvent },
    /// A drain epoch begins.
    NewEpoch { epoch: u64 },
    /// The idle buffers are drained into the collector.
    Drain,
    /// The collector is written out.
    Flush,
}

/// Whether `op` may lead from `before` to `after`.
pub open spec fn op_leads<W: SegmentWriter>(
    before: RecorderModel<W>,
    op: RecorderOp,
    after: RecorderModel<W>,
) -> bool {
    match op {
        RecorderOp::Record { thread, event } => after == (RecorderModel {
            shared: before.shared.recorded(thread, event),
            ..before
        }),
        RecorderOp::NewEpoch { epoch } => after == (RecorderModel {
            shared: SharedModel { drain_epoch: epoch, ..before.shared },
            ..before
        }),
        RecorderOp::Drain => after == (RecorderModel {
            shared: before.shared.drained(),
            ..before
        }),
        RecorderOp::Flush => exists|result: std::io::Result<()>| flushes(before, after, result),
    }
}

/// Whether `ops`, one after the other, may lead from `before` to `after`.
pub open spec fn run_leads<W: SegmentWriter>(
    before: RecorderModel<W>,
    ops: Seq<RecorderOp>,
    after: RecorderModel<W>,
) -> bool
    decreases ops.len(),
{
    if ops.len() == 0 {
        after == before
    } else {
        exists|mid: RecorderModel<W>|
            run_leads(before, ops.drop_last(), mid) && #[trigger] op_leads(mid, ops.last(), after)
    }
}

/// What is left of a run without its recordings.
pub open spec fn unrecorded(ops: Seq<RecorderOp>) -> Seq<RecorderOp>
    decreases ops.len(),
{
    if ops.len() == 0 {
        Seq::empty()
    } else if ops.last() is Record {
        unrecorded(ops.drop_last())
    } else {
        unrecorded(ops.drop_last()).push(ops.last())
    }
}

/// How often a run flushes.
pub open spec fn flush_count(ops: Seq<RecorderOp>) -> nat
    decreases ops.len(),
{
    if ops.len() == 0 {
        0
    } else {
        flush_count(ops.drop_last()) + (if ops.last() is Flush {
            1nat
        } else {
            0
        })
    }
}

/// Whether `n` flushes, and nothing else, may lead the writer from `w0` to `w`.
pub open spec fn only_flushed<W: SegmentWriter>(w0: W, n: nat, w: W) -> bool
    decreases n,
{
    if n == 0 {
        w == w0
    } else {
        exists|wm: W, result: std::io::Result<()>|
            only_flushed(w0, (n - 1) as nat, wm) && #[trigger] W::does(
                wm,
                SegmentCall::Flush,
                SegmentReply::Done(result),
                w,
            )
    }
}

/// While recording is off, what is recorded has no effect: a run leads where it
/// leads without its recordings, so that no event of them reaches the writer,
/// then or later. Nothing in the run switches recording on.
pub proof fn lemma_recordings_while_off_have_no_effect<W: SegmentWriter>(
    before: RecorderModel<W>,
    ops: Seq<RecorderOp>,
    after: RecorderModel<W>,
)
    requires
        !before.shared.enabled,
        run_leads(before, ops, after),
    ensures
        !after.shared.enabled,
        run_leads(before, unrecorded(ops), after),
    decreases ops.len(),
{
    if ops.len() > 0 {
        let mid = choose|mid: RecorderModel<W>|
            run_leads(before, ops.drop_last(), mid) && #[trigger] op_leads(mid, ops.last(), after);
        lemma_recordings_while_off_have_no_effect(before, ops.drop_last(), mid);
        if !(ops.last() is Record) {
            let rest = unrecorded(ops);
            assert(rest.drop_last() =~= unrecorded(ops.drop_last()));
            assert(op_leads(mid, rest.last(), after));
        }
    }
}

proof fn lemma_off_and_empty_only_flushes<W: SegmentWriter>(
    before: RecorderModel<W>,
    ops: Seq<RecorderOp>,
    after: RecorderModel<W>,
)
    requires
        !before.shared.enabled,
        before.shared.collector.batches.len() == 0,
        run_leads(before, ops, after),
        forall|i: int| 0 <= i < ops.len() ==> !(#[trigger] ops[i] is Drain),
    ensures
        !after.shared.enabled,
        after.shared.collector == before.shared.collector,
        after.shared.handles == before.shared.handles,
        after.interned == before.interned,
        only_flushed(before.writer, flush_count(ops), after.writer),
    decreases ops.len(),
{
    if ops.len() > 0 {
        let init = ops.drop_last();
        let mid = choose|mid: RecorderModel<W>|
            run_leads(before, init, mid) && #[trigger] op_leads(mid, ops.last(), after);
        assert forall|i: int| 0 <= i < init.len() implies !(#[trigger] init[i] is Drain) by {
            assert(init[i] == ops[i]);
        }
        lemma_off_and_empty_only_flushes(before, init, mid);
        assert(!(ops[ops.len() - 1] is Drain));
        if ops.last() is Flush {
            let result = choose|result: std::io::Result<()>| flushes(mid, after, result);
            assert(all_raw(mid.shared.collector.batches) =~= Seq::empty());
            assert(after.shared.collector =~= mid.shared.collector);
            assert(W::does(
                mid.writer,
                SegmentCall::Flush,
                SegmentReply::Done(result),
                after.writer,
            ));
        }
    }
}

/// Disabling stops the recording until it is enabled again. When disabling
/// returns, what the collector held was written and the writer flushed, unless
/// a retry rotated and the rest was given up. However much is recorded and
/// flushed from then on, the writer is only flushed and nothing is held that
/// was not held before. Once recording is enabled again, the next event is held
/// again.
pub proof fn lemma_disable_lasts_until_enable<W: SegmentWriter>(
    recording: RecorderModel<W>,
    disabled: RecorderModel<W>,
    result: std::io::Result<()>,
    ops: Seq<RecorderOp>,
    later: RecorderModel<W>,
    thread: u64,
    event: RawEvent,
)
    requires
        recording.shared.wf(),
        flushes(switched_off(recording), disabled, result),
        run_leads(disabled, ops, later),
        forall|i: int| 0 <= i < ops.len() ==> !(#[trigger] ops[i] is Drain),
    ensures
        exists|w1: W, given_up: bool| #[trigger]
            events_written(
                recording.writer,
                recording.interned,
                all_raw(recording.shared.collector.batches),
                w1,
                disabled.interned,
                given_up,
            ) && (given_up || W::does(
                w1,
                SegmentCall::Flush,
                SegmentReply::Done(result),
                disabled.writer,
            )),
        disabled.shared.collector.batches.len() == 0,
        !later.shared.enabled,
        later.shared.collector == disabled.shared.collector,
        later.shared.handles == disabled.shared.handles,
        later.shared.handles == recording.shared.handles,
        later.interned == disabled.interned,
        only_flushed(disabled.writer, flush_count(ops), later.writer),
        ({
            let on = SharedModel { enabled: true, ..later.shared };
            let next = on.recorded(thread, event);
            held_by_all(next.handles) + batched(next.collector.batches) == held_by_all(
                on.handles,
            ) + batched(on.collector.batches) + 1
        }),
{
    lemma_off_and_empty_only_flushes(disabled, ops, later);
    let on = SharedModel { enabled: true, ..later.shared };
    assert(on.wf());
    lemma_enabled_records_each_event(on, thread, event);
}

/// An event is written as what it resolves to in the file that is current: a
/// rotation that was not noted yet makes every definition due again. The outcome
/// of the write is returned, unless the writer rotated instead of writing: then
/// the event is resolved once more, for the new file, and the outcome of that
/// second write is returned, whatever it is.
pub proof fn lemma_event_is_retried_once<W: SegmentWriter>(
    w0: W,
    s0: InternModel,
    raw: RawEvent,
    result: std::io::Result<WriteAtomicResult>,
    w: W,
    s: InternModel,
) -> (path: (bool, W, std::io::Result<WriteAtomicResult>, W, bool, W))
    requires
        event_written(w0, s0, raw, result, w, s),
    ensures
        ({
            let now = if path.0 {
                s0.locations.rotated()
            } else {
                s0.locations
            };
            &&& W::does(w0, SegmentCall::TakeRotated, SegmentReply::Flag(path.0), path.1)
            &&& W::does(
                path.1,
                SegmentCall::WriteAtomic(now.events_for(raw)),
                SegmentReply::Wrote(path.2),
                path.3,
            )
            &&& path.2 matches Ok(WriteAtomicResult::Rotated) ==> {
                let fresh = now.after(raw).rotated();
                &&& W::does(path.3, SegmentCall::TakeRotated, SegmentReply::Flag(path.4), path.5)
                &&& W::does(
                    path.5,
                    SegmentCall::WriteAtomic(fresh.events_for(raw)),
                    SegmentReply::Wrote(result),
                    w,
                )
                &&& s.locations == fresh.after(raw)
            }
            &&& !(path.2 matches Ok(WriteAtomicResult::Rotated)) ==> result == path.2 && w == path.3
                && s.locations == now.after(raw)
            &&& s0.cpu is None <==> s.cpu is None
            &&& s0.cpu matches Some(c) ==> (if path.0 || (path.2 matches Ok(
                WriteAtomicResult::Rotated,
            )) {
                &&& s.cpu->0.frames_emitted.is_empty()
                &&& s.cpu->0.names_emitted.is_empty()
                &&& s.cpu->0.frames == c.frames
                &&& s.cpu->0.names == c.names
                &&& s.cpu->0.inline == c.inline
            } else {
                s.cpu->0 == c
            })
        }),
{
    let (b0, w1, r1, w2) = choose|
        b0: bool,
        w1: W,
        r1: std::io::Result<WriteAtomicResult>,
        w2: W,
    |
        {
            &&& #[trigger] first_attempt(w0, s0, raw, b0, w1, r1, w2)
            &&& if is_rotated(r1) {
                let s2 = rotated_if(s0, b0).after(raw).rotated();
                exists|b1: bool, w3: W|
                    {
                        &&& #[trigger] second_attempt(w2, s2, raw, b1, w3, result, w)
                        &&& s == s2.after(raw)
                    }
            } else {
                &&& result == r1
                &&& w == w2
                &&& s == rotated_if(s0, b0).after(raw)
            }
        };
    if is_rotated(r1) {
        let s2 = rotated_if(s0, b0).after(raw).rotated();
        let (b1, w3) = choose|b1: bool, w3: W|
            {
                &&& #[trigger] second_attempt(w2, s2, raw, b1, w3, result, w)
                &&& s == s2.after(raw)
            };
        (b0, w1, r1, w2, b1, w3)
    } else {
        (b0, w1, r1, w2, false, w2)
    }
}

/// A sample is written in one batch that ends with it, behind the definitions
/// that it needs in the file that is current. Where the writer rotates instead,
/// the batch is collected again for the new file, which owes every definition,
/// and written once more.
pub proof fn lemma_sample_is_retried_once<W: SegmentWriter>(
    w0: W,
    l0: FlushModel,
    c0: CpuModel,
    event: RawEvent,
    symbols: spec_fn(u64, SymbolInfo) -> bool,
    w: W,
    s: InternModel,
) -> (path: (
    Map<u64, FrameModel>,
    std::io::Result<WriteAtomicResult>,
    W,
    bool,
    W,
    Map<u64, FrameModel>,
    std::io::Result<WriteAtomicResult>,
))
    requires
        sample_written_or_retried(w0, l0, c0, event, symbols, w, s),
    ensures
        frames_extended(c0.frames, path.0, c0.chain_of(event), symbols),
        W::does(
            w0,
            SegmentCall::WriteAtomic(c0.defs(event, path.0).push(written(event, 0))),
            SegmentReply::Wrote(path.1),
            path.2,
        ),
        path.1 matches Ok(WriteAtomicResult::Rotated) ==> {
            let fresh = c0.after(event, path.0).rotated();
            &&& W::does(path.2, SegmentCall::TakeRotated, SegmentReply::Flag(path.3), path.4)
            &&& frames_extended(fresh.frames, path.5, fresh.chain_of(event), symbols)
            &&& W::does(
                path.4,
                SegmentCall::WriteAtomic(fresh.defs(event, path.5).push(written(event, 0))),
                SegmentReply::Wrote(path.6),
                w,
            )
            &&& s.locations == l0.rotated()
            &&& s.cpu == Some(fresh.after(event, path.5))
        },
        !(path.1 matches Ok(WriteAtomicResult::Rotated)) ==> w == path.2 && s.locations == l0
            && s.cpu == Some(c0.after(event, path.0)),
{
    let (f1, r1, w1) = choose|
        f1: Map<u64, FrameModel>,
        r1: std::io::Result<WriteAtomicResult>,
        w1: W,
    |
        {
            &&& #[trigger] sample_attempt(w0, c0, event, f1, symbols, r1, w1)
            &&& if is_rotated(r1) {
                let c1 = c0.after(event, f1).rotated();
                exists|
                    b: bool,
                    w2: W,
                    f2: Map<u64, FrameModel>,
                    r2: std::io::Result<WriteAtomicResult>,
                |
                    {
                        &&& #[trigger] W::does(
                            w1,
                            SegmentCall::TakeRotated,
                            SegmentReply::Flag(b),
                            w2,
                        )
                        &&& #[trigger] sample_attempt(w2, c1, event, f2, symbols, r2, w)
                        &&& s == (InternModel {
                            locations: l0.rotated(),
                            cpu: Some(c1.after(event, f2)),
                        })
                    }
            } else {
                &&& w == w1
                &&& s == (InternModel { locations: l0, cpu: Some(c0.after(event, f1)) })
            }
        };
    if is_rotated(r1) {
        let c1 = c0.after(event, f1).rotated();
        let (b, w2, f2, r2) = choose|
            b: bool,
            w2: W,
            f2: Map<u64, FrameModel>,
            r2: std::io::Result<WriteAtomicResult>,
        |
            {
                &&& #[trigger] W::does(w1, SegmentCall::TakeRotated, SegmentReply::Flag(b), w2)
                &&& #[trigger] sample_attempt(w2, c1, event, f2, symbols, r2, w)
                &&& s == (InternModel {
                    locations: l0.rotated(),
                    cpu: Some(c1.after(event, f2)),
                })
            };
        (f1, r1, w1, b, w2, f2, r2)
    } else {
        (f1, r1, w1, false, w1, f1, r1)
    }
}

/// Events are written in order, each once. The writing is given up exactly where
/// an event's second write rotated again, and nothing is written behind it; any
/// other failure is passed over.
pub proof fn lemma_events_are_written_until_given_up<W: SegmentWriter>(
    w0: W,
    s0: InternModel,
    raws: Seq<RawEvent>,
    w: W,
    s: InternModel,
    given_up: bool,
) -> (path: (bool, W, InternModel, std::io::Result<WriteAtomicResult>))
    requires
        events_written(w0, s0, raws, w, s, given_up),
    ensures
        raws.len() == 0 ==> w == w0 && s == s0 && !given_up,
        raws.len() > 0 && path.0 ==> given_up && events_written(
            w0,
            s0,
            raws.drop_last(),
            w,
            s,
            true,
        ),
        raws.len() > 0 && !path.0 ==> {
            &&& events_written(w0, s0, raws.drop_last(), path.1, path.2, false)
            &&& event_written(path.1, path.2, raws.last(), path.3, w, s)
            &&& given_up <==> (path.3 matches Ok(WriteAtomicResult::Rotated))
        },
{
    if raws.len() == 0 {
        (false, w0, s0, Ok(WriteAtomicResult::Written))
    } else if given_up && events_written(w0, s0, raws.drop_last(), w, s, true) {
        (true, w0, s0, Ok(WriteAtomicResult::Written))
    } else {
        let (wm, sm, r) = choose|wm: W, sm: InternModel, r: std::io::Result<WriteAtomicResult>|
            {
                &&& events_written(w0, s0, raws.drop_last(), wm, sm, false)
                &&& #[trigger] event_written(wm, sm, raws.last(), r, w, s)
                &&& given_up == is_rotated(r)
            };
        (false, wm, sm, r)
    }
}

/// A flush writes what the collector held and leaves it empty. Where nothing had
/// to be given up, the writer is flushed, its outcome is returned and recording
/// goes on or stays off as before; where something was, recording is off, the
/// writer is not flushed, and the flush counts as done.
pub proof fn lemma_flush_empties_the_collector<W: SegmentWriter>(
    before: RecorderModel<W>,
    after: RecorderModel<W>,
    result: std::io::Result<()>,
) -> (path: (W, bool))
    requires
        flushes(before, after, result),
    ensures
        events_written(
            before.writer,
            before.interned,
            all_raw(before.shared.collector.batches),
            path.0,
            after.interned,
            path.1,
        ),
        after.shared.collector.batches.len() == 0,
        after.shared.handles == before.shared.handles,
        after.shared.roles == before.shared.roles,
        path.1 ==> !after.shared.enabled && result is Ok && after.writer == path.0,
        !path.1 ==> after.shared.enabled == before.shared.enabled && W::does(
            path.0,
            SegmentCall::Flush,
            SegmentReply::Done(result),
            after.writer,
        ),
{
    let (w1, given_up) = choose|w1: W, given_up: bool|
        {
            &&& #[trigger] events_written(
                before.writer,
                before.interned,
                all_raw(before.shared.collector.batches),
                w1,
                after.interned,
                given_up,
            )
            &&& after.shared == (SharedModel {
                enabled: before.shared.enabled && !given_up,
                ..before.shared.taken()
            })
            &&& if given_up {
                after.writer == w1 && result is Ok
            } else {
                W::does(w1, SegmentCall::Flush, SegmentReply::Done(result), after.writer)
            }
        };
    (w1, given_up)
}

/// A recorder that is switched off is the same recorder but for that.
pub proof fn lemma_switching_off_changes_nothing_else<W>(m: RecorderModel<W>)
    ensures
        !switched_off(m).shared.enabled,
        switched_off(m).shared.collector == m.shared.collector,
        switched_off(m).shared.handles == m.shared.handles,
        switched_off(m).shared.roles == m.shared.roles,
        switched_off(m).writer == m.writer,
        switched_off(m).interned == m.interned,
{
}

/// A writer that discards events writes everything and never rotates.
pub proof fn lemma_null_segment_writer_always_succeeds(
    before: NullWriter,
    call: SegmentCall,
    reply: SegmentReply,
    after: NullWriter,
)
    requires
        <NullWriter as SegmentWriter>::does(before, call, reply, after),
    ensures
        match call {
            SegmentCall::WriteAtomic(_) => reply matches SegmentReply::Wrote(r) && (r matches Ok(
                WriteAtomicResult::Written,
            )),
            SegmentCall::TakeRotated => reply == SegmentReply::Flag(false),
            SegmentCall::Flush => reply matches SegmentReply::Done(r) && r is Ok,
        },
{
}

/// The value of a recorder: its recording state, its writer, and what is
/// interned for the current file.
pub proof fn lemma_value_of_a_recorder<W: SegmentWriter>(r: TelemetryRecorder<W>)
    ensures
        r@.shared == r.shared@,
        r@.writer == r.event_writer.writer,
        r@.interned.locations == r.event_writer.flush_state@,
        r.event_writer.cpu_flush is None ==> r@.interned.cpu is None,
        r.event_writer.cpu_flush matches Some(c) ==> r@.interned.cpu == Some(c@),
{
}

} // verus!
