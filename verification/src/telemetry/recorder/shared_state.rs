//! Recording state that the runtime hooks share with the flush thread.

use crate::telemetry::buffer::{ThreadLocalBuffer, BUFFER_CAPACITY};
use crate::telemetry::collector::{BatchModel, CentralCollector, CollectorModel};
use crate::telemetry::events::{RawEvent, ThreadRole};
use std::collections::HashMap;
use vstd::prelude::*;

verus! {

broadcast use vstd::std_specs::hash::group_hash_axioms;

/// What is left of a registered buffer.
pub enum BufferState {
    /// The owning thread runs and the buffer can be drained.
    Live(ThreadLocalBuffer),
    /// The owning thread panicked while it held the buffer.
    Poisoned,
    /// The owning thread has exited.
    Gone,
}

/// The registration of a thread's buffer.
pub struct TlBufferHandle {
    pub thread: u64,
    pub buffer: BufferState,
    /// The drain epoch in which the buffer was last flushed by its own thread.
    pub flush_epoch: u64,
}

/// The value of a [`BufferState`].
pub enum BufferModel {
    Live(BatchModel),
    Poisoned,
    Gone,
}

/// The value of a [`TlBufferHandle`].
pub struct HandleModel {
    pub thread: u64,
    pub buffer: BufferModel,
    pub flush_epoch: u64,
}

impl View for TlBufferHandle {
    type V = HandleModel;

    open spec fn view(&self) -> HandleModel {
        HandleModel {
            thread: self.thread,
            buffer: match self.buffer {
                BufferState::Live(b) => BufferModel::Live(b@),
                BufferState::Poisoned => BufferModel::Poisoned,
                BufferState::Gone => BufferModel::Gone,
            },
            flush_epoch: self.flush_epoch,
        }
    }
}

/// The value of each handle of a sequence.
pub open spec fn handle_models(handles: Seq<TlBufferHandle>) -> Seq<HandleModel> {
    handles.map_values(|h: TlBufferHandle| h@)
}

impl HandleModel {
    /// Whether this is the usable buffer of `thread`.
    pub open spec fn serves(self, thread: u64) -> bool {
        self.thread == thread && self.buffer is Live
    }

    /// A fresh registration of `thread`.
    pub open spec fn fresh(thread: u64) -> HandleModel {
        HandleModel { thread, buffer: BufferModel::Live(BatchModel::nothing()), flush_epoch: 0 }
    }

    /// Whether a drain in `epoch` flushes this buffer: it is live, holds
    /// events and was not flushed by its own thread in this epoch.
    pub open spec fn drains(self, epoch: u64) -> bool {
        &&& self.flush_epoch < epoch
        &&& self.buffer matches BufferModel::Live(b) && b.event_count > 0
    }

    /// The handle after a drain in `epoch`.
    pub open spec fn drained(self, epoch: u64) -> HandleModel {
        if self.drains(epoch) {
            HandleModel { buffer: BufferModel::Live(BatchModel::nothing()), ..self }
        } else {
            self
        }
    }
}

/// The index of the usable buffer of `thread`, or the number of handles.
pub open spec fn serving_index(handles: Seq<HandleModel>, thread: u64) -> nat
    decreases handles.len(),
{
    if handles.len() == 0 {
        0
    } else if handles[0].serves(thread) {
        0
    } else {
        1 + serving_index(handles.drop_first(), thread)
    }
}

/// What a drain in `epoch` hands to the collector, in order of registration.
pub open spec fn drained_batches(handles: Seq<HandleModel>, epoch: u64) -> Seq<BatchModel>
    decreases handles.len(),
{
    if handles.len() == 0 {
        Seq::empty()
    } else {
        let before = drained_batches(handles.drop_last(), epoch);
        if handles.last().drains(epoch) {
            before.push(handles.last().buffer->0)
        } else {
            before
        }
    }
}

/// What a drain in `epoch` leaves registered: every buffer whose thread has
/// not exited.
pub open spec fn kept_handles(handles: Seq<HandleModel>, epoch: u64) -> Seq<HandleModel>
    decreases handles.len(),
{
    if handles.len() == 0 {
        Seq::empty()
    } else {
        let before = kept_handles(handles.drop_last(), epoch);
        if handles.last().buffer is Gone {
            before
        } else {
            before.push(handles.last().drained(epoch))
        }
    }
}

/// The value of a [`SharedState`].
#[verifier::ext_equal]
pub struct SharedModel {
    pub enabled: bool,
    pub collector: CollectorModel,
    pub start_time_ns: u64,
    pub next_worker_id: u64,
    pub drain_epoch: u64,
    pub handles: Seq<HandleModel>,
    pub roles: Map<u32, ThreadRole>,
}

impl SharedModel {
    pub open spec fn fresh(start_time_ns: u64) -> SharedModel {
        SharedModel {
            enabled: false,
            collector: CollectorModel::empty(crate::telemetry::collector::DEFAULT_CAPACITY as nat),
            start_time_ns,
            next_worker_id: 0,
            drain_epoch: 0,
            handles: Seq::empty(),
            roles: Map::empty(),
        }
    }

    pub open spec fn wf(self) -> bool {
        &&& self.collector.wf()
        &&& forall|i: int|
            0 <= i < self.handles.len() ==> (#[trigger] self.handles[i].buffer matches
                BufferModel::Live(b) ==> b.event_count < BUFFER_CAPACITY)
    }

    /// The handles with one for `thread` among them.
    pub open spec fn registered(self, thread: u64) -> Seq<HandleModel> {
        if serving_index(self.handles, thread) < self.handles.len() {
            self.handles
        } else {
            self.handles.push(HandleModel::fresh(thread))
        }
    }

    /// The state after `thread` recorded `event`. With recording off nothing
    /// changes. A full buffer, and one that has not been flushed in the current
    /// drain epoch, is flushed to the collector.
    pub open spec fn recorded(self, thread: u64, event: RawEvent) -> SharedModel {
        if !self.enabled {
            self
        } else {
            let i = serving_index(self.handles, thread) as int;
            let handles = self.registered(thread);
            let handle = handles[i];
            let batch = handle.buffer->Live_0.with_event(event);
            if batch.event_count >= BUFFER_CAPACITY || handle.flush_epoch < self.drain_epoch {
                SharedModel {
                    handles: handles.update(
                        i,
                        HandleModel {
                            buffer: BufferModel::Live(BatchModel::nothing()),
                            flush_epoch: self.drain_epoch,
                            ..handle
                        },
                    ),
                    collector: self.collector.with(batch),
                    ..self
                }
            } else {
                SharedModel {
                    handles: handles.update(
                        i,
                        HandleModel { buffer: BufferModel::Live(batch), ..handle },
                    ),
                    ..self
                }
            }
        }
    }

    /// The state once every batch is taken out of the collector.
    pub open spec fn taken(self) -> SharedModel {
        SharedModel {
            collector: CollectorModel { batches: Seq::empty(), ..self.collector },
            ..self
        }
    }

    /// The state after the idle buffers are drained.
    pub open spec fn drained(self) -> SharedModel {
        SharedModel {
            collector: self.collector.with_all(drained_batches(self.handles, self.drain_epoch)),
            handles: kept_handles(self.handles, self.drain_epoch),
            ..self
        }
    }
}

/// Runtime-agnostic core recording state.
pub struct SharedState {
    pub enabled: bool,
    pub collector: CentralCollector,
    /// Monotonic nanosecond timestamp captured at trace start.
    pub start_time_ns: u64,
    /// Global worker ID counter. Each runtime reserves a contiguous block so
    /// that worker IDs don't collide.
    pub next_worker_id: u64,
    /// Epoch counter bumped by the flush thread. Buffers stamp this value on
    /// each self-flush so the flush thread can skip busy workers when draining.
    pub drain_epoch: u64,
    /// The registered thread-local buffers.
    pub tl_buffers: Vec<TlBufferHandle>,
    /// Maps OS tid → thread role so that CPU samples can be attributed to the
    /// correct worker or blocking-pool bucket at flush time.
    pub thread_roles: HashMap<u32, ThreadRole>,
}

impl View for SharedState {
    type V = SharedModel;

    open spec fn view(&self) -> SharedModel {
        SharedModel {
            enabled: self.enabled,
            collector: self.collector@,
            start_time_ns: self.start_time_ns,
            next_worker_id: self.next_worker_id,
            drain_epoch: self.drain_epoch,
            handles: handle_models(self.tl_buffers@),
            roles: self.thread_roles@,
        }
    }
}

impl SharedState {
    /// Recording state that is disabled and has seen no thread.
    pub fn new(start_time_ns: u64) -> (s: SharedState)
        ensures
            s@.wf(),
            s@ == SharedModel::fresh(start_time_ns),
    {
        let s = SharedState {
            enabled: false,
            collector: CentralCollector::new(),
            start_time_ns,
            next_worker_id: 0,
            drain_epoch: 0,
            tl_buffers: Vec::new(),
            thread_roles: HashMap::new(),
        };
        assert(s@ =~= SharedModel::fresh(start_time_ns));
        s
    }

    /// Start recording events.
    pub fn enable(&mut self)
        ensures
            final(self)@ == (SharedModel { enabled: true, ..old(self)@ }),
    {
        self.enabled = true;
        assert(self@ =~= (SharedModel { enabled: true, ..old(self)@ }));
    }

    /// Stop recording events.
    pub fn disable(&mut self)
        ensures
            final(self)@ == (SharedModel { enabled: false, ..old(self)@ }),
    {
        self.enabled = false;
        assert(self@ =~= (SharedModel { enabled: false, ..old(self)@ }));
    }

    /// Registers the role of an OS thread.
    pub fn register_thread(&mut self, tid: u32, role: ThreadRole)
        ensures
            final(self)@ == (SharedModel {
                roles: old(self)@.roles.insert(tid, role),
                ..old(self)@
            }),
    {
        let ghost before = self@;
        self.thread_roles.insert(tid, role);
        assert(self@ =~= (SharedModel { roles: before.roles.insert(tid, role), ..before }));
    }

    fn find_buffer(&self, thread: u64) -> (i: usize)
        ensures
            i == serving_index(self@.handles, thread),
            i <= self@.handles.len(),
            i < self@.handles.len() ==> self@.handles[i as int].serves(thread),
    {
        let mut i: usize = 0;
        let ghost handles = self@.handles;
        assert(handles.skip(0) =~= handles);
        while i < self.tl_buffers.len()
            invariant
                i <= handles.len(),
                handles == handle_models(self.tl_buffers@),
                serving_index(handles, thread) == i + serving_index(
                    handles.skip(i as int),
                    thread,
                ),
            decreases handles.len() - i,
        {
            let handle = &self.tl_buffers[i];
            assert(handles.skip(i as int)[0] == handles[i as int]);
            assert(handles[i as int] == handle@);
            if handle.thread == thread {
                if let BufferState::Live(_) = &handle.buffer {
                    return i;
                }
            }
            assert(handles.skip(i as int).drop_first() =~= handles.skip(i + 1));
            i = i + 1;
        }
        assert(handles.skip(i as int).len() == 0);
        i
    }

    /// Record an event of the thread `thread`. The first event of a thread
    /// registers its buffer.
    pub fn record_event(&mut self, thread: u64, event: RawEvent)
        requires
            old(self)@.wf(),
        ensures
            final(self)@.wf(),
            final(self)@ == old(self)@.recorded(thread, event),
    {
        let ghost before = self@;
        if !self.enabled {
            return;
        }
        let i: usize = self.find_buffer(thread);
        if i == self.tl_buffers.len() {
            self.tl_buffers.push(
                TlBufferHandle {
                    thread,
                    buffer: BufferState::Live(ThreadLocalBuffer::new()),
                    flush_epoch: 0,
                },
            );
        }
        assert(handle_models(self.tl_buffers@) =~= before.registered(thread));
        let ghost handles = before.registered(thread);
        let ghost handle = handles[i as int];
        assert(handle == self.tl_buffers@[i as int]@);
        let mut state = TlBufferHandle { thread, buffer: BufferState::Gone, flush_epoch: 0 };
        let ghost placeholder = state@;
        let ghost list = self.tl_buffers@;
        self.tl_buffers.push(state);
        let mut taken = self.tl_buffers.swap_remove(i);
        assert(taken@ == handle);
        assert(handle_models(self.tl_buffers@) =~= handles.update(i as int, placeholder));
        let mut buffer = match taken.buffer {
            BufferState::Live(b) => b,
            _ => ThreadLocalBuffer::new(),
        };
        let mut flush_epoch: u64 = taken.flush_epoch;
        buffer.record_event(event);
        let ghost batch = handle.buffer->Live_0.with_event(event);
        assert(buffer@ == batch);
        if buffer.should_flush() || flush_epoch < self.drain_epoch {
            let flushed = buffer.flush();
            self.collector.accept_flush(flushed);
            flush_epoch = self.drain_epoch;
        }
        let back = TlBufferHandle { thread, buffer: BufferState::Live(buffer), flush_epoch };
        let ghost model = back@;
        self.tl_buffers.set(i, back);
        assert(handle_models(self.tl_buffers@) =~= handles.update(i as int, model));
        assert(self@ =~= before.recorded(thread, event));
    }

    /// Record a queue-depth sample of the thread `thread`.
    pub fn record_queue_sample(&mut self, thread: u64, now_nanos: u64, global_queue_depth: usize)
        requires
            old(self)@.wf(),
        ensures
            final(self)@.wf(),
            final(self)@ == old(self)@.recorded(
                thread,
                RawEvent::QueueSample { timestamp_nanos: now_nanos, global_queue_depth },
            ),
    {
        self.record_event(
            thread,
            RawEvent::QueueSample { timestamp_nanos: now_nanos, global_queue_depth },
        );
    }

    /// Flush all idle thread-local buffers into the collector.
    ///
    /// Buffers that were flushed by their own thread in the current epoch are
    /// skipped, and so are poisoned ones. Buffers of exited threads are
    /// forgotten.
    pub fn drain_all_tl_buffers(&mut self)
        requires
            old(self)@.wf(),
        ensures
            final(self)@.wf(),
            final(self)@ == old(self)@.drained(),
    {
        let ghost before = self@;
        let epoch: u64 = self.drain_epoch;
        let mut handles: Vec<TlBufferHandle> = Vec::new();
        std::mem::swap(&mut handles, &mut self.tl_buffers);
        let ghost all = handle_models(handles@);
        let ghost start = before.collector;
        assert(all.take(0) =~= Seq::empty());
        let mut kept: Vec<TlBufferHandle> = Vec::new();
        assert(handle_models(kept@) =~= kept_handles(all.take(0), epoch));
        let ghost exec = handles@;
        for handle in it: handles.into_iter()
            invariant
                it.seq() == exec,
                all == handle_models(exec),
                before.wf(),
                all == before.handles,
                start == before.collector,
                epoch == before.drain_epoch,
                self.collector@.wf(),
                self.collector@ == start.with_all(drained_batches(all.take(it.index()), epoch)),
                handle_models(kept@) == kept_handles(all.take(it.index()), epoch),
                self@ == (SharedModel {
                    collector: self.collector@,
                    handles: self@.handles,
                    ..before
                }),
        {
            let ghost k = it.index();
            let ghost next = all.take(k + 1);
            let ghost model = handle@;
            let ghost kept_before = kept@;
            assert(next.drop_last() =~= all.take(k));
            assert(next.last() == model);
            let thread: u64 = handle.thread;
            let flush_epoch: u64 = handle.flush_epoch;
            match handle.buffer {
                BufferState::Live(b) => {
                    let mut buffer = b;
                    if flush_epoch < epoch && buffer.has_pending_events() {
                        let ghost sofar = drained_batches(all.take(k), epoch);
                        let ghost batch_model = buffer@;
                        let batch = buffer.flush();
                        self.collector.accept_flush(batch);
                        assert(sofar.push(batch_model).drop_last() =~= sofar);
                        assert(drained_batches(next, epoch) =~= sofar.push(batch_model));
                    }
                    let back = TlBufferHandle {
                        thread,
                        buffer: BufferState::Live(buffer),
                        flush_epoch,
                    };
                    assert(back@ == model.drained(epoch));
                    kept.push(back);
                    assert(handle_models(kept@) =~= handle_models(kept_before).push(back@));
                },
                BufferState::Poisoned => {
                    let back = TlBufferHandle {
                        thread,
                        buffer: BufferState::Poisoned,
                        flush_epoch,
                    };
                    kept.push(back);
                    assert(handle_models(kept@) =~= handle_models(kept_before).push(back@));
                },
                BufferState::Gone => {},
            }
            assert(handle_models(kept@) =~= kept_handles(next, epoch));
            assert(self@ =~= (SharedModel {
                collector: self.collector@,
                handles: self@.handles,
                ..before
            }));
        }
        assert(all.take(all.len() as int) =~= all);
        self.tl_buffers = kept;
        assert(self@ =~= before.drained());
        proof {
            lemma_kept_small(all, epoch);
        }
    }

    /// Advance the global drain epoch so that busy threads flush their own
    /// buffer on their next event.
    pub fn bump_drain_epoch(&mut self)
        ensures
            final(self)@ == (SharedModel {
                drain_epoch: next_epoch(old(self)@.drain_epoch),
                ..old(self)@
            }),
    {
        let ghost before = self@;
        self.drain_epoch = self.drain_epoch.wrapping_add(1);
        assert(self@ =~= (SharedModel { drain_epoch: next_epoch(before.drain_epoch), ..before }));
    }

    /// Takes every batch out of the collector: their events, oldest first.
    pub fn take_recorded(&mut self) -> (raws: Vec<RawEvent>)
        requires
            old(self)@.wf(),
        ensures
            final(self)@.wf(),
            raws@ == all_raw(old(self)@.collector.batches),
            final(self)@ == old(self)@.taken(),
    {
        let ghost start = self@;
        let ghost all = start.collector.batches;
        let mut raws: Vec<RawEvent> = Vec::new();
        let ghost mut done: int = 0;
        assert(all.take(0) =~= Seq::empty());
        assert(all.skip(0) =~= all);
        assert(self.collector@ =~= (CollectorModel { batches: all.skip(0), ..start.collector }));
        loop
            invariant
                self@.wf(),
                0 <= done <= all.len(),
                all == start.collector.batches,
                raws@ == all_raw(all.take(done)),
                self@ == (SharedModel { collector: self.collector@, ..start }),
                self.collector@ == (CollectorModel {
                    batches: all.skip(done),
                    ..start.collector
                }),
            ensures
                done == all.len(),
            decreases all.len() - done,
        {
            match self.collector.next() {
                Some(batch) => {
                    let ghost model = batch@;
                    let mut events = batch.raw_events;
                    raws.append(&mut events);
                    proof {
                        assert(model == all[done]);
                        let next = all.take(done + 1);
                        assert(next.drop_last() =~= all.take(done));
                        assert(raws@ =~= all_raw(next));
                        assert(all.skip(done).drop_first() =~= all.skip(done + 1));
                        done = done + 1;
                    }
                    assert(self@ =~= (SharedModel { collector: self.collector@, ..start }));
                },
                None => {
                    assert(self@ =~= (SharedModel { collector: self.collector@, ..start }));
                    break;
                },
            }
        }
        assert(all.take(done) =~= all);
        assert(all.skip(done) =~= Seq::empty());
        assert(self@ =~= start.taken());
        raws
    }
}

/// The recorded events of all batches, in order.
pub open spec fn all_raw(batches: Seq<BatchModel>) -> Seq<RawEvent>
    decreases batches.len(),
{
    if batches.len() == 0 {
        Seq::empty()
    } else {
        all_raw(batches.drop_last()) + batches.last().raw_events
    }
}

/// The epoch after `epoch`; the count starts over at the end of its range.
pub open spec fn next_epoch(epoch: u64) -> u64 {
    if epoch == u64::MAX {
        0
    } else {
        (epoch + 1) as u64
    }
}

/// How many events a handle's buffer holds.
pub open spec fn held(handle: HandleModel) -> nat {
    match handle.buffer {
        BufferModel::Live(b) => b.event_count,
        _ => 0,
    }
}

/// How many events the buffers hold.
pub open spec fn held_by_all(handles: Seq<HandleModel>) -> nat
    decreases handles.len(),
{
    if handles.len() == 0 {
        0
    } else {
        held_by_all(handles.drop_last()) + held(handles.last())
    }
}

/// How many events the batches hold.
pub open spec fn batched(batches: Seq<BatchModel>) -> nat
    decreases batches.len(),
{
    if batches.len() == 0 {
        0
    } else {
        batched(batches.drop_last()) + batches.last().event_count
    }
}

proof fn lemma_batched_concat(a: Seq<BatchModel>, b: Seq<BatchModel>)
    ensures
        batched(a + b) == batched(a) + batched(b),
    decreases b.len(),
{
    if b.len() == 0 {
        assert(a + b =~= a);
    } else {
        assert((a + b).drop_last() =~= a + b.drop_last());
        lemma_batched_concat(a, b.drop_last());
    }
}

proof fn lemma_drain_moves_events(handles: Seq<HandleModel>, epoch: u64)
    ensures
        held_by_all(kept_handles(handles, epoch)) + batched(drained_batches(handles, epoch))
            == held_by_all(handles),
    decreases handles.len(),
{
    if handles.len() > 0 {
        let rest = handles.drop_last();
        lemma_drain_moves_events(rest, epoch);
        let kept = kept_handles(rest, epoch);
        let batches = drained_batches(rest, epoch);
        assert(kept.push(handles.last().drained(epoch)).drop_last() =~= kept);
        assert(handles.last().drains(epoch) ==> batches.push(
            handles.last().buffer->0,
        ).drop_last() =~= batches);
    }
}

/// Draining loses nothing: while the collector has room for what is drained,
/// the events in the buffers and in the collector are as many after a drain as
/// before it.
pub proof fn lemma_drain_loses_no_event(m: SharedModel)
    requires
        m.wf(),
        m.collector.batches.len() + drained_batches(m.handles, m.drain_epoch).len()
            <= m.collector.capacity,
    ensures
        held_by_all(m.drained().handles) + batched(m.drained().collector.batches) == held_by_all(
            m.handles,
        ) + batched(m.collector.batches),
{
    let more = drained_batches(m.handles, m.drain_epoch);
    crate::telemetry::collector::lemma_collector_keeps_newest(m.collector, more);
    let all = m.collector.batches + more;
    assert(all.skip(0) =~= all);
    lemma_batched_concat(m.collector.batches, more);
    lemma_drain_moves_events(m.handles, m.drain_epoch);
}

/// After a drain no buffer of an exited thread is registered, and every live
/// buffer that was not flushed by its own thread in this epoch is empty.
pub proof fn lemma_drain_empties_idle_buffers(handles: Seq<HandleModel>, epoch: u64)
    ensures
        forall|i: int|
            0 <= i < kept_handles(handles, epoch).len() ==> {
                let h = #[trigger] kept_handles(handles, epoch)[i];
                &&& !(h.buffer is Gone)
                &&& h.flush_epoch < epoch ==> held(h) == 0
            },
    decreases handles.len(),
{
    if handles.len() > 0 {
        lemma_drain_empties_idle_buffers(handles.drop_last(), epoch);
    }
}

/// The state after `thread` recorded each of `events`.
pub open spec fn recorded_all(m: SharedModel, thread: u64, events: Seq<RawEvent>) -> SharedModel
    decreases events.len(),
{
    if events.len() == 0 {
        m
    } else {
        recorded_all(m, thread, events.drop_last()).recorded(thread, events.last())
    }
}

/// Disabled telemetry records nothing: whatever is recorded while recording is
/// off leaves the buffers and the collector as they are.
pub proof fn lemma_disabled_records_nothing(m: SharedModel, thread: u64, events: Seq<RawEvent>)
    requires
        !m.enabled,
    ensures
        recorded_all(m, thread, events) == m,
    decreases events.len(),
{
    if events.len() > 0 {
        lemma_disabled_records_nothing(m, thread, events.drop_last());
    }
}

/// Enabled telemetry records every event: one more event is held by the
/// buffers and the collector, as long as the collector has room for a batch.
pub proof fn lemma_enabled_records_each_event(m: SharedModel, thread: u64, event: RawEvent)
    requires
        m.wf(),
        m.enabled,
        m.collector.batches.len() < m.collector.capacity,
    ensures
        ({
            let n = m.recorded(thread, event);
            held_by_all(n.handles) + batched(n.collector.batches) == held_by_all(m.handles)
                + batched(m.collector.batches) + 1
        }),
{
    let i = serving_index(m.handles, thread) as int;
    lemma_serving_index(m.handles, thread);
    let handles = m.registered(thread);
    let n = m.recorded(thread, event);
    if i == m.handles.len() {
        assert(handles.drop_last() =~= m.handles);
    }
    lemma_held_update(handles, i, n.handles[i]);
    let batch = handles[i].buffer->Live_0.with_event(event);
    assert(m.collector.batches.push(batch).drop_last() =~= m.collector.batches);
}

proof fn lemma_serving_index(handles: Seq<HandleModel>, thread: u64)
    ensures
        serving_index(handles, thread) <= handles.len(),
        serving_index(handles, thread) < handles.len() ==> handles[serving_index(
            handles,
            thread,
        ) as int].serves(thread),
    decreases handles.len(),
{
    if handles.len() > 0 && !handles[0].serves(thread) {
        lemma_serving_index(handles.drop_first(), thread);
    }
}

proof fn lemma_held_update(handles: Seq<HandleModel>, i: int, h: HandleModel)
    requires
        0 <= i < handles.len(),
    ensures
        held_by_all(handles.update(i, h)) + held(handles[i]) == held_by_all(handles) + held(h),
    decreases handles.len(),
{
    let updated = handles.update(i, h);
    if i == handles.len() - 1 {
        assert(updated.drop_last() =~= handles.drop_last());
    } else {
        assert(updated.drop_last() =~= handles.drop_last().update(i, h));
        lemma_held_update(handles.drop_last(), i, h);
    }
}

proof fn lemma_kept_small(handles: Seq<HandleModel>, epoch: u64)
    requires
        forall|i: int|
            0 <= i < handles.len() ==> (#[trigger] handles[i].buffer matches BufferModel::Live(b)
                ==> b.event_count < BUFFER_CAPACITY),
    ensures
        forall|i: int|
            0 <= i < kept_handles(handles, epoch).len() ==> (#[trigger] kept_handles(
                handles,
                epoch,
            )[i].buffer matches BufferModel::Live(b) ==> b.event_count < BUFFER_CAPACITY),
    decreases handles.len(),
{
    if handles.len() > 0 {
        let rest = handles.drop_last();
        assert forall|i: int| 0 <= i < rest.len() implies (#[trigger] rest[i].buffer matches
            BufferModel::Live(b) ==> b.event_count < BUFFER_CAPACITY) by {
            assert(rest[i] == handles[i]);
        }
        lemma_kept_small(rest, epoch);
        assert(handles[handles.len() - 1] == handles.last());
    }
}

/// A recorded event comes last in the buffer of its thread, behind what the
/// buffer held: either there, or in the newest batch of the collector, to which
/// a full buffer, or one left over from an earlier drain epoch, goes whole.
/// Nothing else changes.
pub proof fn lemma_recorded_event_comes_last(m: SharedModel, thread: u64, event: RawEvent)
    requires
        m.wf(),
        m.enabled,
    ensures
        ({
            let n = m.recorded(thread, event);
            let i = serving_index(m.handles, thread) as int;
            let held = if i < m.handles.len() {
                m.handles[i].buffer->Live_0.raw_events
            } else {
                Seq::empty()
            };
            let count = if i < m.handles.len() {
                m.handles[i].buffer->Live_0.event_count
            } else {
                0
            };
            let epoch = if i < m.handles.len() {
                m.handles[i].flush_epoch
            } else {
                0
            };
            &&& n.handles.len() == (if i < m.handles.len() {
                m.handles.len()
            } else {
                m.handles.len() + 1
            })
            &&& n.handles[i].thread == thread
            &&& n.handles[i].buffer is Live
            &&& count + 1 < BUFFER_CAPACITY && epoch >= m.drain_epoch ==> {
                &&& n.handles[i].buffer->Live_0.raw_events == held.push(event)
                &&& n.handles[i].buffer->Live_0.event_count == count + 1
                &&& n.handles[i].flush_epoch == epoch
                &&& n.collector == m.collector
            }
            &&& count + 1 >= BUFFER_CAPACITY || epoch < m.drain_epoch ==> {
                &&& n.handles[i].buffer->Live_0.raw_events.len() == 0
                &&& n.handles[i].buffer->Live_0.event_count == 0
                &&& n.handles[i].flush_epoch == m.drain_epoch
                &&& n.collector.batches.last().raw_events == held.push(event)
                &&& n.collector.batches.last().event_count == count + 1
            }
            &&& forall|j: int|
                0 <= j < m.handles.len() && j != i ==> #[trigger] n.handles[j] == m.handles[j]
            &&& n.enabled
            &&& n.roles == m.roles
            &&& n.start_time_ns == m.start_time_ns
            &&& n.next_worker_id == m.next_worker_id
            &&& n.drain_epoch == m.drain_epoch
        }),
{
    lemma_serving_index(m.handles, thread);
}

/// A thread records into the first live buffer that is registered for it, and
/// into a new one where there is none.
pub proof fn lemma_thread_records_into_its_own_buffer(handles: Seq<HandleModel>, thread: u64)
    ensures
        ({
            let i = serving_index(handles, thread) as int;
            &&& i <= handles.len()
            &&& i < handles.len() ==> handles[i].thread == thread && handles[i].buffer is Live
            &&& forall|j: int|
                0 <= j < i ==> !((#[trigger] handles[j]).thread == thread && handles[j].buffer
                    is Live)
        }),
    decreases handles.len(),
{
    lemma_serving_index(handles, thread);
    if handles.len() > 0 && !handles[0].serves(thread) {
        let rest = handles.drop_first();
        lemma_thread_records_into_its_own_buffer(rest, thread);
        let i = serving_index(handles, thread) as int;
        assert forall|j: int| 0 <= j < i implies !((#[trigger] handles[j]).thread == thread
            && handles[j].buffer is Live) by {
            if j > 0 {
                assert(rest[j - 1] == handles[j]);
            }
        }
    }
}

/// A drain hands on exactly the buffers that hold events and that their own
/// thread did not flush in this epoch, each as it is and in order of
/// registration.
pub proof fn lemma_drain_hands_on_whole_buffers(handles: Seq<HandleModel>, epoch: u64)
    ensures
        forall|i: int|
            0 <= i < handles.len() && (#[trigger] handles[i]).flush_epoch < epoch && (
            handles[i].buffer matches BufferModel::Live(b) && b.event_count > 0)
                ==> drained_batches(handles, epoch).contains(handles[i].buffer->Live_0),
        forall|k: int|
            0 <= k < drained_batches(handles, epoch).len() ==> {
                let batch = #[trigger] drained_batches(handles, epoch)[k];
                batch.event_count > 0 && exists|i: int|
                    0 <= i < handles.len() && (#[trigger] handles[i]).flush_epoch < epoch
                        && handles[i].buffer == BufferModel::Live(batch)
            },
        handles.len() > 0 && handles.last().flush_epoch < epoch && (handles.last().buffer matches
            BufferModel::Live(b) && b.event_count > 0) ==> drained_batches(handles, epoch).last()
            == handles.last().buffer->Live_0,
    decreases handles.len(),
{
    if handles.len() > 0 {
        let rest = handles.drop_last();
        lemma_drain_hands_on_whole_buffers(rest, epoch);
        let before = drained_batches(rest, epoch);
        let all = drained_batches(handles, epoch);
        assert forall|i: int|
            0 <= i < handles.len() && (#[trigger] handles[i]).flush_epoch < epoch && (
            handles[i].buffer matches BufferModel::Live(b) && b.event_count
                > 0) implies all.contains(handles[i].buffer->Live_0) by {
            if i < rest.len() {
                assert(rest[i] == handles[i]);
                let k = choose|k: int|
                    0 <= k < before.len() && before[k] == handles[i].buffer->Live_0;
                assert(all[k] == before[k]);
            } else {
                assert(all[all.len() - 1] == handles[i].buffer->Live_0);
            }
        }
        assert forall|k: int| 0 <= k < all.len() implies ({
            let batch = #[trigger] all[k];
            batch.event_count > 0 && exists|i: int|
                0 <= i < handles.len() && (#[trigger] handles[i]).flush_epoch < epoch
                    && handles[i].buffer == BufferModel::Live(batch)
        }) by {
            if k < before.len() {
                assert(all[k] == before[k]);
                let i = choose|i: int|
                    0 <= i < rest.len() && (#[trigger] rest[i]).flush_epoch < epoch
                        && rest[i].buffer == BufferModel::Live(before[k]);
                assert(handles[i] == rest[i]);
            } else {
                assert(handles[handles.len() - 1] == handles.last());
            }
        }
    }
}

/// The events of batches are those of each batch, one batch after the other.
pub proof fn lemma_events_follow_batch_order(
    earlier: Seq<BatchModel>,
    batch: BatchModel,
    later: Seq<BatchModel>,
)
    ensures
        all_raw(Seq::empty()) == Seq::<RawEvent>::empty(),
        all_raw(seq![batch]) == batch.raw_events,
        all_raw(earlier + later) == all_raw(earlier) + all_raw(later),
    decreases later.len(),
{
    assert(all_raw(seq![batch]) =~= batch.raw_events) by {
        reveal_with_fuel(all_raw, 2);
    }
    if later.len() == 0 {
        assert(earlier + later =~= earlier);
    } else {
        assert((earlier + later).drop_last() =~= earlier + later.drop_last());
        lemma_events_follow_batch_order(earlier, batch, later.drop_last());
        assert(all_raw(earlier + later) =~= all_raw(earlier) + all_raw(later));
    }
}

/// A new drain epoch is the one after, so that every buffer flushed in the old
/// one is behind it again; only at the end of its range does the count start
/// over.
pub proof fn lemma_epoch_advances(epoch: u64)
    ensures
        epoch < u64::MAX ==> next_epoch(epoch) == epoch + 1,
        epoch == u64::MAX ==> next_epoch(epoch) == 0,
{
}

/// Taking the recorded events empties the collector and leaves the buffers, the
/// roles of the threads and the rest as they are.
pub proof fn lemma_taking_empties_only_the_collector(m: SharedModel)
    ensures
        m.taken().collector.batches.len() == 0,
        m.taken().collector.dropped == m.collector.dropped,
        m.taken().handles == m.handles,
        m.taken().roles == m.roles,
        m.taken().enabled == m.enabled,
        m.taken().drain_epoch == m.drain_epoch,
        m.drained().roles == m.roles,
        m.drained().enabled == m.enabled,
        m.drained().drain_epoch == m.drain_epoch,
{
}

/// The value of a registration, and that of the recording state, has each field
/// under the same name.
pub proof fn lemma_value_of_the_recording_state(s: SharedState, i: int)
    ensures
        s@.enabled == s.enabled,
        s@.collector == s.collector@,
        s@.start_time_ns == s.start_time_ns,
        s@.next_worker_id == s.next_worker_id,
        s@.drain_epoch == s.drain_epoch,
        s@.roles == s.thread_roles@,
        s@.handles.len() == s.tl_buffers@.len(),
        0 <= i < s.tl_buffers@.len() ==> {
            let h = s.tl_buffers@[i];
            let m = s@.handles[i];
            &&& m.thread == h.thread
            &&& m.flush_epoch == h.flush_epoch
            &&& match h.buffer {
                BufferState::Live(b) => m.buffer == BufferModel::Live(b@),
                BufferState::Poisoned => m.buffer is Poisoned,
                BufferState::Gone => m.buffer is Gone,
            }
        },
{
}

/// Recording starts switched off, with nothing recorded and no thread known.
pub proof fn lemma_recording_starts_off(start_time_ns: u64)
    ensures
        ({
            let m = SharedModel::fresh(start_time_ns);
            &&& !m.enabled
            &&& m.start_time_ns == start_time_ns
            &&& m.next_worker_id == 0
            &&& m.drain_epoch == 0
            &&& m.handles.len() == 0
            &&& m.roles.dom().is_empty()
            &&& m.collector.batches.len() == 0
            &&& m.collector.capacity == 1024
        }),
{
}

/// Every registration whose thread has not exited stays registered by a drain,
/// for the same thread and with the epoch of its own last flush.
pub proof fn lemma_drain_keeps_registrations(handles: Seq<HandleModel>, epoch: u64, h: HandleModel)
    ensures
        kept_handles(Seq::empty(), epoch) == Seq::<HandleModel>::empty(),
        h.buffer is Gone ==> kept_handles(handles.push(h), epoch) == kept_handles(handles, epoch),
        !(h.buffer is Gone) ==> ({
            let kept = kept_handles(handles.push(h), epoch);
            &&& kept.len() > 0
            &&& kept.drop_last() == kept_handles(handles, epoch)
            &&& kept.last().thread == h.thread
            &&& kept.last().flush_epoch == h.flush_epoch
            &&& h.buffer is Poisoned ==> kept.last().buffer is Poisoned
            &&& h.buffer matches BufferModel::Live(b) ==> (kept.last().buffer matches
                BufferModel::Live(left) && if h.flush_epoch < epoch && b.event_count > 0 {
                left.event_count == 0 && left.raw_events.len() == 0
            } else {
                left == b
            })
        }),
{
    assert(handles.push(h).drop_last() =~= handles);
    assert(kept_handles(handles, epoch).push(h.drained(epoch)).drop_last() =~= kept_handles(
        handles,
        epoch,
    ));
}

/// A drain hands what it takes out of the buffers to the collector, behind what
/// the collector holds, and leaves the registrations that are kept.
pub proof fn lemma_drain_goes_to_the_collector(m: SharedModel)
    ensures
        m.drained().collector == m.collector.with_all(drained_batches(m.handles, m.drain_epoch)),
        m.drained().handles == kept_handles(m.handles, m.drain_epoch),
        m.drained().start_time_ns == m.start_time_ns,
        m.drained().next_worker_id == m.next_worker_id,
{
}

} // verus!
