//! The central collector: a bounded ring of batches from all threads.

use crate::telemetry::events::RawEvent;
use crossbeam_queue::ArrayQueue;
use vstd::prelude::*;

verus! {

/// Maximum number of batches (each up to 1024 events) that can be buffered.
/// Beyond this, the oldest batch is evicted — the queue acts as a ring buffer
/// so the most recent data is always preserved.
pub const DEFAULT_CAPACITY: usize = 1024;

/// What one thread's buffer flushed.
#[derive(Debug)]
pub struct Batch {
    pub raw_events: Vec<RawEvent>,
    pub encoded_bytes: Vec<u8>,
    pub event_count: u64,
}

/// The value of a [`Batch`].
#[verifier::ext_equal]
pub struct BatchModel {
    pub raw_events: Seq<RawEvent>,
    pub encoded_bytes: Seq<u8>,
    pub event_count: nat,
}

impl View for Batch {
    type V = BatchModel;

    open spec fn view(&self) -> BatchModel {
        BatchModel {
            raw_events: self.raw_events@,
            encoded_bytes: self.encoded_bytes@,
            event_count: self.event_count as nat,
        }
    }
}

/// The value of each batch of a sequence.
pub open spec fn batch_models(batches: Seq<Batch>) -> Seq<BatchModel> {
    batches.map_values(|b: Batch| b@)
}

/// A bounded queue of an outside crate, seen through the two functions below.
#[verifier::external_type_specification]
#[verifier::external_body]
#[verifier::reject_recursive_types(T)]
pub struct ExArrayQueue<T>(ArrayQueue<T>);

/// The batches that a queue holds, oldest first.
pub uninterp spec fn queue_contents(queue: ArrayQueue<Batch>) -> Seq<Batch>;

/// The capacity that a queue was made with.
pub uninterp spec fn queue_capacity(queue: ArrayQueue<Batch>) -> nat;

/// `ArrayQueue::new` makes an empty queue of the given capacity. It panics on
/// capacity zero, and on one whose slots no allocation can hold.
#[verifier::external_body]
fn queue_new(capacity: usize) -> (queue: ArrayQueue<Batch>)
    requires
        0 < capacity <= usize::MAX / 128,
    ensures
        queue_contents(queue) == Seq::<Batch>::empty(),
        queue_capacity(queue) == capacity,
{
    ArrayQueue::new(capacity)
}

/// `ArrayQueue::force_push` appends the batch. On a full queue it replaces the
/// oldest batch and returns it.
#[verifier::external_body]
fn queue_force_push(queue: &mut ArrayQueue<Batch>, batch: Batch) -> (evicted: Option<Batch>)
    ensures
        queue_capacity(*final(queue)) == queue_capacity(*old(queue)),
        queue_contents(*old(queue)).len() < queue_capacity(*old(queue)) ==> evicted is None
            && queue_contents(*final(queue)) == queue_contents(*old(queue)).push(batch),
        queue_contents(*old(queue)).len() == queue_capacity(*old(queue)) ==> evicted == Some(
            queue_contents(*old(queue))[0],
        ) && queue_contents(*final(queue)) == queue_contents(*old(queue)).drop_first().push(batch),
{
    queue.force_push(batch)
}

/// `ArrayQueue::pop` takes the oldest batch, or returns `None` on an empty
/// queue.
#[verifier::external_body]
fn queue_pop(queue: &mut ArrayQueue<Batch>) -> (batch: Option<Batch>)
    ensures
        queue_capacity(*final(queue)) == queue_capacity(*old(queue)),
        queue_contents(*old(queue)).len() == 0 ==> batch is None && queue_contents(*final(queue))
            == queue_contents(*old(queue)),
        queue_contents(*old(queue)).len() > 0 ==> batch == Some(queue_contents(*old(queue))[0])
            && queue_contents(*final(queue)) == queue_contents(*old(queue)).drop_first(),
{
    queue.pop()
}

/// The value of a [`CentralCollector`].
#[verifier::ext_equal]
pub struct CollectorModel {
    /// The buffered batches, oldest first.
    pub batches: Seq<BatchModel>,
    pub capacity: nat,
    /// How many batches were evicted since the count was last taken; the count
    /// starts over at the end of its range.
    pub dropped: usize,
}

impl CollectorModel {
    pub open spec fn empty(capacity: nat) -> CollectorModel {
        CollectorModel { batches: Seq::empty(), capacity, dropped: 0 }
    }

    pub open spec fn wf(self) -> bool {
        0 < self.capacity && self.batches.len() <= self.capacity
    }

    /// The state once `batch` is accepted: the oldest batch goes if there is
    /// no room.
    pub open spec fn with(self, batch: BatchModel) -> CollectorModel {
        if self.batches.len() < self.capacity {
            CollectorModel { batches: self.batches.push(batch), ..self }
        } else {
            CollectorModel {
                batches: self.batches.drop_first().push(batch),
                dropped: if self.dropped == usize::MAX {
                    0
                } else {
                    (self.dropped + 1) as usize
                },
                ..self
            }
        }
    }

    /// The state once all of `more` are accepted, one after the other.
    pub open spec fn with_all(self, more: Seq<BatchModel>) -> CollectorModel
        decreases more.len(),
    {
        if more.len() == 0 {
            self
        } else {
            self.with_all(more.drop_last()).with(more.last())
        }
    }
}

/// Buffers the batches of all threads until they are written.
pub struct CentralCollector {
    queue: ArrayQueue<Batch>,
    dropped_batches: usize,
}

impl View for CentralCollector {
    type V = CollectorModel;

    closed spec fn view(&self) -> CollectorModel {
        CollectorModel {
            batches: batch_models(queue_contents(self.queue)),
            capacity: queue_capacity(self.queue),
            dropped: self.dropped_batches,
        }
    }
}

impl Default for CentralCollector {
    fn default() -> (c: CentralCollector)
        ensures
            c@ == CollectorModel::empty(DEFAULT_CAPACITY as nat),
    {
        CentralCollector::new()
    }
}

impl CentralCollector {
    /// A collector of the default capacity.
    pub fn new() -> (c: CentralCollector)
        ensures
            c@ == CollectorModel::empty(DEFAULT_CAPACITY as nat),
            c@.wf(),
    {
        CentralCollector::with_capacity(DEFAULT_CAPACITY)
    }

    /// A collector that buffers up to `capacity` batches.
    pub fn with_capacity(capacity: usize) -> (c: CentralCollector)
        requires
            0 < capacity <= usize::MAX / 128,
        ensures
            c@ == CollectorModel::empty(capacity as nat),
            c@.wf(),
    {
        let c = CentralCollector { queue: queue_new(capacity), dropped_batches: 0 };
        assert(c@ =~= CollectorModel::empty(capacity as nat));
        c
    }

    /// Buffers a batch. A full collector evicts its oldest batch and counts it.
    pub fn accept_flush(&mut self, batch: Batch)
        requires
            old(self)@.wf(),
        ensures
            final(self)@.wf(),
            final(self)@ == old(self)@.with(batch@),
    {
        let ghost before = self@;
        let ghost held = queue_contents(self.queue);
        let ghost model = batch@;
        let evicted = queue_force_push(&mut self.queue, batch);
        if evicted.is_some() {
            self.dropped_batches = self.dropped_batches.wrapping_add(1);
        }
        assert(batch_models(held.push(batch)) =~= before.batches.push(model));
        assert(held.len() > 0 ==> batch_models(held.drop_first().push(batch))
            =~= before.batches.drop_first().push(model));
        assert(self@ =~= before.with(model));
    }

    /// Takes the oldest batch.
    pub fn next(&mut self) -> (batch: Option<Batch>)
        requires
            old(self)@.wf(),
        ensures
            final(self)@.wf(),
            old(self)@.batches.len() == 0 ==> batch is None && final(self)@ == old(self)@,
            old(self)@.batches.len() > 0 ==> batch is Some && batch->0@ == old(self)@.batches[0]
                && final(self)@ == (CollectorModel {
                batches: old(self)@.batches.drop_first(),
                ..old(self)@
            }),
    {
        let ghost before = self@;
        let ghost held = queue_contents(self.queue);
        let batch = queue_pop(&mut self.queue);
        assert(held.len() > 0 ==> batch_models(held.drop_first())
            =~= before.batches.drop_first());
        assert(self@ =~= (CollectorModel { batches: self@.batches, ..before }));
        batch
    }

    /// Returns the number of batches dropped since the last call.
    pub fn take_dropped_batches(&mut self) -> (n: usize)
        requires
            old(self)@.wf(),
        ensures
            final(self)@.wf(),
            n == old(self)@.dropped,
            final(self)@ == (CollectorModel { dropped: 0, ..old(self)@ }),
    {
        let ghost before = self@;
        let n = self.dropped_batches;
        self.dropped_batches = 0;
        assert(self@ =~= (CollectorModel { dropped: 0, ..before }));
        n
    }
}

/// The most recent data is always preserved: after any number of batches the
/// collector holds the newest ones, in order, as many as fit, and has counted
/// exactly the ones it lost, as far as the count reaches.
pub proof fn lemma_collector_keeps_newest(m: CollectorModel, more: Seq<BatchModel>)
    requires
        m.wf(),
    ensures
        ({
            let all = m.batches + more;
            let lost: int = if all.len() > m.capacity {
                all.len() - m.capacity
            } else {
                0
            };
            let n = m.with_all(more);
            &&& n.wf()
            &&& n.capacity == m.capacity
            &&& n.batches == all.skip(lost)
            &&& m.dropped + lost <= usize::MAX ==> n.dropped == m.dropped + lost
        }),
    decreases more.len(),
{
    if more.len() == 0 {
        assert(m.batches + more =~= m.batches);
        assert(m.batches.skip(0) =~= m.batches);
    } else {
        let init = more.drop_last();
        lemma_collector_keeps_newest(m, init);
        let all = m.batches + more;
        let some = m.batches + init;
        assert(all =~= some.push(more.last()));
        let p = m.with_all(init);
        if p.batches.len() < m.capacity {
            assert(p.batches.push(more.last()) =~= all);
            assert(all.skip(0) =~= all);
        } else {
            assert(p.batches.drop_first().push(more.last()) =~= all.skip(all.len() - m.capacity));
        }
    }
}

/// A batch that is accepted is the newest one held. On a full collector the
/// oldest goes and is counted as dropped; otherwise none goes.
pub proof fn lemma_accepted_batch_is_newest(m: CollectorModel, batch: BatchModel)
    requires
        m.wf(),
    ensures
        m.with(batch).batches.last() == batch,
        m.with(batch).capacity == m.capacity,
        m.batches.len() < m.capacity ==> m.with(batch).dropped == m.dropped && m.with(
            batch,
        ).batches.drop_last() == m.batches,
        m.batches.len() == m.capacity ==> m.with(batch).batches.drop_last()
            == m.batches.drop_first() && (m.dropped < usize::MAX ==> m.with(batch).dropped
            == m.dropped + 1),
{
    assert(m.with(batch).batches.drop_last() =~= if m.batches.len() < m.capacity {
        m.batches
    } else {
        m.batches.drop_first()
    });
}

/// The value of a batch has each of its fields under the same name, the values of
/// batches are in order, and a new collector holds none.
pub proof fn lemma_value_of_a_batch(batches: Seq<Batch>, i: int, capacity: nat)
    ensures
        batch_models(batches).len() == batches.len(),
        0 <= i < batches.len() ==> batch_models(batches)[i].raw_events == batches[i].raw_events@
            && batch_models(batches)[i].encoded_bytes == batches[i].encoded_bytes@ && batch_models(
            batches,
        )[i].event_count == batches[i].event_count,
        CollectorModel::empty(capacity).batches.len() == 0,
        CollectorModel::empty(capacity).capacity == capacity,
        CollectorModel::empty(capacity).dropped == 0,
        DEFAULT_CAPACITY == 1024,
{
}

/// Several batches are accepted one after the other.
pub proof fn lemma_batches_are_accepted_in_order(
    m: CollectorModel,
    more: Seq<BatchModel>,
    batch: BatchModel,
)
    ensures
        m.with_all(Seq::empty()) == m,
        m.with_all(more.push(batch)) == m.with_all(more).with(batch),
{
    assert(more.push(batch).drop_last() =~= more);
}

} // verus!
