//! Two bounded queues — one for sampled allocations, one for frees.

use crossbeam_queue::ArrayQueue;
use vstd::prelude::*;

verus! {

/// Maximum frames captured per allocation. 128 × 8 B = 1 KiB stack budget.
pub const MAX_FRAMES: usize = 128;

/// Default number of `RawAlloc` slots. ~4 MiB total.
pub const DEFAULT_ALLOC_QUEUE_CAPACITY: usize = 4096;

/// Default number of `RawFree` slots. 8× the alloc queue.
pub const DEFAULT_FREE_QUEUE_CAPACITY: usize = DEFAULT_ALLOC_QUEUE_CAPACITY * 8;

/// One sampled allocation captured on the producer thread.
#[derive(Debug, Clone)]
pub struct RawAlloc {
    pub tid: u32,
    pub size: u64,
    pub addr: u64,
    pub ts_ns: u64,
    pub frames: [u64; MAX_FRAMES],
    pub frame_count: u8,
}

impl RawAlloc {
    /// No more frames are counted than there is room for.
    pub open spec fn wf(self) -> bool {
        self.frame_count <= MAX_FRAMES
    }

    /// The captured frames.
    pub open spec fn spec_frames(self) -> Seq<u64> {
        self.frames@.take(self.frame_count as int)
    }

    /// The captured frames.
    pub fn frames(&self) -> (frames: &[u64])
        requires
            self.wf(),
        ensures
            frames@ == self.spec_frames(),
    {
        let all = vstd::array::array_as_slice(&self.frames);
        assert(all@.subrange(0, self.frame_count as int) =~= self.spec_frames());
        vstd::slice::slice_subrange(all, 0, self.frame_count as usize)
    }
}

/// One free captured on the producer thread when liveset tracking is on.
#[derive(Debug, Clone, Copy, PartialEq, Eq, Structural)]
pub struct RawFree {
    pub tid: u32,
    pub addr: u64,
    pub size: u64,
    pub ts_ns: u64,
}

/// The allocations that a queue holds, oldest first.
pub uninterp spec fn alloc_contents(queue: ArrayQueue<RawAlloc>) -> Seq<RawAlloc>;

/// The capacity that a queue of allocations was made with.
pub uninterp spec fn alloc_capacity(queue: ArrayQueue<RawAlloc>) -> nat;

/// The frees that a queue holds, oldest first.
pub uninterp spec fn free_contents(queue: ArrayQueue<RawFree>) -> Seq<RawFree>;

/// The capacity that a queue of frees was made with.
pub uninterp spec fn free_capacity(queue: ArrayQueue<RawFree>) -> nat;

/// `ArrayQueue::new` makes an empty queue of the given capacity. It panics on
/// capacity zero, and on one whose slots no allocation can hold.
#[verifier::external_body]
fn alloc_queue_new(capacity: usize) -> (queue: ArrayQueue<RawAlloc>)
    requires
        0 < capacity <= usize::MAX / 4096,
    ensures
        alloc_contents(queue) == Seq::<RawAlloc>::empty(),
        alloc_capacity(queue) == capacity,
{
    ArrayQueue::new(capacity)
}

/// `ArrayQueue::push` appends the record, or hands it back if the queue is
/// full.
#[verifier::external_body]
fn alloc_queue_push(queue: &mut ArrayQueue<RawAlloc>, record: RawAlloc) -> (r: Result<(), RawAlloc>)
    ensures
        alloc_capacity(*final(queue)) == alloc_capacity(*old(queue)),
        alloc_contents(*old(queue)).len() < alloc_capacity(*old(queue)) ==> r is Ok
            && alloc_contents(*final(queue)) == alloc_contents(*old(queue)).push(record),
        alloc_contents(*old(queue)).len() >= alloc_capacity(*old(queue)) ==> (r matches Err(back)
            && back == record) && alloc_contents(*final(queue)) == alloc_contents(*old(queue)),
{
    queue.push(record)
}

/// `ArrayQueue::pop` takes the oldest record, or returns `None` on an empty
/// queue.
#[verifier::external_body]
fn alloc_queue_pop(queue: &mut ArrayQueue<RawAlloc>) -> (record: Option<RawAlloc>)
    ensures
        alloc_capacity(*final(queue)) == alloc_capacity(*old(queue)),
        alloc_contents(*old(queue)).len() == 0 ==> record is None && alloc_contents(*final(queue))
            == alloc_contents(*old(queue)),
        alloc_contents(*old(queue)).len() > 0 ==> record == Some(alloc_contents(*old(queue))[0])
            && alloc_contents(*final(queue)) == alloc_contents(*old(queue)).drop_first(),
{
    queue.pop()
}

/// `ArrayQueue::new` makes an empty queue of the given capacity. It panics on
/// capacity zero, and on one whose slots no allocation can hold.
#[verifier::external_body]
fn free_queue_new(capacity: usize) -> (queue: ArrayQueue<RawFree>)
    requires
        0 < capacity <= usize::MAX / 128,
    ensures
        free_contents(queue) == Seq::<RawFree>::empty(),
        free_capacity(queue) == capacity,
{
    ArrayQueue::new(capacity)
}

/// `ArrayQueue::push` appends the record, or hands it back if the queue is
/// full.
#[verifier::external_body]
fn free_queue_push(queue: &mut ArrayQueue<RawFree>, record: RawFree) -> (r: Result<(), RawFree>)
    ensures
        free_capacity(*final(queue)) == free_capacity(*old(queue)),
        free_contents(*old(queue)).len() < free_capacity(*old(queue)) ==> r is Ok && free_contents(
            *final(queue),
        ) == free_contents(*old(queue)).push(record),
        free_contents(*old(queue)).len() >= free_capacity(*old(queue)) ==> (r matches Err(back)
            && back == record) && free_contents(*final(queue)) == free_contents(*old(queue)),
{
    queue.push(record)
}

/// `ArrayQueue::pop` takes the oldest record, or returns `None` on an empty
/// queue.
#[verifier::external_body]
fn free_queue_pop(queue: &mut ArrayQueue<RawFree>) -> (record: Option<RawFree>)
    ensures
        free_capacity(*final(queue)) == free_capacity(*old(queue)),
        free_contents(*old(queue)).len() == 0 ==> record is None && free_contents(*final(queue))
            == free_contents(*old(queue)),
        free_contents(*old(queue)).len() > 0 ==> record == Some(free_contents(*old(queue))[0])
            && free_contents(*final(queue)) == free_contents(*old(queue)).drop_first(),
{
    queue.pop()
}

/// The pair of queues, with counts of the records that found them full.
#[derive(Debug)]
pub struct RingBuffers {
    alloc_queue: ArrayQueue<RawAlloc>,
    free_queue: ArrayQueue<RawFree>,
    dropped_allocs: u64,
    dropped_frees: u64,
}

/// The value of [`RingBuffers`].
#[verifier::ext_equal]
pub struct RingModel {
    pub allocs: Seq<RawAlloc>,
    pub alloc_capacity: nat,
    pub frees: Seq<RawFree>,
    pub free_capacity: nat,
    /// How many records found a queue full; the counts start over at the end of
    /// their range.
    pub dropped_allocs: u64,
    pub dropped_frees: u64,
}

impl View for RingBuffers {
    type V = RingModel;

    closed spec fn view(&self) -> RingModel {
        RingModel {
            allocs: alloc_contents(self.alloc_queue),
            alloc_capacity: alloc_capacity(self.alloc_queue),
            frees: free_contents(self.free_queue),
            free_capacity: free_capacity(self.free_queue),
            dropped_allocs: self.dropped_allocs,
            dropped_frees: self.dropped_frees,
        }
    }
}

impl RingModel {
    /// No more frames are counted than there is room for.
    pub open spec fn wf(self) -> bool {
        forall|i: int| 0 <= i < self.allocs.len() ==> (#[trigger] self.allocs[i]).wf()
    }
}

/// One more, starting over at the end of the range.
pub open spec fn counted(n: u64) -> u64 {
    if n == u64::MAX {
        0
    } else {
        (n + 1) as u64
    }
}

impl RingBuffers {
    pub fn new(alloc_capacity: usize, free_capacity: usize) -> (r: RingBuffers)
        requires
            0 < alloc_capacity <= usize::MAX / 4096,
            0 < free_capacity <= usize::MAX / 128,
        ensures
            r@ == (RingModel {
                allocs: Seq::empty(),
                alloc_capacity: alloc_capacity as nat,
                frees: Seq::empty(),
                free_capacity: free_capacity as nat,
                dropped_allocs: 0,
                dropped_frees: 0,
            }),
            r@.wf(),
    {
        RingBuffers {
            alloc_queue: alloc_queue_new(alloc_capacity),
            free_queue: free_queue_new(free_capacity),
            dropped_allocs: 0,
            dropped_frees: 0,
        }
    }

    /// Push a sampled allocation. One that finds the queue full is dropped and
    /// counted.
    pub fn push_alloc(&mut self, record: RawAlloc)
        requires
            old(self)@.wf(),
            record.wf(),
        ensures
            final(self)@.wf(),
            final(self)@ == (if old(self)@.allocs.len() < old(self)@.alloc_capacity {
                RingModel { allocs: old(self)@.allocs.push(record), ..old(self)@ }
            } else {
                RingModel { dropped_allocs: counted(old(self)@.dropped_allocs), ..old(self)@ }
            }),
    {
        if alloc_queue_push(&mut self.alloc_queue, record).is_err() {
            self.dropped_allocs = self.dropped_allocs.wrapping_add(1);
        }
    }

    /// Push a free. One that finds the queue full is dropped and counted.
    pub fn push_free(&mut self, record: RawFree)
        requires
            old(self)@.wf(),
        ensures
            final(self)@.wf(),
            final(self)@ == (if old(self)@.frees.len() < old(self)@.free_capacity {
                RingModel { frees: old(self)@.frees.push(record), ..old(self)@ }
            } else {
                RingModel { dropped_frees: counted(old(self)@.dropped_frees), ..old(self)@ }
            }),
    {
        let ghost before = self@;
        if free_queue_push(&mut self.free_queue, record).is_err() {
            self.dropped_frees = self.dropped_frees.wrapping_add(1);
        }
        assert(self@.allocs == before.allocs);
    }

    /// Take the oldest sampled allocation.
    pub fn pop_alloc(&mut self) -> (record: Option<RawAlloc>)
        requires
            old(self)@.wf(),
        ensures
            final(self)@.wf(),
            match record {
                Some(record) => old(self)@.allocs.len() > 0 && record == old(self)@.allocs[0]
                    && record.wf() && final(self)@ == (RingModel {
                    allocs: old(self)@.allocs.drop_first(),
                    ..old(self)@
                }),
                None => old(self)@.allocs.len() == 0 && final(self)@ == old(self)@,
            },
    {
        let ghost before = self@;
        let record = alloc_queue_pop(&mut self.alloc_queue);
        proof {
            if before.allocs.len() > 0 {
                assert(before.allocs[0].wf());
            }
        }
        record
    }

    /// Take the oldest free.
    pub fn pop_free(&mut self) -> (record: Option<RawFree>)
        requires
            old(self)@.wf(),
        ensures
            final(self)@.wf(),
            match record {
                Some(record) => old(self)@.frees.len() > 0 && record == old(self)@.frees[0]
                    && final(self)@ == (RingModel {
                    frees: old(self)@.frees.drop_first(),
                    ..old(self)@
                }),
                None => old(self)@.frees.len() == 0 && final(self)@ == old(self)@,
            },
    {
        free_queue_pop(&mut self.free_queue)
    }

    /// How many allocations were dropped.
    pub fn dropped_allocs(&self) -> (n: u64)
        ensures
            n == self@.dropped_allocs,
    {
        self.dropped_allocs
    }

    /// How many frees were dropped.
    pub fn dropped_frees(&self) -> (n: u64)
        ensures
            n == self@.dropped_frees,
    {
        self.dropped_frees
    }
}

/// The frames of an allocation are the first ones of its array, as many as were
/// counted.
pub proof fn lemma_counted_frames_are_captured(a: RawAlloc, i: int)
    requires
        a.wf(),
        0 <= i < a.frame_count,
    ensures
        a.spec_frames().len() == a.frame_count,
        a.spec_frames()[i] == a.frames@[i],
        MAX_FRAMES == 128,
        DEFAULT_ALLOC_QUEUE_CAPACITY == 4096,
        DEFAULT_FREE_QUEUE_CAPACITY == 32768,
{
}

/// A count goes up by one, and starts over only at the end of its range.
pub proof fn lemma_counting_goes_up(n: u64)
    ensures
        n < u64::MAX ==> counted(n) == n + 1,
        n == u64::MAX ==> counted(n) == 0,
{
}

} // verus!
