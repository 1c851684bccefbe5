//! Drains the alloc and free queues each flush cycle.

use crate::memory_profiling::ring::{RawAlloc, RawFree, RingBuffers, RingModel};
use std::collections::HashMap;
use vstd::prelude::*;

verus! {

broadcast use vstd::std_specs::hash::group_hash_axioms;

/// An allocation that has not been freed.
#[derive(Debug, Clone, Copy, PartialEq, Eq, Structural)]
pub struct LivesetEntry {
    pub size: u64,
    pub timestamp_ns: u64,
}

/// An event of the memory profile.
#[derive(Debug)]
pub enum MemoryEvent {
    Alloc { timestamp_nanos: u64, tid: u32, size: u64, addr: u64, callchain: Vec<u64> },
    Free { timestamp_nanos: u64, tid: u32, addr: u64, size: u64, alloc_timestamp_nanos: u64 },
}

/// The value of a [`MemoryEvent`].
#[verifier::ext_equal]
pub enum MemoryModel {
    Alloc { timestamp_nanos: u64, tid: u32, size: u64, addr: u64, callchain: Seq<u64> },
    Free { timestamp_nanos: u64, tid: u32, addr: u64, size: u64, alloc_timestamp_nanos: u64 },
}

impl View for MemoryEvent {
    type V = MemoryModel;

    open spec fn view(&self) -> MemoryModel {
        match *self {
            MemoryEvent::Alloc { timestamp_nanos, tid, size, addr, callchain } => {
                MemoryModel::Alloc { timestamp_nanos, tid, size, addr, callchain: callchain@ }
            },
            MemoryEvent::Free { timestamp_nanos, tid, addr, size, alloc_timestamp_nanos } => {
                MemoryModel::Free { timestamp_nanos, tid, addr, size, alloc_timestamp_nanos }
            },
        }
    }
}

/// The value of each event of a sequence.
pub open spec fn memory_models(events: Seq<MemoryEvent>) -> Seq<MemoryModel> {
    events.map_values(|e: MemoryEvent| e@)
}

/// The event of a sampled allocation.
pub open spec fn alloc_event(a: RawAlloc) -> MemoryModel {
    MemoryModel::Alloc {
        timestamp_nanos: a.ts_ns,
        tid: a.tid,
        size: a.size,
        addr: a.addr,
        callchain: a.spec_frames(),
    }
}

/// The event of a free, with what the liveset knows of the allocation.
pub open spec fn free_event(f: RawFree, entry: LivesetEntry) -> MemoryModel {
    MemoryModel::Free {
        timestamp_nanos: f.ts_ns,
        tid: f.tid,
        addr: f.addr,
        size: entry.size,
        alloc_timestamp_nanos: entry.timestamp_ns,
    }
}

/// The liveset, `None` if it is not tracked.
pub type Liveset = Option<Map<u64, LivesetEntry>>;

/// The liveset after an allocation: it replaces what was known of its address.
pub open spec fn with_alloc(live: Liveset, a: RawAlloc) -> Liveset {
    match live {
        Some(live) => Some(
            live.insert(a.addr, LivesetEntry { size: a.size, timestamp_ns: a.ts_ns }),
        ),
        None => None,
    }
}

/// The liveset after a free.
pub open spec fn with_free(live: Liveset, f: RawFree) -> Liveset {
    match live {
        Some(live) => Some(live.remove(f.addr)),
        None => None,
    }
}

/// What a free emits: nothing unless its allocation is known.
pub open spec fn free_emits(live: Liveset, f: RawFree) -> Seq<MemoryModel> {
    match live {
        Some(live) => if live.contains_key(f.addr) {
            seq![free_event(f, live[f.addr])]
        } else {
            Seq::empty()
        },
        None => Seq::empty(),
    }
}

/// The liveset after allocations.
pub open spec fn with_allocs(live: Liveset, allocs: Seq<RawAlloc>) -> Liveset
    decreases allocs.len(),
{
    if allocs.len() == 0 {
        live
    } else {
        with_alloc(with_allocs(live, allocs.drop_last()), allocs.last())
    }
}

/// What allocations emit.
pub open spec fn allocs_emit(allocs: Seq<RawAlloc>) -> Seq<MemoryModel> {
    allocs.map_values(|a: RawAlloc| alloc_event(a))
}

/// The liveset after frees.
pub open spec fn with_frees(live: Liveset, frees: Seq<RawFree>) -> Liveset
    decreases frees.len(),
{
    if frees.len() == 0 {
        live
    } else {
        with_free(with_frees(live, frees.drop_last()), frees.last())
    }
}

/// What frees emit.
pub open spec fn frees_emit(live: Liveset, frees: Seq<RawFree>) -> Seq<MemoryModel>
    decreases frees.len(),
{
    if frees.len() == 0 {
        Seq::empty()
    } else {
        frees_emit(live, frees.drop_last()) + free_emits(
            with_frees(live, frees.drop_last()),
            frees.last(),
        )
    }
}

/// Drains the alloc and free queues into the trace each flush cycle.
#[derive(Debug)]
pub struct MemoryProfileSource {
    rings: RingBuffers,
    liveset: Option<HashMap<u64, LivesetEntry>>,
}

impl MemoryProfileSource {
    /// The queues.
    pub closed spec fn ring(self) -> RingModel {
        self.rings@
    }

    /// The allocations that have not been freed, if they are tracked.
    pub closed spec fn live(self) -> Liveset {
        match self.liveset {
            Some(live) => Some(live@),
            None => None,
        }
    }

    /// What is queued is well-formed.
    pub open spec fn wf(self) -> bool {
        self.ring().wf()
    }

    pub fn new(rings: RingBuffers, track_liveset: bool) -> (s: MemoryProfileSource)
        requires
            rings@.wf(),
        ensures
            s.wf(),
            s.ring() == rings@,
            s.live() == (if track_liveset {
                Some(Map::<u64, LivesetEntry>::empty())
            } else {
                None
            }),
    {
        MemoryProfileSource {
            rings,
            liveset: if track_liveset {
                Some(HashMap::new())
            } else {
                None
            },
        }
    }

    /// How many allocations and frees were dropped.
    pub fn dropped(&self) -> (d: (u64, u64))
        ensures
            d == (self.ring().dropped_allocs, self.ring().dropped_frees),
    {
        (self.rings.dropped_allocs(), self.rings.dropped_frees())
    }

    /// Push a sampled allocation.
    pub fn push_alloc(&mut self, record: RawAlloc)
        requires
            old(self).wf(),
            record.wf(),
        ensures
            final(self).wf(),
            final(self).live() == old(self).live(),
            final(self).ring() == (if old(self).ring().allocs.len() < old(
                self,
            ).ring().alloc_capacity {
                RingModel { allocs: old(self).ring().allocs.push(record), ..old(self).ring() }
            } else {
                RingModel {
                    dropped_allocs: crate::memory_profiling::ring::counted(
                        old(self).ring().dropped_allocs,
                    ),
                    ..old(self).ring()
                }
            }),
    {
        self.rings.push_alloc(record);
    }

    /// Push a free.
    pub fn push_free(&mut self, record: RawFree)
        requires
            old(self).wf(),
        ensures
            final(self).wf(),
            final(self).live() == old(self).live(),
            final(self).ring() == (if old(self).ring().frees.len() < old(
                self,
            ).ring().free_capacity {
                RingModel { frees: old(self).ring().frees.push(record), ..old(self).ring() }
            } else {
                RingModel {
                    dropped_frees: crate::memory_profiling::ring::counted(
                        old(self).ring().dropped_frees,
                    ),
                    ..old(self).ring()
                }
            }),
    {
        self.rings.push_free(record);
    }

    fn handle_alloc(&mut self, a: &RawAlloc) -> (event: MemoryEvent)
        requires
            a.wf(),
        ensures
            event@ == alloc_event(*a),
            final(self).live() == with_alloc(old(self).live(), *a),
            final(self).ring() == old(self).ring(),
    {
        let frames = a.frames();
        let mut callchain: Vec<u64> = Vec::new();
        callchain.extend_from_slice(frames);
        assert(callchain@ =~= a.spec_frames());
        let mut liveset: Option<HashMap<u64, LivesetEntry>> = None;
        std::mem::swap(&mut liveset, &mut self.liveset);
        match liveset {
            Some(live) => {
                let mut live = live;
                live.insert(a.addr, LivesetEntry { size: a.size, timestamp_ns: a.ts_ns });
                self.liveset = Some(live);
            },
            None => {},
        }
        MemoryEvent::Alloc {
            timestamp_nanos: a.ts_ns,
            tid: a.tid,
            size: a.size,
            addr: a.addr,
            callchain,
        }
    }

    fn handle_free(&mut self, f: RawFree) -> (event: Option<MemoryEvent>)
        ensures
            match event {
                Some(event) => free_emits(old(self).live(), f) == seq![event@],
                None => free_emits(old(self).live(), f) == Seq::<MemoryModel>::empty(),
            },
            final(self).live() == with_free(old(self).live(), f),
            final(self).ring() == old(self).ring(),
    {
        let mut liveset: Option<HashMap<u64, LivesetEntry>> = None;
        std::mem::swap(&mut liveset, &mut self.liveset);
        match liveset {
            Some(live) => {
                let mut live = live;
                let entry = live.remove(&f.addr);
                self.liveset = Some(live);
                assert(self.live()->Some_0 =~= old(self).live()->Some_0.remove(f.addr));
                match entry {
                    Some(entry) => Some(
                        MemoryEvent::Free {
                            timestamp_nanos: f.ts_ns,
                            tid: f.tid,
                            addr: f.addr,
                            size: entry.size,
                            alloc_timestamp_nanos: entry.timestamp_ns,
                        },
                    ),
                    None => None,
                }
            },
            None => None,
        }
    }

    /// Drain both queues: first the allocations, then the frees. A free is
    /// emitted only where its allocation is known.
    pub fn flush(&mut self) -> (events: Vec<MemoryEvent>)
        requires
            old(self).wf(),
        ensures
            final(self).wf(),
            final(self).ring() == (RingModel {
                allocs: Seq::empty(),
                frees: Seq::empty(),
                ..old(self).ring()
            }),
            final(self).live() == with_frees(
                with_allocs(old(self).live(), old(self).ring().allocs),
                old(self).ring().frees,
            ),
            memory_models(events@) == allocs_emit(old(self).ring().allocs) + frees_emit(
                with_allocs(old(self).live(), old(self).ring().allocs),
                old(self).ring().frees,
            ),
    {
        let ghost start = self.ring();
        let ghost allocs = start.allocs;
        let ghost frees = start.frees;
        let ghost live0 = self.live();
        let mut events: Vec<MemoryEvent> = Vec::new();
        let ghost mut done: int = 0;
        assert(allocs.skip(0) =~= allocs);
        assert(allocs.take(0) =~= Seq::empty());
        assert(memory_models(events@) =~= allocs_emit(allocs.take(0)));
        loop
            invariant
                self.wf(),
                0 <= done <= allocs.len(),
                self.ring() == (RingModel { allocs: allocs.skip(done), ..start }),
                self.live() == with_allocs(live0, allocs.take(done)),
                memory_models(events@) == allocs_emit(allocs.take(done)),
            ensures
                done == allocs.len(),
            decreases allocs.len() - done,
        {
            match self.rings.pop_alloc() {
                Some(a) => {
                    let ghost sofar = memory_models(events@);
                    let event = self.handle_alloc(&a);
                    let ghost model = event@;
                    events.push(event);
                    proof {
                        let next = allocs.take(done + 1);
                        assert(a == allocs[done]);
                        assert(next.drop_last() =~= allocs.take(done));
                        assert(allocs.skip(done).drop_first() =~= allocs.skip(done + 1));
                        assert(memory_models(events@) =~= sofar.push(model));
                        assert(memory_models(events@) =~= allocs_emit(next));
                        done = done + 1;
                    }
                },
                None => {
                    break;
                },
            }
        }
        assert(allocs.take(done) =~= allocs);
        assert(allocs.skip(done) =~= Seq::empty());
        let ghost live1 = self.live();
        let ghost first = memory_models(events@);
        let ghost drained = self.ring();
        let ghost mut gone: int = 0;
        assert(frees.skip(0) =~= frees);
        assert(frees.take(0) =~= Seq::empty());
        assert(memory_models(events@) =~= first + frees_emit(live1, frees.take(0)));
        loop
            invariant
                self.wf(),
                0 <= gone <= frees.len(),
                self.ring() == (RingModel { frees: frees.skip(gone), ..drained }),
                self.live() == with_frees(live1, frees.take(gone)),
                memory_models(events@) == first + frees_emit(live1, frees.take(gone)),
            ensures
                gone == frees.len(),
            decreases frees.len() - gone,
        {
            match self.rings.pop_free() {
                Some(f) => {
                    let ghost sofar = memory_models(events@);
                    let ghost live = self.live();
                    let ghost next = frees.take(gone + 1);
                    assert(next.drop_last() =~= frees.take(gone));
                    assert(next.last() == f);
                    assert(frees.skip(gone).drop_first() =~= frees.skip(gone + 1));
                    if let Some(event) = self.handle_free(f) {
                        let ghost model = event@;
                        events.push(event);
                        assert(memory_models(events@) =~= sofar.push(model));
                    }
                    assert(memory_models(events@) =~= first + frees_emit(live1, next));
                    proof {
                        gone = gone + 1;
                    }
                },
                None => {
                    break;
                },
            }
        }
        assert(frees.take(gone) =~= frees);
        assert(frees.skip(gone) =~= Seq::empty());
        events
    }

    /// The name of this source.
    pub fn name(&self) -> (s: &'static str)
        ensures
            s@ == "memory"@,
    {
        "memory"
    }
}

/// Without a liveset no free is emitted.
pub proof fn lemma_no_liveset_no_frees(frees: Seq<RawFree>)
    ensures
        frees_emit(None, frees) == Seq::<MemoryModel>::empty(),
        with_frees(None, frees) is None,
    decreases frees.len(),
{
    if frees.len() > 0 {
        lemma_no_liveset_no_frees(frees.drop_last());
        assert(frees_emit(None, frees) =~= Seq::<MemoryModel>::empty());
    }
}

/// A free of a tracked allocation is emitted with the size and the time of that
/// allocation, if neither was another allocation made at its address nor a free
/// of it seen in between; and then it is known no more.
pub proof fn lemma_free_matches_its_alloc(
    live: Map<u64, LivesetEntry>,
    a: RawAlloc,
    later: Seq<RawAlloc>,
    earlier_frees: Seq<RawFree>,
    f: RawFree,
)
    requires
        f.addr == a.addr,
        forall|i: int| 0 <= i < later.len() ==> (#[trigger] later[i]).addr != a.addr,
        forall|i: int| 0 <= i < earlier_frees.len() ==> (#[trigger] earlier_frees[i]).addr != a.addr,
    ensures
        ({
            let known = with_frees(
                with_allocs(with_alloc(Some(live), a), later),
                earlier_frees,
            );
            &&& free_emits(known, f) == seq![
                free_event(f, LivesetEntry { size: a.size, timestamp_ns: a.ts_ns }),
            ]
            &&& free_emits(with_free(known, f), f) == Seq::<MemoryModel>::empty()
        }),
{
    let tracked_by = with_alloc(Some(live), a);
    lemma_other_allocs_keep(tracked_by, later, a.addr);
    lemma_other_frees_keep(with_allocs(tracked_by, later), earlier_frees, a.addr);
}

proof fn lemma_other_allocs_keep(live: Liveset, allocs: Seq<RawAlloc>, addr: u64)
    requires
        live is Some,
        live->Some_0.contains_key(addr),
        forall|i: int| 0 <= i < allocs.len() ==> (#[trigger] allocs[i]).addr != addr,
    ensures
        with_allocs(live, allocs) matches Some(after) && after.contains_key(addr) && after[addr]
            == live->Some_0[addr],
    decreases allocs.len(),
{
    if allocs.len() > 0 {
        assert(allocs.last().addr != addr);
        assert forall|i: int| 0 <= i < allocs.drop_last().len() implies (
        #[trigger] allocs.drop_last()[i]).addr != addr by {
            assert(allocs[i].addr != addr);
        }
        lemma_other_allocs_keep(live, allocs.drop_last(), addr);
    }
}

proof fn lemma_other_frees_keep(live: Liveset, frees: Seq<RawFree>, addr: u64)
    requires
        live is Some,
        live->Some_0.contains_key(addr),
        forall|i: int| 0 <= i < frees.len() ==> (#[trigger] frees[i]).addr != addr,
    ensures
        with_frees(live, frees) matches Some(after) && after.contains_key(addr) && after[addr]
            == live->Some_0[addr],
    decreases frees.len(),
{
    if frees.len() > 0 {
        assert(frees.last().addr != addr);
        assert forall|i: int| 0 <= i < frees.drop_last().len() implies (
        #[trigger] frees.drop_last()[i]).addr != addr by {
            assert(frees[i].addr != addr);
        }
        lemma_other_frees_keep(live, frees.drop_last(), addr);
    }
}

/// An allocation is emitted as it was sampled, each field under its own name,
/// with the frames that were captured. A free is emitted with its own time,
/// thread and address, and with the size and the time of its allocation.
pub proof fn lemma_memory_events_have_every_field(a: RawAlloc, f: RawFree, entry: LivesetEntry)
    ensures
        alloc_event(a) matches MemoryModel::Alloc { timestamp_nanos, tid, size, addr, callchain }
            && timestamp_nanos == a.ts_ns && tid == a.tid && size == a.size && addr == a.addr
            && callchain == a.frames@.take(a.frame_count as int),
        free_event(f, entry) matches MemoryModel::Free {
            timestamp_nanos,
            tid,
            addr,
            size,
            alloc_timestamp_nanos,
        } && timestamp_nanos == f.ts_ns && tid == f.tid && addr == f.addr && size == entry.size
            && alloc_timestamp_nanos == entry.timestamp_ns,
{
}

/// An allocation is live from then on, under its address and with its size and
/// time, in place of what was there; a free ends that. No other address is
/// touched, and nothing is tracked where nothing was.
pub proof fn lemma_liveset_follows_allocations_and_frees(
    live: Map<u64, LivesetEntry>,
    a: RawAlloc,
    f: RawFree,
    other: u64,
)
    ensures
        with_alloc(Some(live), a) matches Some(m) && m.contains_key(a.addr) && m[a.addr].size
            == a.size && m[a.addr].timestamp_ns == a.ts_ns && (other != a.addr ==> (
        m.contains_key(other) <==> live.contains_key(other)) && m[other] == live[other]),
        with_free(Some(live), f) matches Some(m) && !m.contains_key(f.addr) && (other != f.addr
            ==> (m.contains_key(other) <==> live.contains_key(other)) && (live.contains_key(other)
            ==> m[other] == live[other])),
        with_alloc(None, a) is None,
        with_free(None, f) is None,
        live.contains_key(f.addr) ==> free_emits(Some(live), f) == seq![
            free_event(f, live[f.addr]),
        ],
        !live.contains_key(f.addr) ==> free_emits(Some(live), f).len() == 0,
        free_emits(None, f).len() == 0,
{
}

/// Allocations and frees are taken one by one, in the order of their queue.
pub proof fn lemma_queues_are_drained_in_order(
    live: Liveset,
    allocs: Seq<RawAlloc>,
    a: RawAlloc,
    frees: Seq<RawFree>,
    f: RawFree,
)
    ensures
        with_allocs(live, Seq::empty()) == live,
        with_allocs(live, allocs.push(a)) == with_alloc(with_allocs(live, allocs), a),
        allocs_emit(Seq::empty()) == Seq::<MemoryModel>::empty(),
        allocs_emit(allocs.push(a)) == allocs_emit(allocs).push(alloc_event(a)),
        with_frees(live, Seq::empty()) == live,
        with_frees(live, frees.push(f)) == with_free(with_frees(live, frees), f),
        frees_emit(live, Seq::empty()) == Seq::<MemoryModel>::empty(),
        frees_emit(live, frees.push(f)) == frees_emit(live, frees) + free_emits(
            with_frees(live, frees),
            f,
        ),
{
    assert(allocs.push(a).drop_last() =~= allocs);
    assert(frees.push(f).drop_last() =~= frees);
    assert(allocs_emit(Seq::empty()) =~= Seq::<MemoryModel>::empty());
    assert(allocs_emit(allocs.push(a)) =~= allocs_emit(allocs).push(alloc_event(a)));
}

/// The value of an event has each of its fields under the same name, and the
/// values of events are in order.
pub proof fn lemma_value_of_a_memory_event(events: Seq<MemoryEvent>, i: int)
    requires
        0 <= i < events.len(),
    ensures
        memory_models(events).len() == events.len(),
        match (events[i], memory_models(events)[i]) {
            (
                MemoryEvent::Alloc { timestamp_nanos, tid, size, addr, callchain },
                MemoryModel::Alloc {
                    timestamp_nanos: t,
                    tid: i,
                    size: s,
                    addr: a,
                    callchain: c,
                },
            ) => t == timestamp_nanos && i == tid && s == size && a == addr && c == callchain@,
            (
                MemoryEvent::Free { timestamp_nanos, tid, addr, size, alloc_timestamp_nanos },
                MemoryModel::Free {
                    timestamp_nanos: t,
                    tid: i,
                    addr: a,
                    size: s,
                    alloc_timestamp_nanos: at,
                },
            ) => t == timestamp_nanos && i == tid && a == addr && s == size && at
                == alloc_timestamp_nanos,
            _ => false,
        },
{
}

} // verus!
