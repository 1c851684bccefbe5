//! What a thread remembers about itself between hooks, and the events that the
//! hooks make.

use crate::telemetry::events::{RawEvent, SpawnLocation};
use crate::telemetry::format::{WorkerId, UNKNOWN_WORKER};
use crate::telemetry::task_metadata::TaskId;
use vstd::prelude::*;

verus! {

/// The first worker whose thread is `tid`.
pub open spec fn worker_with_thread(threads: Seq<Option<u64>>, tid: u64) -> Option<usize>
    decreases threads.len(),
{
    if threads.len() == 0 {
        None
    } else {
        match worker_with_thread(threads.drop_last(), tid) {
            Some(i) => Some(i),
            None => if threads.last() == Some(tid) {
                Some((threads.len() - 1) as usize)
            } else {
                None
            },
        }
    }
}

/// Per-thread memory.
pub struct WorkerThread {
    /// The worker index of this thread, once it is known. A thread won't
    /// become a different worker, though it may stop being a worker entirely.
    pub worker_id: Option<usize>,
    /// Set once a full scan has shown that this thread is no worker.
    pub not_a_worker: bool,
    /// Whether this thread's tid → worker mapping has been registered.
    pub tid_emitted: bool,
    /// Scheduler wait time captured at park time.
    pub parked_sched_wait: u64,
}

/// What [`WorkerThread::resolve_worker_id`] found.
pub struct ResolvedWorker {
    pub worker_id: Option<usize>,
    /// The worker whose tid → worker mapping is to be registered now.
    pub register: Option<usize>,
}

impl WorkerThread {
    /// A thread of which nothing is known.
    pub fn new() -> (t: WorkerThread)
        ensures
            t == (WorkerThread {
                worker_id: None,
                not_a_worker: false,
                tid_emitted: false,
                parked_sched_wait: 0,
            }),
    {
        WorkerThread {
            worker_id: None,
            not_a_worker: false,
            tid_emitted: false,
            parked_sched_wait: 0,
        }
    }

    /// Resolve this thread's worker index and remember it.
    ///
    /// `tid` is the thread's id and `worker_threads` the thread of each worker,
    /// where the runtime has told them. The answer is kept for good, the
    /// negative one too once the runtime's workers are known. With `register`,
    /// the first positive answer asks for the tid → worker mapping to be
    /// registered.
    pub fn resolve_worker_id(
        &mut self,
        tid: u64,
        worker_threads: &Option<Vec<Option<u64>>>,
        register: bool,
    ) -> (found: ResolvedWorker)
        ensures
            final(self).parked_sched_wait == old(self).parked_sched_wait,
            old(self).worker_id is Some || old(self).not_a_worker || *worker_threads is None ==> {
                &&& *final(self) == *old(self)
                &&& found.worker_id == old(self).worker_id
                &&& found.register is None
            },
            old(self).worker_id is None && !old(self).not_a_worker ==> (*worker_threads matches
                Some(threads) ==> {
                let worker = worker_with_thread(threads@, tid);
                &&& found.worker_id == worker
                &&& final(self).worker_id == worker
                &&& final(self).not_a_worker == (worker is None)
                &&& found.register == (if register && !old(self).tid_emitted {
                    worker
                } else {
                    None
                })
                &&& final(self).tid_emitted == (old(self).tid_emitted || found.register is Some)
            }),
    {
        if self.worker_id.is_some() {
            return ResolvedWorker { worker_id: self.worker_id, register: None };
        }
        if self.not_a_worker {
            return ResolvedWorker { worker_id: None, register: None };
        }
        match worker_threads {
            Some(threads) => {
                match find_worker(threads, tid) {
                    Some(i) => {
                        self.worker_id = Some(i);
                        if register && !self.tid_emitted {
                            self.tid_emitted = true;
                            ResolvedWorker { worker_id: Some(i), register: Some(i) }
                        } else {
                            ResolvedWorker { worker_id: Some(i), register: None }
                        }
                    },
                    None => {
                        self.not_a_worker = true;
                        ResolvedWorker { worker_id: None, register: None }
                    },
                }
            },
            None => ResolvedWorker { worker_id: None, register: None },
        }
    }

    /// The event of a worker that parks. `wait_time_ns` is the scheduler wait
    /// time, where it can be read; it is remembered for the unpark.
    pub fn make_worker_park(
        &mut self,
        now_nanos: u64,
        worker_id: Option<usize>,
        queue_depth: Option<usize>,
        cpu_time_nanos: u64,
        wait_time_ns: Option<u64>,
    ) -> (event: RawEvent)
        ensures
            event == (RawEvent::WorkerPark {
                timestamp_nanos: now_nanos,
                worker_id: worker_or_unknown(worker_id),
                worker_local_queue_depth: depth_or_zero(worker_id, queue_depth),
                cpu_time_nanos,
            }),
            *final(self) == (WorkerThread {
                parked_sched_wait: match wait_time_ns {
                    Some(w) => w,
                    None => old(self).parked_sched_wait,
                },
                ..*old(self)
            }),
    {
        if let Some(w) = wait_time_ns {
            self.parked_sched_wait = w;
        }
        RawEvent::WorkerPark {
            timestamp_nanos: now_nanos,
            worker_id: known_worker(worker_id),
            worker_local_queue_depth: known_depth(worker_id, queue_depth),
            cpu_time_nanos,
        }
    }

    /// The event of a worker that unparks. The scheduler delay is what the
    /// wait time grew by since the park, 0 where it cannot be read.
    pub fn make_worker_unpark(
        &self,
        now_nanos: u64,
        worker_id: Option<usize>,
        queue_depth: Option<usize>,
        cpu_time_nanos: u64,
        wait_time_ns: Option<u64>,
    ) -> (event: RawEvent)
        ensures
            event == (RawEvent::WorkerUnpark {
                timestamp_nanos: now_nanos,
                worker_id: worker_or_unknown(worker_id),
                worker_local_queue_depth: depth_or_zero(worker_id, queue_depth),
                cpu_time_nanos,
                sched_wait_delta_nanos: match wait_time_ns {
                    Some(w) => if w > self.parked_sched_wait {
                        (w - self.parked_sched_wait) as u64
                    } else {
                        0
                    },
                    None => 0,
                },
            }),
    {
        let sched_wait_delta_nanos: u64 = match wait_time_ns {
            Some(w) => w.saturating_sub(self.parked_sched_wait),
            None => 0,
        };
        RawEvent::WorkerUnpark {
            timestamp_nanos: now_nanos,
            worker_id: known_worker(worker_id),
            worker_local_queue_depth: known_depth(worker_id, queue_depth),
            cpu_time_nanos,
            sched_wait_delta_nanos,
        }
    }
}

fn find_worker(threads: &Vec<Option<u64>>, tid: u64) -> (worker: Option<usize>)
    ensures
        worker == worker_with_thread(threads@, tid),
{
    let mut i: usize = 0;
    while i < threads.len()
        invariant
            i <= threads@.len(),
            worker_with_thread(threads@.take(i as int), tid) is None,
        decreases threads@.len() - i,
    {
        let ghost next = threads@.take(i + 1);
        assert(next.drop_last() =~= threads@.take(i as int));
        if let Some(t) = threads[i] {
            if t == tid {
                proof {
                    lemma_worker_found(threads@, tid, i as int + 1);
                }
                return Some(i);
            }
        }
        i = i + 1;
    }
    assert(threads@.take(i as int) =~= threads@);
    None
}

proof fn lemma_worker_found(threads: Seq<Option<u64>>, tid: u64, n: int)
    requires
        0 <= n <= threads.len(),
        worker_with_thread(threads.take(n), tid) is Some,
    ensures
        worker_with_thread(threads, tid) == worker_with_thread(threads.take(n), tid),
    decreases threads.len() - n,
{
    if n < threads.len() {
        assert(threads.take(n + 1).drop_last() =~= threads.take(n));
        lemma_worker_found(threads, tid, n + 1);
    } else {
        assert(threads.take(n) =~= threads);
    }
}

/// The worker id of an event: unknown unless the thread is a worker.
pub open spec fn worker_or_unknown(worker_id: Option<usize>) -> WorkerId {
    match worker_id {
        Some(i) => WorkerId(i as u64),
        None => WorkerId(UNKNOWN_WORKER),
    }
}

/// The queue depth of an event: 0 unless the thread is a worker and its depth
/// is known.
pub open spec fn depth_or_zero(worker_id: Option<usize>, queue_depth: Option<usize>) -> usize {
    if worker_id is Some {
        match queue_depth {
            Some(d) => d,
            None => 0,
        }
    } else {
        0
    }
}

fn known_worker(worker_id: Option<usize>) -> (id: WorkerId)
    ensures
        id == worker_or_unknown(worker_id),
{
    match worker_id {
        Some(i) => WorkerId(i as u64),
        None => WorkerId(UNKNOWN_WORKER),
    }
}

fn known_depth(worker_id: Option<usize>, queue_depth: Option<usize>) -> (depth: usize)
    ensures
        depth == depth_or_zero(worker_id, queue_depth),
{
    if worker_id.is_some() {
        match queue_depth {
            Some(d) => d,
            None => 0,
        }
    } else {
        0
    }
}

/// A worker id in the one byte of a wake event: 255 if unknown or too large.
pub fn current_worker_id(worker_id: Option<usize>) -> (id: u8)
    ensures
        id as int == (match worker_id {
            Some(i) => if i <= 254 {
                i as int
            } else {
                255
            },
            None => 255,
        }),
{
    match worker_id {
        Some(i) => if i <= 254 {
            i as u8
        } else {
            255
        },
        None => 255,
    }
}

/// The event of a task that is about to be polled.
pub fn make_poll_start(
    now_nanos: u64,
    worker_id: Option<usize>,
    queue_depth: Option<usize>,
    task_id: TaskId,
    location: SpawnLocation,
) -> (event: RawEvent)
    ensures
        event == (RawEvent::PollStart {
            timestamp_nanos: now_nanos,
            worker_id: worker_or_unknown(worker_id),
            worker_local_queue_depth: depth_or_zero(worker_id, queue_depth),
            task_id,
            location,
        }),
{
    RawEvent::PollStart {
        timestamp_nanos: now_nanos,
        worker_id: known_worker(worker_id),
        worker_local_queue_depth: known_depth(worker_id, queue_depth),
        task_id,
        location,
    }
}

/// The event of a task that was polled.
pub fn make_poll_end(now_nanos: u64, worker_id: Option<usize>) -> (event: RawEvent)
    ensures
        event == (RawEvent::PollEnd {
            timestamp_nanos: now_nanos,
            worker_id: worker_or_unknown(worker_id),
        }),
{
    RawEvent::PollEnd { timestamp_nanos: now_nanos, worker_id: known_worker(worker_id) }
}

/// The event of a task that is woken. `waker` is the task that runs the wake,
/// if a task does.
pub fn create_wake_event(
    now_nanos: u64,
    waker: Option<TaskId>,
    woken_task_id: TaskId,
    waking_worker: u8,
) -> (event: RawEvent)
    ensures
        event matches RawEvent::WakeEvent {
            timestamp_nanos,
            waker_task_id,
            woken_task_id: woken,
            target_worker,
        } && {
            &&& timestamp_nanos == now_nanos
            &&& match waker {
                Some(id) => waker_task_id == id,
                None => waker_task_id@ == 0,
            }
            &&& woken == woken_task_id
            &&& target_worker == waking_worker
        },
{
    let waker_task_id = match waker {
        Some(id) => id,
        None => TaskId::default(),
    };
    RawEvent::WakeEvent {
        timestamp_nanos: now_nanos,
        waker_task_id,
        woken_task_id,
        target_worker: waking_worker,
    }
}

/// A thread is the first worker that runs on it, and no worker where none does.
pub proof fn lemma_thread_is_the_first_worker_on_it(threads: Seq<Option<u64>>, tid: u64)
    requires
        threads.len() <= usize::MAX,
    ensures
        match worker_with_thread(threads, tid) {
            Some(i) => i < threads.len() && threads[i as int] == Some(tid) && forall|j: int|
                0 <= j < i ==> #[trigger] threads[j] != Some(tid),
            None => forall|j: int| 0 <= j < threads.len() ==> #[trigger] threads[j] != Some(tid),
        },
    decreases threads.len(),
{
    if threads.len() > 0 {
        let rest = threads.drop_last();
        lemma_thread_is_the_first_worker_on_it(rest, tid);
        assert forall|j: int| 0 <= j < rest.len() implies #[trigger] threads[j] == rest[j] by {}
    }
}

} // verus!
