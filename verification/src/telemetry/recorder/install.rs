//! The runtime hooks: which are installed, and what a call of each records.

use crate::telemetry::events::{RawEvent, SpawnLocation, ThreadRole};
use crate::telemetry::format::UNKNOWN_WORKER;
use crate::telemetry::recorder::shared_state::{SharedModel, SharedState};
use crate::telemetry::recorder::worker_thread::{
    depth_or_zero, make_poll_end, make_poll_start, worker_or_unknown, worker_with_thread,
    WorkerThread,
};
use crate::telemetry::task_metadata::TaskId;
use vstd::prelude::*;

verus! {

/// A hook of the runtime builder.
#[derive(Debug, Clone, Copy, PartialEq, Eq, Structural)]
pub enum Hook {
    /// `on_thread_park`: records worker park events.
    ThreadPark,
    /// `on_thread_unpark`: records worker unpark events.
    ThreadUnpark,
    /// `on_before_task_poll`: records poll-start events.
    BeforeTaskPoll,
    /// `on_after_task_poll`: records poll-end events.
    AfterTaskPoll,
    /// `on_task_spawn`: records task spawn events.
    TaskSpawn,
    /// `on_thread_start`: opens a per-thread perf event.
    ThreadStart,
    /// `on_thread_stop`: closes the per-thread perf event.
    ThreadStop,
}

/// The hooks that are installed, in order. Task spawns are recorded only with
/// task tracking.
pub open spec fn hooks(task_tracking: bool) -> Seq<Hook> {
    seq![Hook::ThreadPark, Hook::ThreadUnpark, Hook::BeforeTaskPoll, Hook::AfterTaskPoll] + (
    if task_tracking {
        seq![Hook::TaskSpawn]
    } else {
        Seq::empty()
    }) + seq![Hook::ThreadStart, Hook::ThreadStop]
}

/// The hooks that are installed, in order.
pub fn installed_hooks(task_tracking: bool) -> (v: Vec<Hook>)
    ensures
        v@ == hooks(task_tracking),
{
    let mut v: Vec<Hook> = Vec::new();
    v.push(Hook::ThreadPark);
    v.push(Hook::ThreadUnpark);
    v.push(Hook::BeforeTaskPoll);
    v.push(Hook::AfterTaskPoll);
    if task_tracking {
        v.push(Hook::TaskSpawn);
    }
    v.push(Hook::ThreadStart);
    v.push(Hook::ThreadStop);
    assert(v@ =~= hooks(task_tracking));
    v
}

/// A call of a recording hook, with what it was called with and what was read
/// for it.
#[derive(Debug)]
pub enum HookCall {
    /// The CPU time of the thread, and its scheduler wait time where it can be
    /// read.
    ThreadPark { cpu_time_nanos: u64, wait_time_ns: Option<u64> },
    /// The same at the end of the park.
    ThreadUnpark { cpu_time_nanos: u64, wait_time_ns: Option<u64> },
    BeforeTaskPoll { task_id: TaskId, location: SpawnLocation },
    AfterTaskPoll,
    TaskSpawn { task_id: TaskId, location: SpawnLocation },
}

/// The event that a hook call records.
pub open spec fn hook_event(
    worker: WorkerThread,
    now_nanos: u64,
    worker_id: Option<usize>,
    queue_depth: Option<usize>,
    call: HookCall,
) -> RawEvent {
    match call {
        HookCall::ThreadPark { cpu_time_nanos, .. } => RawEvent::WorkerPark {
            timestamp_nanos: now_nanos,
            worker_id: worker_or_unknown(worker_id),
            worker_local_queue_depth: depth_or_zero(worker_id, queue_depth),
            cpu_time_nanos,
        },
        HookCall::ThreadUnpark { cpu_time_nanos, wait_time_ns } => RawEvent::WorkerUnpark {
            timestamp_nanos: now_nanos,
            worker_id: worker_or_unknown(worker_id),
            worker_local_queue_depth: depth_or_zero(worker_id, queue_depth),
            cpu_time_nanos,
            sched_wait_delta_nanos: match wait_time_ns {
                Some(w) => if w > worker.parked_sched_wait {
                    (w - worker.parked_sched_wait) as u64
                } else {
                    0
                },
                None => 0,
            },
        },
        HookCall::BeforeTaskPoll { task_id, location } => RawEvent::PollStart {
            timestamp_nanos: now_nanos,
            worker_id: worker_or_unknown(worker_id),
            worker_local_queue_depth: depth_or_zero(worker_id, queue_depth),
            task_id,
            location,
        },
        HookCall::AfterTaskPoll => RawEvent::PollEnd {
            timestamp_nanos: now_nanos,
            worker_id: worker_or_unknown(worker_id),
        },
        HookCall::TaskSpawn { task_id, location } => RawEvent::TaskSpawn {
            timestamp_nanos: now_nanos,
            task_id,
            location,
        },
    }
}

/// What the thread remembers after a hook call: the wait time at a park.
pub open spec fn hook_memory(worker: WorkerThread, call: HookCall) -> WorkerThread {
    match call {
        HookCall::ThreadPark { wait_time_ns: Some(w), .. } => WorkerThread {
            parked_sched_wait: w,
            ..worker
        },
        _ => worker,
    }
}

/// Which worker the calling thread is. When that is found out, the thread is
/// registered as that worker, so that CPU samples can be attributed to it at
/// once.
pub fn resolve_current_worker(
    shared: &mut SharedState,
    worker: &mut WorkerThread,
    tid: u64,
    os_tid: u32,
    worker_threads: &Option<Vec<Option<u64>>>,
) -> (worker_id: Option<usize>)
    ensures
        old(worker).worker_id is Some || old(worker).not_a_worker || *worker_threads is None ==> {
            &&& *final(worker) == *old(worker)
            &&& worker_id == old(worker).worker_id
            &&& final(shared)@ == old(shared)@
        },
        old(worker).worker_id is None && !old(worker).not_a_worker ==> (*worker_threads matches
            Some(threads) ==> {
            let found = worker_with_thread(threads@, tid);
            &&& worker_id == found
            &&& *final(worker) == (WorkerThread {
                worker_id: found,
                not_a_worker: found is None,
                tid_emitted: old(worker).tid_emitted || found is Some,
                ..*old(worker)
            })
            &&& final(shared)@ == (match found {
                Some(i) => if old(worker).tid_emitted {
                    old(shared)@
                } else {
                    SharedModel {
                        roles: old(shared)@.roles.insert(os_tid, ThreadRole::Worker(i as u64)),
                        ..old(shared)@
                    }
                },
                None => old(shared)@,
            })
        }),
{
    let found = worker.resolve_worker_id(tid, worker_threads, true);
    if let Some(i) = found.register {
        shared.register_thread(os_tid, ThreadRole::Worker(i as u64));
    }
    found.worker_id
}

/// Record what a hook call stands for, into the buffer of the thread `thread`.
pub fn on_hook(
    shared: &mut SharedState,
    worker: &mut WorkerThread,
    thread: u64,
    now_nanos: u64,
    worker_id: Option<usize>,
    queue_depth: Option<usize>,
    call: HookCall,
)
    requires
        old(shared)@.wf(),
    ensures
        final(shared)@.wf(),
        final(shared)@ == old(shared)@.recorded(
            thread,
            hook_event(*old(worker), now_nanos, worker_id, queue_depth, call),
        ),
        *final(worker) == hook_memory(*old(worker), call),
{
    let event = match call {
        HookCall::ThreadPark { cpu_time_nanos, wait_time_ns } => worker.make_worker_park(
            now_nanos,
            worker_id,
            queue_depth,
            cpu_time_nanos,
            wait_time_ns,
        ),
        HookCall::ThreadUnpark { cpu_time_nanos, wait_time_ns } => worker.make_worker_unpark(
            now_nanos,
            worker_id,
            queue_depth,
            cpu_time_nanos,
            wait_time_ns,
        ),
        HookCall::BeforeTaskPoll { task_id, location } => make_poll_start(
            now_nanos,
            worker_id,
            queue_depth,
            task_id,
            location,
        ),
        HookCall::AfterTaskPoll => make_poll_end(now_nanos, worker_id),
        HookCall::TaskSpawn { task_id, location } => RawEvent::TaskSpawn {
            timestamp_nanos: now_nanos,
            task_id,
            location,
        },
    };
    shared.record_event(thread, event);
}

/// The scheduler delay of a park is what the wait time grew by between its two
/// hooks.
pub proof fn lemma_unpark_measures_park(
    worker: WorkerThread,
    worker_id: Option<usize>,
    queue_depth: Option<usize>,
    park_cpu: u64,
    park_wait: u64,
    now_nanos: u64,
    unpark_cpu: u64,
    unpark_wait: u64,
)
    requires
        park_wait <= unpark_wait,
    ensures
        hook_event(
            hook_memory(
                worker,
                HookCall::ThreadPark { cpu_time_nanos: park_cpu, wait_time_ns: Some(park_wait) },
            ),
            now_nanos,
            worker_id,
            queue_depth,
            HookCall::ThreadUnpark { cpu_time_nanos: unpark_cpu, wait_time_ns: Some(unpark_wait) },
        ) matches RawEvent::WorkerUnpark { sched_wait_delta_nanos, .. } && sched_wait_delta_nanos
            == unpark_wait - park_wait,
{
}

/// Every event that a hook records on a thread known as worker `i` carries the
/// worker id `i`, and the id of no worker only where the thread is not known as
/// one. Each hook records its own kind of event, at the time of the call, with
/// what it was called with and what was read for it.
pub proof fn lemma_hook_records_its_own_worker(
    worker: WorkerThread,
    now_nanos: u64,
    worker_id: Option<usize>,
    queue_depth: Option<usize>,
    call: HookCall,
)
    ensures
        match (call, hook_event(worker, now_nanos, worker_id, queue_depth, call)) {
            (
                HookCall::ThreadPark { cpu_time_nanos, .. },
                RawEvent::WorkerPark {
                    timestamp_nanos,
                    worker_id: w,
                    worker_local_queue_depth: d,
                    cpu_time_nanos: c,
                },
            ) => timestamp_nanos == now_nanos && (worker_id matches Some(i) ==> w.0 == i && (
            queue_depth matches Some(depth) ==> d == depth)) && (worker_id is None ==> w.0
                == UNKNOWN_WORKER) && (worker_id is None || queue_depth is None ==> d == 0) && c
                == cpu_time_nanos,
            (
                HookCall::ThreadUnpark { cpu_time_nanos, wait_time_ns },
                RawEvent::WorkerUnpark {
                    timestamp_nanos,
                    worker_id: w,
                    worker_local_queue_depth: d,
                    cpu_time_nanos: c,
                    sched_wait_delta_nanos: s,
                },
            ) => timestamp_nanos == now_nanos && (worker_id matches Some(i) ==> w.0 == i && (
            queue_depth matches Some(depth) ==> d == depth)) && (worker_id is None ==> w.0
                == UNKNOWN_WORKER) && (worker_id is None || queue_depth is None ==> d == 0) && c
                == cpu_time_nanos && (wait_time_ns is None ==> s == 0) && (wait_time_ns matches
                Some(wait) ==> if wait >= worker.parked_sched_wait {
                s == wait - worker.parked_sched_wait
            } else {
                s == 0
            }),
            (
                HookCall::BeforeTaskPoll { task_id, location },
                RawEvent::PollStart {
                    timestamp_nanos,
                    worker_id: w,
                    worker_local_queue_depth: d,
                    task_id: t,
                    location: l,
                },
            ) => timestamp_nanos == now_nanos && (worker_id matches Some(i) ==> w.0 == i && (
            queue_depth matches Some(depth) ==> d == depth)) && (worker_id is None ==> w.0
                == UNKNOWN_WORKER) && (worker_id is None || queue_depth is None ==> d == 0) && t
                == task_id && l == location,
            (HookCall::AfterTaskPoll, RawEvent::PollEnd { timestamp_nanos, worker_id: w }) =>
                timestamp_nanos == now_nanos && (worker_id matches Some(i) ==> w.0 == i) && (
                worker_id is None ==> w.0 == UNKNOWN_WORKER),
            (
                HookCall::TaskSpawn { task_id, location },
                RawEvent::TaskSpawn { timestamp_nanos, task_id: t, location: l },
            ) => timestamp_nanos == now_nanos && t == task_id && l == location,
            _ => false,
        },
{
}

/// The start and the end of a poll agree on the worker, and so do a park and
/// the unpark that ends it, whatever else changed between the two calls.
pub proof fn lemma_paired_events_agree_on_the_worker(
    earlier: WorkerThread,
    later: WorkerThread,
    from_nanos: u64,
    to_nanos: u64,
    worker_id: Option<usize>,
    depth_before: Option<usize>,
    depth_after: Option<usize>,
    task_id: TaskId,
    location: SpawnLocation,
    cpu_before: u64,
    cpu_after: u64,
    wait_before: Option<u64>,
    wait_after: Option<u64>,
)
    ensures
        hook_event(
            earlier,
            from_nanos,
            worker_id,
            depth_before,
            HookCall::BeforeTaskPoll { task_id, location },
        )->PollStart_worker_id == hook_event(
            later,
            to_nanos,
            worker_id,
            depth_after,
            HookCall::AfterTaskPoll,
        )->PollEnd_worker_id,
        hook_event(
            earlier,
            from_nanos,
            worker_id,
            depth_before,
            HookCall::ThreadPark { cpu_time_nanos: cpu_before, wait_time_ns: wait_before },
        )->WorkerPark_worker_id == hook_event(
            later,
            to_nanos,
            worker_id,
            depth_after,
            HookCall::ThreadUnpark { cpu_time_nanos: cpu_after, wait_time_ns: wait_after },
        )->WorkerUnpark_worker_id,
{
}

/// A thread remembers the wait time that was read at its last park; no other
/// hook changes what it remembers.
pub proof fn lemma_only_a_park_is_remembered(worker: WorkerThread, call: HookCall)
    ensures
        match call {
            HookCall::ThreadPark { wait_time_ns: Some(wait), .. } => hook_memory(
                worker,
                call,
            ).parked_sched_wait == wait,
            _ => hook_memory(worker, call).parked_sched_wait == worker.parked_sched_wait,
        },
        hook_memory(worker, call).worker_id == worker.worker_id,
        hook_memory(worker, call).not_a_worker == worker.not_a_worker,
        hook_memory(worker, call).tid_emitted == worker.tid_emitted,
{
}

/// The hook on task spawns is installed with task tracking only; every other
/// hook always is, and none twice.
pub proof fn lemma_hooks_are_installed_once(task_tracking: bool)
    ensures
        hooks(task_tracking).no_duplicates(),
        forall|h: Hook| hooks(task_tracking).contains(h) <==> (h != Hook::TaskSpawn || task_tracking),
{
    let v = hooks(task_tracking);
    assert forall|h: Hook| v.contains(h) <==> (h != Hook::TaskSpawn || task_tracking) by {
        let n = v.len();
        match h {
            Hook::ThreadPark => {
                assert(v[0] == h);
            },
            Hook::ThreadUnpark => {
                assert(v[1] == h);
            },
            Hook::BeforeTaskPoll => {
                assert(v[2] == h);
            },
            Hook::AfterTaskPoll => {
                assert(v[3] == h);
            },
            Hook::TaskSpawn => {
                if task_tracking {
                    assert(v[4] == h);
                }
            },
            Hook::ThreadStart => {
                assert(v[n - 2] == h);
            },
            Hook::ThreadStop => {
                assert(v[n - 1] == h);
            },
        }
    }
}

} // verus!
