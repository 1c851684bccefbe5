//! Task dumps: async backtraces captured at yield points, emitted when the task
//! stayed idle longer than a threshold.
//!
//! On each poll the time since the last capture, that is the idle time that led
//! up to this poll, is looked at. If it exceeded the threshold, the callchains
//! captured at the previous yield point are emitted. If the poll leaves the task
//! pending, a fresh capture is taken, so that the next poll has fresh data.

use crate::telemetry::task_metadata::TaskId;
use smallvec::SmallVec;
use vstd::prelude::*;

verus! {

/// Where each callchain of a [`FrameBuf`] starts, kept inline up to eight.
#[verifier::external_body]
pub struct Offsets {
    inner: SmallVec<[usize; 8]>,
}

/// The numbers that a list holds, in the order in which they were pushed.
pub uninterp spec fn offset_contents(offsets: Offsets) -> Seq<usize>;

impl Offsets {
    /// `SmallVec::new` makes a list without elements.
    #[verifier::external_body]
    fn empty() -> (o: Offsets)
        ensures
            offset_contents(o) == Seq::<usize>::empty(),
    {
        Offsets { inner: SmallVec::new() }
    }

    /// `SmallVec::push` appends the value to the end of the list.
    #[verifier::external_body]
    fn append_one(&mut self, at: usize)
        ensures
            offset_contents(*final(self)) == offset_contents(*old(self)).push(at),
    {
        self.inner.push(at)
    }

    /// `SmallVec::len` is the number of elements of the list.
    #[verifier::external_body]
    fn count(&self) -> (n: usize)
        ensures
            n == offset_contents(*self).len(),
    {
        self.inner.len()
    }

    /// Indexing a `SmallVec` within its length gives the element at that place.
    #[verifier::external_body]
    fn at(&self, i: usize) -> (at: usize)
        requires
            i < offset_contents(*self).len(),
        ensures
            at == offset_contents(*self)[i as int],
    {
        self.inner[i]
    }

    /// `SmallVec::clear` removes all elements.
    #[verifier::external_body]
    fn remove_all(&mut self)
        ensures
            offset_contents(*final(self)) == Seq::<usize>::empty(),
    {
        self.inner.clear()
    }
}

/// A frame of a stack that was walked, innermost first.
#[derive(Debug, Clone, Copy, PartialEq, Eq, Structural)]
pub struct StackFrame {
    /// The instruction pointer.
    pub ip: u64,
    /// The start of the function that it lies in.
    pub symbol: u64,
}

/// Takes a frame down; always asks for the next.
fn note_frame(frames: &mut Vec<StackFrame>, ip: u64, symbol: u64) -> (more: bool)
    ensures
        more,
        final(frames)@ == old(frames)@.push(StackFrame { ip, symbol }),
{
    frames.push(StackFrame { ip, symbol });
    true
}

/// `backtrace::trace` walks the stack of the calling thread, innermost frame
/// first. Nothing is claimed of the frames: they are those of the moment.
#[verifier::external_body]
fn walk_stack() -> Vec<StackFrame> {
    let mut frames: Vec<StackFrame> = Vec::new();
    backtrace::trace(
        |frame| note_frame(&mut frames, frame.ip() as u64, frame.symbol_address() as u64),
    );
    frames
}

/// Whether `frames` are those of a walk up the stack of the calling thread.
pub closed spec fn stack_walks(frames: Vec<StackFrame>) -> bool {
    call_ensures(walk_stack, (), frames)
}

/// The frames of the calling thread, innermost first.
pub(crate) fn current_stack() -> (frames: Vec<StackFrame>)
    ensures
        stack_walks(frames),
{
    walk_stack()
}

/// The instruction pointers of the frames above the leaf function and below the
/// root function. The leaf itself is left out, and so is everything from the
/// root on.
pub open spec fn kept_frames(
    frames: Seq<StackFrame>,
    root: Option<u64>,
    leaf: u64,
    above_leaf: bool,
) -> Seq<u64>
    decreases frames.len(),
{
    if frames.len() == 0 || root == Some(frames[0].symbol) {
        Seq::empty()
    } else {
        (if above_leaf {
            seq![frames[0].ip]
        } else {
            Seq::empty()
        }) + kept_frames(frames.skip(1), root, leaf, above_leaf || frames[0].symbol == leaf)
    }
}

/// A captured callchain of a task.
#[derive(Debug)]
pub struct TaskDumpData {
    pub timestamp_ns: u64,
    pub task_id: TaskId,
    pub callchain: Vec<u64>,
}

/// The value of a [`TaskDumpData`].
#[verifier::ext_equal]
pub struct TaskDumpModel {
    pub timestamp_ns: u64,
    pub task_id: TaskId,
    pub callchain: Seq<u64>,
}

impl View for TaskDumpData {
    type V = TaskDumpModel;

    open spec fn view(&self) -> TaskDumpModel {
        TaskDumpModel {
            timestamp_ns: self.timestamp_ns,
            task_id: self.task_id,
            callchain: self.callchain@,
        }
    }
}

/// The value of each dump of a sequence.
pub open spec fn dump_models(dumps: Seq<TaskDumpData>) -> Seq<TaskDumpModel> {
    dumps.map_values(|d: TaskDumpData| d@)
}

/// One dump for each callchain.
pub open spec fn dumps_of(chains: Seq<Seq<u64>>, task_id: TaskId, timestamp_ns: u64) -> Seq<
    TaskDumpModel,
> {
    chains.map_values(
        |chain: Seq<u64>| TaskDumpModel { timestamp_ns, task_id, callchain: chain },
    )
}

/// Reusable storage for the callchains of one capture. Frames are kept flat;
/// the start of each chain is kept beside them.
pub struct FrameBuf {
    ips: Vec<u64>,
    offsets: Offsets,
}

/// Where chain `i` ends.
spec fn chain_end(ips: Seq<u64>, offsets: Seq<usize>, i: int) -> int {
    if i + 1 < offsets.len() {
        offsets[i + 1] as int
    } else {
        ips.len() as int
    }
}

/// The chain that starts at offset `i`.
spec fn chain(ips: Seq<u64>, offsets: Seq<usize>, i: int) -> Seq<u64> {
    ips.subrange(offsets[i] as int, chain_end(ips, offsets, i))
}

impl View for FrameBuf {
    type V = Seq<Seq<u64>>;

    closed spec fn view(&self) -> Seq<Seq<u64>> {
        let ips = self.ips@;
        let offsets = offset_contents(self.offsets);
        Seq::new(offsets.len(), |i: int| chain(ips, offsets, i))
    }
}

impl FrameBuf {
    /// The chains lie one behind the other.
    pub closed spec fn wf(self) -> bool {
        let offsets = offset_contents(self.offsets);
        &&& forall|i: int, j: int|
            0 <= i <= j < offsets.len() ==> #[trigger] offsets[i] <= #[trigger] offsets[j]
        &&& forall|i: int| 0 <= i < offsets.len() ==> #[trigger] offsets[i] <= self.ips@.len()
    }

    pub fn new() -> (b: FrameBuf)
        ensures
            b.wf(),
            b@ == Seq::<Seq<u64>>::empty(),
    {
        let b = FrameBuf { ips: Vec::new(), offsets: Offsets::empty() };
        assert(b@ =~= Seq::<Seq<u64>>::empty());
        b
    }

    pub fn clear(&mut self)
        ensures
            final(self).wf(),
            final(self)@ == Seq::<Seq<u64>>::empty(),
    {
        self.ips.clear();
        self.offsets.remove_all();
        assert(self@ =~= Seq::<Seq<u64>>::empty());
    }

    /// Whether there is a callchain.
    pub fn has_data(&self) -> (b: bool)
        ensures
            b == (self@.len() > 0),
    {
        self.offsets.count() != 0
    }

    /// Add the callchain of a yield point whose stack was walked: the frames
    /// above `leaf` (any frames at or below it are internal plumbing), up to
    /// `root`.
    pub fn add_chain(&mut self, frames: &Vec<StackFrame>, root: Option<u64>, leaf: u64)
        requires
            old(self).wf(),
        ensures
            final(self).wf(),
            final(self)@ == old(self)@.push(kept_frames(frames@, root, leaf, false)),
    {
        let ghost before = self@;
        let ghost old_ips = self.ips@;
        let ghost old_offsets = offset_contents(self.offsets);
        let start: usize = self.ips.len();
        self.offsets.append_one(start);
        let ghost offsets = offset_contents(self.offsets);
        capture_frames(&mut self.ips, frames, root, leaf);
        let ghost kept = kept_frames(frames@, root, leaf, false);
        assert(self.wf());
        assert(self@ =~= before.push(kept)) by {
            assert forall|i: int| 0 <= i < before.len() implies self@[i] == before[i] by {
                assert(offsets[i] == old_offsets[i]);
                assert(offsets[i] <= start);
                if i + 1 < before.len() {
                    assert(offsets[i + 1] == old_offsets[i + 1]);
                    assert(offsets[i] <= offsets[i + 1]);
                }
                assert(chain(self.ips@, offsets, i) =~= chain(old_ips, old_offsets, i));
            }
            assert(chain(self.ips@, offsets, before.len() as int) =~= kept);
        }
    }

    /// Add the callchain of the yield point that the calling thread is at, as
    /// [`FrameBuf::add_chain`] does.
    pub fn capture_chain(&mut self, root: Option<u64>, leaf: u64)
        requires
            old(self).wf(),
        ensures
            final(self).wf(),
            exists|frames: Vec<StackFrame>| #[trigger]
                stack_walks(frames) && final(self)@ == old(self)@.push(
                    kept_frames(frames@, root, leaf, false),
                ),
    {
        let frames = current_stack();
        self.add_chain(&frames, root, leaf);
    }

    /// One dump for each callchain if recording is on; then clear.
    pub fn emit(&mut self, enabled: bool, task_id: TaskId, capture_ts: u64) -> (dumps: Vec<
        TaskDumpData,
    >)
        requires
            old(self).wf(),
        ensures
            final(self).wf(),
            final(self)@ == Seq::<Seq<u64>>::empty(),
            dump_models(dumps@) == (if enabled {
                dumps_of(old(self)@, task_id, capture_ts)
            } else {
                Seq::empty()
            }),
    {
        let mut dumps: Vec<TaskDumpData> = Vec::new();
        let ghost chains = self@;
        if enabled {
            let count: usize = self.offsets.count();
            let mut i: usize = 0;
            let ghost all = dumps_of(chains, task_id, capture_ts);
            assert(dump_models(dumps@) =~= all.take(0));
            while i < count
                invariant
                    i <= count,
                    self.wf(),
                    *self == *old(self),
                    self@ == chains,
                    count == offset_contents(self.offsets).len(),
                    all == dumps_of(chains, task_id, capture_ts),
                    dump_models(dumps@) == all.take(i as int),
                decreases count - i,
            {
                let start: usize = self.offsets.at(i);
                let end: usize = if i + 1 < count {
                    self.offsets.at(i + 1)
                } else {
                    self.ips.len()
                };
                let ghost offsets = offset_contents(self.offsets);
                assert(offsets[i as int] <= self.ips@.len());
                let callchain = copy_range(&self.ips, start, end);
                assert(callchain@ == chains[i as int]);
                let ghost sofar = dump_models(dumps@);
                dumps.push(TaskDumpData { timestamp_ns: capture_ts, task_id, callchain });
                i = i + 1;
                assert(dump_models(dumps@) =~= sofar.push(all[i - 1]));
                assert(dump_models(dumps@) =~= all.take(i as int));
            }
            assert(all.take(i as int) =~= all);
        } else {
            assert(dump_models(dumps@) =~= Seq::empty());
        }
        self.clear();
        dumps
    }
}

fn copy_range(v: &Vec<u64>, from: usize, to: usize) -> (copy: Vec<u64>)
    requires
        from <= to <= v@.len(),
    ensures
        copy@ == v@.subrange(from as int, to as int),
{
    let mut copy: Vec<u64> = Vec::new();
    let mut i: usize = from;
    while i < to
        invariant
            from <= i <= to <= v@.len(),
            copy@ == v@.subrange(from as int, i as int),
        decreases to - i,
    {
        copy.push(v[i]);
        i = i + 1;
        assert(copy@ =~= v@.subrange(from as int, i as int));
    }
    copy
}

/// Append the instruction pointers of the frames above `leaf` and below `root`.
pub fn capture_frames(ips: &mut Vec<u64>, frames: &Vec<StackFrame>, root: Option<u64>, leaf: u64)
    ensures
        final(ips)@ == old(ips)@ + kept_frames(frames@, root, leaf, false),
{
    let ghost whole = kept_frames(frames@, root, leaf, false);
    let mut above_leaf = false;
    let mut i: usize = 0;
    assert(frames@.skip(0) =~= frames@);
    assert(ips@ + whole =~= old(ips)@ + whole);
    while i < frames.len()
        invariant
            i <= frames@.len(),
            whole == kept_frames(frames@, root, leaf, false),
            ips@ + kept_frames(frames@.skip(i as int), root, leaf, above_leaf) == old(ips)@ + whole,
        decreases frames@.len() - i,
    {
        let frame = frames[i];
        let ghost rest = frames@.skip(i as int);
        let ghost so_far = ips@;
        assert(rest[0] == frame);
        let below_root = match root {
            Some(root) => frame.symbol != root,
            None => true,
        };
        if !below_root {
            assert(ips@ + kept_frames(rest, root, leaf, above_leaf) =~= ips@);
            return;
        }
        let ghost was_above = above_leaf;
        if above_leaf {
            ips.push(frame.ip);
        }
        if frame.symbol == leaf {
            above_leaf = true;
        }
        i = i + 1;
        proof {
            assert(rest.skip(1) =~= frames@.skip(i as int));
            let tail = kept_frames(frames@.skip(i as int), root, leaf, above_leaf);
            assert(ips@ + tail =~= so_far + kept_frames(rest, root, leaf, was_above));
        }
    }
    assert(ips@ + kept_frames(frames@.skip(i as int), root, leaf, above_leaf) =~= ips@);
}

/// What is kept of a task between polls.
pub struct TaskDumped {
    task_id: TaskId,
    frames: FrameBuf,
    /// When the frames were captured.
    pending_capture_ts: u64,
    idle_threshold_ns: u64,
}

/// The value of a [`TaskDumped`].
#[verifier::ext_equal]
pub struct DumpModel {
    pub task_id: TaskId,
    /// The callchains of the last capture.
    pub chains: Seq<Seq<u64>>,
    /// When they were captured, in nanoseconds.
    pub captured_at: u64,
    pub idle_threshold_ns: u64,
}

impl View for TaskDumped {
    type V = DumpModel;

    closed spec fn view(&self) -> DumpModel {
        DumpModel {
            task_id: self.task_id,
            chains: self.frames@,
            captured_at: self.pending_capture_ts,
            idle_threshold_ns: self.idle_threshold_ns,
        }
    }
}

/// What a poll is to do beside polling the task.
#[derive(Debug, Clone, Copy, PartialEq, Eq, Structural)]
pub enum PollPlan {
    /// Nothing: dumps are off.
    Forward,
    /// Capture if the task stays pending, and before that emit what was
    /// captured last, if `emit`.
    Capture { emit: bool },
}

impl DumpModel {
    /// Nothing is captured.
    pub open spec fn without_capture(self) -> DumpModel {
        DumpModel { chains: Seq::empty(), captured_at: 0, ..self }
    }

    /// Whether the task was idle longer than the threshold when it is polled at
    /// `now`.
    pub open spec fn idle_exceeded(self, now: u64) -> bool {
        now > self.captured_at && now - self.captured_at > self.idle_threshold_ns
    }

    /// What a poll at `now` is to do.
    pub open spec fn plan(self, dumps_enabled: bool, recording: bool, now: u64) -> PollPlan {
        if !dumps_enabled || !recording {
            PollPlan::Forward
        } else {
            PollPlan::Capture { emit: self.chains.len() > 0 && self.idle_exceeded(now) }
        }
    }

    /// The state when a poll begins. What was captured before dumps were
    /// switched off is dropped, so that it is not attributed to an old idle gap
    /// after capture resumes.
    pub open spec fn begun(self, dumps_enabled: bool, recording: bool) -> DumpModel {
        if (!dumps_enabled || !recording) && self.chains.len() > 0 {
            self.without_capture()
        } else {
            self
        }
    }
}

impl TaskDumped {
    pub closed spec fn wf(self) -> bool {
        self.frames.wf()
    }

    /// A task of which nothing is captured.
    pub fn new(task_id: TaskId, idle_threshold_ns: u64) -> (t: TaskDumped)
        ensures
            t.wf(),
            t@ == (DumpModel {
                task_id,
                chains: Seq::empty(),
                captured_at: 0,
                idle_threshold_ns,
            }),
    {
        TaskDumped { task_id, frames: FrameBuf::new(), pending_capture_ts: 0, idle_threshold_ns }
    }

    /// A poll begins at `now`.
    pub fn begin_poll(&mut self, dumps_enabled: bool, recording: bool, now: u64) -> (plan: PollPlan)
        requires
            old(self).wf(),
        ensures
            final(self).wf(),
            plan == old(self)@.plan(dumps_enabled, recording, now),
            final(self)@ == old(self)@.begun(dumps_enabled, recording),
    {
        if !dumps_enabled || !recording {
            if self.frames.has_data() {
                self.frames.clear();
                self.pending_capture_ts = 0;
            }
            return PollPlan::Forward;
        }
        let emit = self.frames.has_data() && now.saturating_sub(self.pending_capture_ts)
            > self.idle_threshold_ns;
        PollPlan::Capture { emit }
    }

    /// The task was polled with a plan to capture: the dumps that are emitted.
    /// A task that is ready has nothing more to capture; one that is pending is
    /// captured anew.
    pub fn end_poll(&mut self, emit: bool, recording: bool, ready: bool) -> (dumps: Vec<
        TaskDumpData,
    >)
        requires
            old(self).wf(),
        ensures
            final(self).wf(),
            dump_models(dumps@) == (if emit && recording {
                dumps_of(old(self)@.chains, old(self)@.task_id, old(self)@.captured_at)
            } else {
                Seq::empty()
            }),
            final(self)@ == (if ready {
                old(self)@.without_capture()
            } else {
                DumpModel { chains: Seq::empty(), ..old(self)@ }
            }),
    {
        let mut dumps: Vec<TaskDumpData> = Vec::new();
        assert(dump_models(dumps@) =~= Seq::empty());
        if emit {
            dumps = self.frames.emit(recording, self.task_id, self.pending_capture_ts);
        }
        self.frames.clear();
        if ready {
            self.pending_capture_ts = 0;
        }
        dumps
    }

    /// Add the callchain of a yield point of the pending task, whose stack was
    /// walked.
    pub fn add_chain(&mut self, frames: &Vec<StackFrame>, root: Option<u64>, leaf: u64)
        requires
            old(self).wf(),
        ensures
            final(self).wf(),
            final(self)@ == (DumpModel {
                chains: old(self)@.chains.push(kept_frames(frames@, root, leaf, false)),
                ..old(self)@
            }),
    {
        self.frames.add_chain(frames, root, leaf);
    }

    /// Add the callchain of the yield point of the pending task that the
    /// calling thread is at.
    pub fn capture_chain(&mut self, root: Option<u64>, leaf: u64)
        requires
            old(self).wf(),
        ensures
            final(self).wf(),
            exists|frames: Vec<StackFrame>| #[trigger]
                stack_walks(frames) && final(self)@ == (DumpModel {
                    chains: old(self)@.chains.push(kept_frames(frames@, root, leaf, false)),
                    ..old(self)@
                }),
    {
        self.frames.capture_chain(root, leaf);
    }

    /// All yield points of the pending task were captured, at `now`.
    pub fn captured(&mut self, now: u64)
        requires
            old(self).wf(),
        ensures
            final(self).wf(),
            final(self)@ == (DumpModel { captured_at: now, ..old(self)@ }),
    {
        self.pending_capture_ts = now;
    }
}

/// What was captured before dumps were switched off is never emitted after they
/// are switched on again.
pub proof fn lemma_no_stale_dumps(m: DumpModel, recording: bool, now: u64)
    ensures
        m.begun(false, recording).plan(true, true, now) == (PollPlan::Capture { emit: false }),
        m.begun(recording, false).plan(true, true, now) == (PollPlan::Capture { emit: false }),
{
}

/// A task that was idle no longer than the threshold emits nothing; one that
/// was idle longer emits what was captured, with the time of the capture.
pub proof fn lemma_dumps_need_long_idle(
    m: DumpModel,
    captured_at: u64,
    chains: Seq<Seq<u64>>,
    now: u64,
)
    requires
        captured_at <= now,
        chains.len() > 0,
    ensures
        (DumpModel { chains, captured_at, ..m }).plan(true, true, now) == (PollPlan::Capture {
            emit: now - captured_at > m.idle_threshold_ns,
        }),
{
}

/// The frames that are kept are those between the leaf and the root, both left
/// out: everything up to the first leaf is plumbing, and everything from the
/// root on is the runtime. Without a leaf in front of the root none is kept.
pub proof fn lemma_frames_between_leaf_and_root_are_kept(
    frames: Seq<StackFrame>,
    root: Option<u64>,
    leaf: u64,
    l: int,
    r: int,
)
    requires
        0 <= l <= r <= frames.len(),
        forall|k: int| 0 <= k < r ==> root != Some((#[trigger] frames[k]).symbol),
        r < frames.len() ==> root == Some(frames[r].symbol),
        forall|k: int| 0 <= k < l ==> (#[trigger] frames[k]).symbol != leaf,
        l < r ==> frames[l].symbol == leaf,
    ensures
        l == r ==> kept_frames(frames, root, leaf, false).len() == 0,
        l < r ==> kept_frames(frames, root, leaf, false).len() == r - l - 1 && forall|k: int|
            0 <= k < r - l - 1 ==> #[trigger] kept_frames(frames, root, leaf, false)[k]
                == frames[l + 1 + k].ip,
    decreases frames.len(),
{
    if r > 0 {
        let rest = frames.skip(1);
        assert(root != Some(frames[0].symbol));
        assert forall|k: int| 0 <= k < r - 1 implies root != Some((#[trigger] rest[k]).symbol) by {
            assert(rest[k] == frames[k + 1]);
        }
        assert forall|k: int| 0 <= k < l - 1 implies (#[trigger] rest[k]).symbol != leaf by {
            assert(rest[k] == frames[k + 1]);
        }
        if l > 0 {
            lemma_frames_between_leaf_and_root_are_kept(rest, root, leaf, l - 1, r - 1);
            assert(kept_frames(frames, root, leaf, false) =~= kept_frames(rest, root, leaf, false));
        } else {
            lemma_frames_above_the_leaf_are_kept(rest, root, leaf, r - 1);
            assert(kept_frames(frames, root, leaf, false) =~= kept_frames(rest, root, leaf, true));
        }
    }
}

proof fn lemma_frames_above_the_leaf_are_kept(
    frames: Seq<StackFrame>,
    root: Option<u64>,
    leaf: u64,
    r: int,
)
    requires
        0 <= r <= frames.len(),
        forall|k: int| 0 <= k < r ==> root != Some((#[trigger] frames[k]).symbol),
        r < frames.len() ==> root == Some(frames[r].symbol),
    ensures
        kept_frames(frames, root, leaf, true).len() == r,
        forall|k: int|
            0 <= k < r ==> #[trigger] kept_frames(frames, root, leaf, true)[k] == frames[k].ip,
    decreases frames.len(),
{
    if r > 0 {
        let rest = frames.skip(1);
        assert(root != Some(frames[0].symbol));
        assert forall|k: int| 0 <= k < r - 1 implies root != Some((#[trigger] rest[k]).symbol) by {
            assert(rest[k] == frames[k + 1]);
        }
        lemma_frames_above_the_leaf_are_kept(rest, root, leaf, r - 1);
    }
}

/// A dump is made of each callchain, in the order in which they were captured,
/// for the task and with the time of the capture.
pub proof fn lemma_dumps_are_of_the_task(
    chains: Seq<Seq<u64>>,
    task_id: TaskId,
    timestamp_ns: u64,
    i: int,
)
    requires
        0 <= i < chains.len(),
    ensures
        dumps_of(chains, task_id, timestamp_ns).len() == chains.len(),
        dumps_of(chains, task_id, timestamp_ns)[i].task_id == task_id,
        dumps_of(chains, task_id, timestamp_ns)[i].timestamp_ns == timestamp_ns,
        dumps_of(chains, task_id, timestamp_ns)[i].callchain == chains[i],
{
}

/// The value of a dump has each of its fields under the same name, and the
/// values of dumps are in order.
pub proof fn lemma_value_of_a_dump(dumps: Seq<TaskDumpData>, i: int)
    requires
        0 <= i < dumps.len(),
    ensures
        dump_models(dumps).len() == dumps.len(),
        dump_models(dumps)[i].timestamp_ns == dumps[i].timestamp_ns,
        dump_models(dumps)[i].task_id == dumps[i].task_id,
        dump_models(dumps)[i].callchain == dumps[i].callchain@,
{
}

/// Dumps are looked after only while both they and recording are on. A poll then
/// emits what was captured exactly if there is something and the task was idle
/// longer than its threshold since. While either is off a poll only forwards,
/// and what was captured is dropped; nothing else is changed by a poll's begin.
pub proof fn lemma_poll_goes_by_switches_and_idle_time(
    m: DumpModel,
    dumps_enabled: bool,
    recording: bool,
    now: u64,
)
    ensures
        m.plan(dumps_enabled, recording, now) is Forward <==> !(dumps_enabled && recording),
        dumps_enabled && recording ==> (m.plan(dumps_enabled, recording, now) matches
            PollPlan::Capture { emit } && (emit <==> m.chains.len() > 0 && now - m.captured_at
            > m.idle_threshold_ns)),
        dumps_enabled && recording ==> m.begun(dumps_enabled, recording) == m,
        !(dumps_enabled && recording) ==> m.begun(dumps_enabled, recording).chains.len() == 0,
        m.begun(dumps_enabled, recording).task_id == m.task_id,
        m.begun(dumps_enabled, recording).idle_threshold_ns == m.idle_threshold_ns,
        m.without_capture().chains.len() == 0,
        m.without_capture().captured_at == 0,
        m.without_capture().task_id == m.task_id,
        m.without_capture().idle_threshold_ns == m.idle_threshold_ns,
{
}

} // verus!
