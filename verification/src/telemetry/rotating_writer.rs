//! A writer that rotates trace files to bound disk usage.
//!
//! The writer decides; the caller performs the file operations it asks for and
//! reports how each of them ended:
//!
//! ```text
//! writer.write_event(&event);
//! while let Some(op) = writer.next_op(now) {
//!     match perform(op) {
//!         Ok(bytes) => writer.succeeded(bytes),
//!         Err(e) => { if !writer.failed() { return Err(e) } }
//!     }
//! }
//! ```

use crate::telemetry::event_list::event_models;
use crate::telemetry::events::{clone_entries, entry_chars, EventModel, RawEvent, TelemetryEvent};
use crate::telemetry::recorder::flush_state::{spawn_location, FlushState};
use crate::telemetry::rotation::{
    active_name, batch_events, batch_has_room, batch_state, is_active, load, rotation_steps,
    segment_name, write_steps, OpModel, PendingModel, RotationModel, StepModel, HEADER_SIZE,
};
use crate::telemetry::rotation_laws::{
    files_inv, lemma_batch_keeps_files, lemma_books_agree, lemma_failure_keeps_files,
    lemma_issue_keeps_files, lemma_room_by_count, lemma_rotated_flag_is_free,
    lemma_rotation_keeps_files, lemma_single_keeps_files, lemma_skip_keeps_files,
    lemma_success_keeps_files,
};
use crate::text::{ends_with, push_decimal, to_chars};
use crate::time::Duration;
use vstd::prelude::*;

verus! {

/// A file operation, on files of the trace directory.
#[derive(Debug)]
pub enum FileOp {
    /// Create the file, make it the current one and write the header to it.
    Create { name: String },
    /// Append the encoded event to the current file.
    Write { event: TelemetryEvent },
    /// Flush the current file.
    Flush,
    Rename { from: String, to: String },
    Remove { name: String },
}

impl View for FileOp {
    type V = OpModel;

    open spec fn view(&self) -> OpModel {
        match *self {
            FileOp::Create { name } => OpModel::Create { name: name@ },
            FileOp::Write { event } => OpModel::Write { event: event@ },
            FileOp::Flush => OpModel::Flush,
            FileOp::Rename { from, to } => OpModel::Rename { from: from@, to: to@ },
            FileOp::Remove { name } => OpModel::Remove { name: name@ },
        }
    }
}

enum Step {
    Write(TelemetryEvent),
    Flush,
    FlushUnlessStopped,
    Evict,
    MaybeRotate,
    SealSegment,
    SealIfActive,
    CreateSegment,
    WriteMetadata,
    FinishRotation,
}

spec fn step_model(step: Step) -> StepModel {
    match step {
        Step::Write(event) => StepModel::Write(event@),
        Step::Flush => StepModel::Flush,
        Step::FlushUnlessStopped => StepModel::FlushUnlessStopped,
        Step::Evict => StepModel::Evict,
        Step::MaybeRotate => StepModel::MaybeRotate,
        Step::SealSegment => StepModel::SealSegment,
        Step::SealIfActive => StepModel::SealIfActive,
        Step::CreateSegment => StepModel::CreateSegment,
        Step::WriteMetadata => StepModel::WriteMetadata,
        Step::FinishRotation => StepModel::FinishRotation,
    }
}

spec fn step_models(steps: Seq<Step>) -> Seq<StepModel> {
    steps.map_values(|s: Step| step_model(s))
}

enum Pending {
    Nothing,
    Event(Ghost<EventModel>),
    Metadata(Ghost<EventModel>),
    Flush,
    Seal,
    Create,
    Remove,
}

spec fn pending_model(pending: Pending) -> PendingModel {
    match pending {
        Pending::Nothing => PendingModel::Nothing,
        Pending::Event(e) => PendingModel::Event(e@),
        Pending::Metadata(e) => PendingModel::Metadata(e@),
        Pending::Flush => PendingModel::Flush,
        Pending::Seal => PendingModel::Seal,
        Pending::Create => PendingModel::Create,
        Pending::Remove => PendingModel::Remove,
    }
}

struct SegmentFile {
    name: String,
    size: u64,
}

spec fn file_models(files: Seq<SegmentFile>) -> Seq<(Seq<char>, nat)> {
    files.map_values(|f: SegmentFile| (f.name@, f.size as nat))
}

struct SegmentLog {
    segment: Seq<EventModel>,
    sealed: Seq<(Seq<EventModel>, bool)>,
    damaged: bool,
}

/// A writer that rotates trace files to bound disk usage.
///
/// - `max_file_size`: rotate to a new file when the current file exceeds this size
/// - `max_total_size`: delete oldest files when total size across all files exceeds this
///
/// Files are named `{stem}.0.bin`, `{stem}.1.bin`, etc. Each file is a
/// self-contained trace with its own header.
pub struct RotatingWriter {
    stem: String,
    max_file_size: u64,
    max_total_size: u64,
    files: Vec<SegmentFile>,
    total_size: u64,
    current_size: u64,
    next_index: u32,
    stopped: bool,
    rotated: bool,
    segment_metadata: Option<Vec<(String, String)>>,
    flush_state: FlushState,
    todo: Vec<Step>,
    pending: Pending,
    log: Ghost<SegmentLog>,
}

impl View for RotatingWriter {
    type V = RotationModel;

    closed spec fn view(&self) -> RotationModel {
        RotationModel {
            stem: self.stem@,
            max_file_size: self.max_file_size as nat,
            max_total_size: self.max_total_size as nat,
            files: file_models(self.files@),
            total_size: self.total_size as nat,
            current_size: self.current_size as nat,
            next_index: self.next_index as nat,
            stopped: self.stopped,
            rotated: self.rotated,
            metadata: match self.segment_metadata {
                Some(entries) => Some(entry_chars(entries@)),
                None => None,
            },
            locations: self.flush_state@,
            todo: step_models(self.todo@),
            pending: pending_model(self.pending),
            segment: self.log@.segment,
            sealed: self.log@.sealed,
            damaged: self.log@.damaged,
        }
    }
}

/// `{stem}.{index}.bin`
pub fn file_path(stem: &String, index: u32) -> (s: String)
    ensures
        s@ == segment_name(stem@, index as nat),
{
    let mut s = stem.clone();
    s.push('.');
    push_decimal(&mut s, index as u64);
    s.append(".bin");
    assert(s@ =~= segment_name(stem@, index as nat));
    s
}

/// `{stem}.{index}.bin.active`: the name of a segment that is being written.
pub fn active_path(stem: &String, index: u32) -> (s: String)
    ensures
        s@ == active_name(stem@, index as nat),
{
    let mut s = file_path(stem, index);
    s.append(".active");
    s
}

fn has_active_extension(name: &String) -> (b: bool)
    ensures
        b == is_active(name@),
{
    let chars = to_chars(name.as_str());
    let suffix = to_chars(".active");
    ends_with(&chars, &suffix) && chars.len() > suffix.len()
}

/// Whether a segment that is `age` old is to be rotated: a rotation period is
/// set and over.
pub fn rotation_due(period: Option<Duration>, age: Duration) -> (b: bool)
    ensures
        b == (period matches Some(p) && age@ >= p@),
{
    match period {
        Some(p) => age.at_least(p),
        None => false,
    }
}

impl RotatingWriter {
    /// The writer's books agree and its files are in order.
    pub closed spec fn inv(self) -> bool {
        &&& self.flush_state.inv()
        &&& self@.wf()
        &&& files_inv(self@)
    }

    /// What every writer keeps: the books agree, and in every segment without
    /// a failed file operation each location reference comes after its
    /// definition in that same segment.
    pub proof fn lemma_inv(self)
        requires
            self.inv(),
        ensures
            self@.wf(),
            files_inv(self@),
    {
    }

    fn start(stem: String, first_name: String, max_file_size: u64, max_total_size: u64) -> (w:
        RotatingWriter)
        ensures
            w.inv(),
            w@ == RotationModel::started(
                stem@,
                first_name@,
                max_file_size as nat,
                max_total_size as nat,
            ),
    {
        let mut files: Vec<SegmentFile> = Vec::new();
        let ghost first = first_name@;
        files.push(SegmentFile { name: first_name, size: HEADER_SIZE });
        let w = RotatingWriter {
            stem,
            max_file_size,
            max_total_size,
            files,
            total_size: HEADER_SIZE,
            current_size: HEADER_SIZE,
            next_index: 1,
            stopped: false,
            rotated: false,
            segment_metadata: None,
            flush_state: FlushState::new(),
            todo: Vec::new(),
            pending: Pending::Nothing,
            log: Ghost(SegmentLog { segment: Seq::empty(), sealed: Seq::empty(), damaged: false }),
        };
        proof {
            let m = RotationModel::started(
                stem@,
                first,
                max_file_size as nat,
                max_total_size as nat,
            );
            assert(w@.files =~= m.files);
            assert(w@.todo =~= m.todo);
            assert(w@ =~= m);
            w.flush_state.lemma_inv();
            reveal_with_fuel(crate::telemetry::rotation::sum_sizes, 2);
            assert(m.files.drop_last() =~= Seq::empty());
        }
        w
    }

    /// A writer whose first segment, `{stem}.0.bin.active`, was just created
    /// with its header.
    pub fn new(stem: String, max_file_size: u64, max_total_size: u64) -> (w: RotatingWriter)
        ensures
            w.inv(),
            w@ == RotationModel::started(
                stem@,
                active_name(stem@, 0),
                max_file_size as nat,
                max_total_size as nat,
            ),
    {
        let first = active_path(&stem, 0);
        RotatingWriter::start(stem, first, max_file_size, max_total_size)
    }

    /// A writer that writes to a single file with no rotation or eviction. The
    /// file `name`, whose stem is `stem`, was just created with its header.
    pub fn single_file(name: String, stem: String) -> (w: RotatingWriter)
        ensures
            w.inv(),
            w@ == RotationModel::started(stem@, name@, u64::MAX as nat, u64::MAX as nat),
    {
        RotatingWriter::start(stem, name, u64::MAX, u64::MAX)
    }

    /// Whether the next step is a file operation.
    fn needs_op(&self) -> (b: bool)
        requires
            self@.wf(),
        ensures
            b == self@.needs_op(),
    {
        let n: usize = self.todo.len();
        if n == 0 {
            return false;
        }
        assert(self@.todo.last() == step_model(self.todo@[n - 1]));
        assert(self@.files.last().0 == self.files@.last().name@);
        match &self.todo[n - 1] {
            Step::Write(_) => !self.stopped,
            Step::Flush => true,
            Step::FlushUnlessStopped => !self.stopped,
            Step::Evict => self.total_size > self.max_total_size && self.files.len() > 1,
            Step::MaybeRotate => false,
            Step::SealSegment => true,
            Step::SealIfActive => has_active_extension(&self.files[self.files.len() - 1].name),
            Step::CreateSegment => true,
            Step::WriteMetadata => self.segment_metadata.is_some(),
            Step::FinishRotation => false,
        }
    }

    /// Does the next step, which is no file operation.
    fn skip(&mut self)
        requires
            old(self).inv(),
            old(self)@.pending is Nothing,
            old(self)@.todo.len() > 0,
            !old(self)@.needs_op(),
        ensures
            final(self).inv(),
            final(self)@ == old(self)@.skipped(),
    {
        let ghost before = self@;
        proof {
            lemma_books_agree(before, 0, 0);
            lemma_skip_keeps_files(before);
        }
        let step = self.todo.pop();
        assert(step is Some);
        assert(step_model(step->0) == before.todo.last());
        assert(step_models(self.todo@) =~= before.todo.drop_last());
        match step {
            Some(Step::Evict) => {
                if self.total_size > self.max_total_size {
                    self.stopped = true;
                }
            },
            Some(Step::MaybeRotate) => {
                if !self.stopped && self.current_size > self.max_file_size {
                    self.todo.push(Step::Evict);
                    self.todo.push(Step::FinishRotation);
                    self.todo.push(Step::WriteMetadata);
                    self.todo.push(Step::CreateSegment);
                    self.todo.push(Step::SealSegment);
                    self.todo.push(Step::Flush);
                    assert(step_models(self.todo@) =~= before.todo.drop_last()
                        + rotation_steps());
                }
            },
            Some(Step::FinishRotation) => {
                self.rotated = true;
                self.flush_state.on_rotate();
            },
            _ => {},
        }
        assert(self@ =~= before.skipped());
    }

    /// Does every next step that is no file operation.
    fn settle(&mut self)
        requires
            old(self).inv(),
            old(self)@.pending is Nothing,
        ensures
            final(self).inv(),
            final(self)@ == old(self)@.settled(),
            final(self)@.pending is Nothing,
            final(self)@.next_index == old(self)@.next_index,
            final(self)@.todo.len() == 0 || final(self)@.needs_op(),
    {
        let ghost start = self@;
        loop
            invariant
                self.inv(),
                self@.pending is Nothing,
                self@.settled() == start.settled(),
                self@.next_index == start.next_index,
            ensures
                self@.todo.len() == 0 || self@.needs_op(),
            decreases load(self@.todo),
        {
            if self.todo.len() == 0 || self.needs_op() {
                break;
            }
            proof {
                crate::telemetry::rotation::lemma_skip_lightens(self@);
                lemma_skip_keeps_files(self@);
            }
            self.skip();
        }
    }

    /// Renames the current segment to its sealed name.
    fn rename_op(&self) -> (op: FileOp)
        requires
            self@.wf(),
        ensures
            op@ == (OpModel::Rename { from: self@.files.last().0, to: self@.sealed_name() }),
    {
        let last: usize = self.files.len() - 1;
        FileOp::Rename {
            from: self.files[last].name.clone(),
            to: file_path(&self.stem, self.next_index - 1),
        }
    }

    /// Issues the next step, which is a file operation.
    fn issue(&mut self, now_nanos: u64) -> (op: FileOp)
        requires
            old(self).inv(),
            old(self)@.pending is Nothing,
            old(self)@.needs_op(),
            old(self)@.next_index < u32::MAX,
        ensures
            final(self).inv(),
            final(self)@ == old(self)@.issued(now_nanos),
            op@ == old(self)@.op(now_nanos),
    {
        let ghost before = self@;
        proof {
            lemma_books_agree(before, now_nanos, 0);
            lemma_issue_keeps_files(before, now_nanos);
        }
        let step = self.todo.pop();
        assert(step is Some);
        assert(step_model(step->0) == before.todo.last());
        assert(step_models(self.todo@) =~= before.todo.drop_last());
        let op = match step {
            Some(Step::Write(event)) => {
                self.pending = Pending::Event(Ghost(event@));
                FileOp::Write { event }
            },
            Some(Step::Evict) => {
                self.todo.push(Step::Evict);
                assert(step_models(self.todo@) =~= before.todo);
                proof {
                    crate::telemetry::rotation_laws::lemma_sum_drop_first(before.files);
                }
                let oldest = self.files.remove(0);
                self.total_size = self.total_size - oldest.size;
                self.pending = Pending::Remove;
                assert(file_models(self.files@) =~= before.files.drop_first());
                FileOp::Remove { name: oldest.name }
            },
            Some(Step::SealSegment) => {
                self.pending = Pending::Seal;
                self.rename_op()
            },
            Some(Step::SealIfActive) => {
                self.pending = Pending::Seal;
                self.rename_op()
            },
            Some(Step::CreateSegment) => {
                let name = active_path(&self.stem, self.next_index);
                self.next_index = self.next_index + 1;
                self.pending = Pending::Create;
                FileOp::Create { name }
            },
            Some(Step::WriteMetadata) => {
                let entries = match &self.segment_metadata {
                    Some(entries) => clone_entries(entries),
                    None => Vec::new(),
                };
                let event = TelemetryEvent::SegmentMetadata { timestamp_nanos: now_nanos, entries };
                self.pending = Pending::Metadata(Ghost(event@));
                FileOp::Write { event }
            },
            _ => {
                self.pending = Pending::Flush;
                FileOp::Flush
            },
        };
        assert(self@ =~= before.issued(now_nanos));
        op
    }

    /// The next file operation of the operation under way, or `None` at its
    /// end. `now_nanos` is the wall-clock time that stamps segment metadata.
    pub fn next_op(&mut self, now_nanos: u64) -> (op: Option<FileOp>)
        requires
            old(self).inv(),
            old(self)@.pending is Nothing,
            old(self)@.next_index < u32::MAX,
        ensures
            final(self).inv(),
            old(self)@.settled().todo.len() == 0 ==> op is None && final(self)@
                == old(self)@.settled(),
            old(self)@.settled().todo.len() > 0 ==> op is Some && op->0@
                == old(self)@.settled().op(now_nanos) && final(self)@
                == old(self)@.settled().issued(now_nanos),
    {
        self.settle();
        if self.todo.len() == 0 {
            None
        } else {
            Some(self.issue(now_nanos))
        }
    }

    /// Adds `bytes` to the current segment.
    fn grow(&mut self, bytes: u64)
        requires
            old(self)@.wf(),
            old(self)@.total_size + bytes <= u64::MAX,
        ensures
            final(self)@ == old(self)@.grown(bytes as nat),
            final(self).flush_state == old(self).flush_state,
            final(self).todo == old(self).todo,
            final(self).log == old(self).log,
    {
        let ghost before = self@;
        let last: usize = self.files.len() - 1;
        proof {
            assert(before.files.last().1 <= before.total_size) by {
                reveal_with_fuel(crate::telemetry::rotation::sum_sizes, 2);
            }
        }
        self.current_size = self.current_size + bytes;
        self.total_size = self.total_size + bytes;
        let name = self.files[last].name.clone();
        self.files.set(last, SegmentFile { name, size: self.current_size });
        assert(file_models(self.files@) =~= before.files.update(
            last as int,
            (before.files.last().0, before.current_size + bytes as nat),
        ));
        assert(self@ =~= before.grown(bytes as nat));
    }

    /// Whether the total can take the growth if the pending operation writes
    /// `bytes`.
    pub fn can_grow(&self, bytes: u64) -> (b: bool)
        requires
            self.inv(),
        ensures
            b == (self@.total_size + self@.growth(bytes as nat) <= u64::MAX),
    {
        let growth: u64 = match &self.pending {
            Pending::Event(_) => bytes,
            Pending::Metadata(_) => bytes,
            Pending::Create => HEADER_SIZE,
            _ => 0,
        };
        self.total_size <= u64::MAX - growth
    }

    /// Reports that the pending file operation succeeded. `bytes` is the size
    /// of the encoded event, and without effect for other operations.
    pub fn succeeded(&mut self, bytes: u64)
        requires
            old(self).inv(),
            old(self)@.total_size + old(self)@.growth(bytes as nat) <= u64::MAX,
        ensures
            final(self).inv(),
            final(self)@ == old(self)@.succeeded(bytes as nat),
    {
        let ghost before = self@;
        proof {
            lemma_books_agree(before, 0, bytes as nat);
            lemma_success_keeps_files(before, bytes as nat);
        }
        let mut pending = Pending::Nothing;
        std::mem::swap(&mut pending, &mut self.pending);
        let ghost done = RotationModel { pending: PendingModel::Nothing, ..before };
        assert(self@ =~= done);
        match pending {
            Pending::Event(event) => {
                self.grow(bytes);
                self.log = Ghost(
                    SegmentLog { segment: self.log@.segment.push(event@), ..self.log@ },
                );
                if self.total_size > self.max_total_size {
                    self.todo.push(Step::Evict);
                    self.todo.push(Step::Flush);
                    assert(step_models(self.todo@) =~= before.todo.push(StepModel::Evict).push(
                        StepModel::Flush,
                    ));
                }
            },
            Pending::Metadata(event) => {
                self.grow(bytes);
                self.log = Ghost(
                    SegmentLog { segment: self.log@.segment.push(event@), ..self.log@ },
                );
            },
            Pending::Seal => {
                let last: usize = self.files.len() - 1;
                let name = file_path(&self.stem, self.next_index - 1);
                let size: u64 = self.files[last].size;
                self.files.set(last, SegmentFile { name, size });
                assert(file_models(self.files@) =~= before.files.update(
                    last as int,
                    (before.sealed_name(), before.files.last().1),
                ));
            },
            Pending::Create => {
                let name = active_path(&self.stem, self.next_index - 1);
                self.current_size = HEADER_SIZE;
                self.total_size = self.total_size + HEADER_SIZE;
                let ghost file = (name@, HEADER_SIZE as nat);
                self.files.push(SegmentFile { name, size: HEADER_SIZE });
                assert(file_models(self.files@) =~= before.files.push(file));
                self.log = Ghost(
                    SegmentLog {
                        segment: Seq::empty(),
                        sealed: self.log@.sealed.push((self.log@.segment, self.log@.damaged)),
                        damaged: false,
                    },
                );
            },
            _ => {},
        }
        assert(self@ =~= before.succeeded(bytes as nat));
    }

    /// Reports that the pending file operation failed. Returns whether the
    /// operation under way goes on all the same, which it does when a removal
    /// failed.
    pub fn failed(&mut self) -> (goes_on: bool)
        requires
            old(self).inv(),
        ensures
            final(self).inv(),
            final(self)@ == old(self)@.failed(),
            goes_on == (old(self)@.pending is Remove),
    {
        let ghost before = self@;
        proof {
            lemma_books_agree(before, 0, 0);
            lemma_failure_keeps_files(before);
        }
        let goes_on = match &self.pending {
            Pending::Remove => true,
            _ => false,
        };
        self.pending = Pending::Nothing;
        if !goes_on {
            self.todo = Vec::new();
            self.log = Ghost(SegmentLog { damaged: true, ..self.log@ });
            assert(step_models(self.todo@) =~= Seq::empty());
        }
        assert(self@ =~= before.failed());
        goes_on
    }

    /// Whether at least `n` location ids are left.
    pub fn has_ids_for(&self, n: usize) -> (b: bool)
        requires
            self.inv(),
        ensures
            b == (self@.locations.names.len() + n <= u16::MAX),
            b ==> forall|raws: Seq<RawEvent>|
                raws.len() <= n ==> batch_has_room(self@.locations, raws),
    {
        let b = self.flush_state.ids_left() as usize >= n;
        proof {
            self.flush_state.lemma_inv();
            if b {
                assert forall|raws: Seq<RawEvent>| raws.len() <= n implies batch_has_room(
                    self@.locations,
                    raws,
                ) by {
                    lemma_room_by_count(self@.locations, raws);
                }
            }
        }
        b
    }

    /// Starts to write one event. Its definitions and the event itself land in
    /// the same file; rotation is checked afterwards.
    pub fn write_event(&mut self, event: &RawEvent)
        requires
            old(self).inv(),
            old(self)@.idle(),
            spawn_location(*event) matches Some(location)
                ==> old(self)@.locations.has_room(location),
        ensures
            final(self).inv(),
            final(self)@ == old(self)@.with_batch(seq![*event]),
    {
        let ghost before = self@;
        let ghost raws = seq![*event];
        proof {
            assert(raws.take(0) =~= Seq::empty());
            assert(raws.drop_last() =~= Seq::empty());
            reveal_with_fuel(batch_state, 2);
            reveal_with_fuel(batch_events, 2);
            assert(batch_has_room(before.locations, raws));
            lemma_batch_keeps_files(before, raws);
        }
        let resolved = self.flush_state.resolve(event);
        let events = resolved.into_events();
        assert(event_models(events@) =~= batch_events(before.locations, raws));
        self.queue_writes(events);
        assert(self@ =~= before.with_batch(raws));
    }

    /// Starts to write a group of events that land in the same file. The file
    /// may exceed `max_file_size` then; rotation is deferred until the entire
    /// batch is written.
    pub fn write_atomic(&mut self, events: &Vec<RawEvent>)
        requires
            old(self).inv(),
            old(self)@.idle(),
            batch_has_room(old(self)@.locations, events@),
        ensures
            final(self).inv(),
            final(self)@ == old(self)@.with_batch(events@),
    {
        let ghost before = self@;
        proof {
            lemma_batch_keeps_files(before, events@);
        }
        let mut all: Vec<TelemetryEvent> = Vec::new();
        let mut i: usize = 0;
        assert(event_models(all@) =~= batch_events(before.locations, events@.take(0)));
        while i < events.len()
            invariant
                i <= events@.len(),
                batch_has_room(before.locations, events@),
                self.flush_state.inv(),
                self.flush_state@ == batch_state(before.locations, events@.take(i as int)),
                event_models(all@) == batch_events(before.locations, events@.take(i as int)),
                self@ == (RotationModel { locations: self.flush_state@, ..before }),
            decreases events@.len() - i,
        {
            let ghost next = events@.take(i + 1);
            let ghost sofar = all@;
            assert(next.drop_last() =~= events@.take(i as int));
            assert(next.last() == events@[i as int]);
            assert(spawn_location(events@[i as int]) == spawn_location(events[i as int]));
            let resolved = self.flush_state.resolve(&events[i]);
            let mut more = resolved.into_events();
            let ghost added = more@;
            all.append(&mut more);
            assert(event_models(all@) =~= event_models(sofar) + event_models(added));
            i = i + 1;
            assert(self@ =~= (RotationModel { locations: self.flush_state@, ..before }));
        }
        assert(events@.take(i as int) =~= events@);
        self.queue_writes(all);
        assert(self@ =~= before.with_batch(events@));
    }

    /// Queues the writing of `events` in order, with the rotation check last.
    fn queue_writes(&mut self, events: Vec<TelemetryEvent>)
        requires
            old(self)@.idle(),
        ensures
            final(self)@ == (RotationModel {
                todo: seq![StepModel::MaybeRotate] + write_steps(event_models(events@)),
                ..old(self)@
            }),
            final(self).flush_state == old(self).flush_state,
    {
        let ghost before = self@;
        let ghost models = event_models(events@);
        let mut left = events;
        self.todo.push(Step::MaybeRotate);
        assert(models.skip(models.len() as int) =~= Seq::empty());
        assert(step_models(self.todo@) =~= seq![StepModel::MaybeRotate] + write_steps(
            models.skip(models.len() as int),
        ));
        while left.len() > 0
            invariant
                left@.len() <= models.len(),
                event_models(left@) == models.take(left@.len() as int),
                step_models(self.todo@) == seq![StepModel::MaybeRotate] + write_steps(
                    models.skip(left@.len() as int),
                ),
                self@ == (RotationModel { todo: step_models(self.todo@), ..before }),
                self.flush_state == old(self).flush_state,
            decreases left@.len(),
        {
            let ghost n = left@.len() as int;
            let ghost steps = step_models(self.todo@);
            let ghost held = left@;
            match left.pop() {
                Some(event) => {
                    assert(event@ == models[n - 1]) by {
                        assert(event_models(held)[n - 1] == models.take(n)[n - 1]);
                    }
                    self.todo.push(Step::Write(event));
                    assert(step_models(self.todo@) =~= steps.push(StepModel::Write(event@)));
                    let rest = Ghost(models.skip(n - 1));
                    assert(rest@.drop_first() =~= models.skip(n));
                    assert(step_models(self.todo@) =~= seq![StepModel::MaybeRotate] + write_steps(
                        models.skip(n - 1),
                    ));
                    assert(event_models(left@) =~= models.take(n - 1)) by {
                        assert(event_models(left@) =~= event_models(held).drop_last());
                    }
                    assert(self@ =~= (RotationModel { todo: step_models(self.todo@), ..before }));
                },
                None => {},
            }
        }
        assert(models.skip(0) =~= models);
    }

    /// Starts to rotate: the current segment is flushed and sealed, and a new one
    /// begins. A writer that has stopped does not rotate.
    pub fn rotate(&mut self)
        requires
            old(self).inv(),
            old(self)@.idle(),
        ensures
            final(self).inv(),
            final(self)@ == old(self)@.with_rotation(),
    {
        let ghost before = self@;
        proof {
            lemma_rotation_keeps_files(before);
        }
        if !self.stopped {
            self.todo.push(Step::Evict);
            self.todo.push(Step::FinishRotation);
            self.todo.push(Step::WriteMetadata);
            self.todo.push(Step::CreateSegment);
            self.todo.push(Step::SealSegment);
            self.todo.push(Step::Flush);
            assert(step_models(self.todo@) =~= rotation_steps());
        }
        assert(self@ =~= before.with_rotation());
    }

    /// Starts to flush the current file.
    pub fn flush(&mut self)
        requires
            old(self).inv(),
            old(self)@.idle(),
        ensures
            final(self).inv(),
            final(self)@ == old(self)@.with_flush(),
    {
        let ghost before = self@;
        proof {
            lemma_single_keeps_files(before, Seq::empty());
        }
        self.todo.push(Step::FlushUnlessStopped);
        assert(self@ =~= before.with_flush());
    }

    /// Starts to seal the current segment: flush and rename `.active` → `.bin`.
    pub fn seal(&mut self)
        requires
            old(self).inv(),
            old(self)@.idle(),
        ensures
            final(self).inv(),
            final(self)@ == old(self)@.with_seal(),
    {
        let ghost before = self@;
        proof {
            lemma_single_keeps_files(before, Seq::empty());
        }
        self.todo.push(Step::SealIfActive);
        self.todo.push(Step::FlushUnlessStopped);
        assert(self@ =~= before.with_seal());
    }

    /// Sets key-value metadata to be written at the start of each new segment
    /// and starts to write it to the current one.
    pub fn set_segment_metadata(&mut self, entries: Vec<(String, String)>)
        requires
            old(self).inv(),
            old(self)@.idle(),
        ensures
            final(self).inv(),
            final(self)@ == old(self)@.with_metadata(entry_chars(entries@)),
    {
        let ghost before = self@;
        let ghost chars = entry_chars(entries@);
        proof {
            lemma_single_keeps_files(before, chars);
        }
        self.segment_metadata = Some(entries);
        self.todo.push(Step::WriteMetadata);
        assert(self@ =~= before.with_metadata(chars));
    }

    /// Whether the writer rotated to a new file since the last call.
    pub fn take_rotated(&mut self) -> (b: bool)
        requires
            old(self).inv(),
        ensures
            final(self).inv(),
            b == old(self)@.rotated,
            final(self)@ == (RotationModel { rotated: false, ..old(self)@ }),
    {
        let ghost before = self@;
        let b = self.rotated;
        self.rotated = false;
        proof {
            let after = RotationModel { rotated: false, ..before };
            assert(self@ =~= after);
            lemma_rotated_flag_is_free(before, false);
        }
        b
    }

    /// Whether the writer has hit the total size cap and drops further events.
    pub fn is_stopped(&self) -> (b: bool)
        ensures
            b == self@.stopped,
    {
        self.stopped
    }

    /// The total size of the files that are kept.
    pub fn total_size(&self) -> (n: u64)
        ensures
            n == self@.total_size,
    {
        self.total_size
    }

    /// The size of the current file.
    pub fn current_size(&self) -> (n: u64)
        ensures
            n == self@.current_size,
    {
        self.current_size
    }

    /// How many files are kept.
    pub fn file_count(&self) -> (n: usize)
        ensures
            n == self@.files.len(),
    {
        self.files.len()
    }

    /// The name of the current file.
    pub fn current_name(&self) -> (name: &String)
        requires
            self.inv(),
        ensures
            name@ == self@.files.last().0,
    {
        &self.files[self.files.len() - 1].name
    }

    /// The index that the next segment gets.
    pub fn next_index(&self) -> (n: u32)
        ensures
            n == self@.next_index,
    {
        self.next_index
    }

    /// Whether no operation is under way.
    pub fn is_idle(&self) -> (b: bool)
        ensures
            b == self@.idle(),
    {
        match &self.pending {
            Pending::Nothing => self.todo.len() == 0,
            _ => false,
        }
    }
}

/// The value of a file operation has the names and the event of the operation.
pub proof fn lemma_value_of_a_file_operation(op: FileOp)
    ensures
        match op {
            FileOp::Create { name } => op@ matches OpModel::Create { name: n } && n == name@,
            FileOp::Write { event } => op@ matches OpModel::Write { event: e } && e == event@,
            FileOp::Flush => op@ is Flush,
            FileOp::Rename { from, to } => op@ matches OpModel::Rename { from: f, to: t } && f
                == from@ && t == to@,
            FileOp::Remove { name } => op@ matches OpModel::Remove { name: n } && n == name@,
        },
{
}

} // verus!
