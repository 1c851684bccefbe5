//! The rules of segment rotation: what a rotating writer does next, what it
//! knows about its files, and what holds of them.
//!
//! An operation on the writer is a list of steps. A step that touches a file is
//! issued as a file operation and completed with its outcome; the others are
//! settled at once. A failed file operation ends the operation it belongs to.

use crate::telemetry::events::{EventModel, RawEvent};
use crate::telemetry::recorder::flush_state::{spawn_location, FlushModel};
use crate::text::{decimal, has_suffix};
use vstd::prelude::*;

verus! {

/// Size in bytes of the header at the start of every segment.
pub const HEADER_SIZE: u64 = 12;

/// The file name of a sealed segment: `{stem}.{index}.bin`.
pub open spec fn segment_name(stem: Seq<char>, index: nat) -> Seq<char> {
    stem + seq!['.'] + decimal(index) + ".bin"@
}

/// The file name of the segment being written: `{stem}.{index}.bin.active`.
pub open spec fn active_name(stem: Seq<char>, index: nat) -> Seq<char> {
    segment_name(stem, index) + ".active"@
}

/// Whether the extension of the file name `name` is `active`.
pub open spec fn is_active(name: Seq<char>) -> bool {
    has_suffix(name, ".active"@) && name.len() > ".active"@.len()
}

/// One step of an operation on the writer.
pub enum StepModel {
    /// Append an event to the current segment, unless the writer has stopped.
    Write(EventModel),
    /// Flush the current segment.
    Flush,
    /// Flush the current segment, unless the writer has stopped.
    FlushUnlessStopped,
    /// Remove the oldest segments until the total fits the budget or only the
    /// current segment is left; stop if the budget is still exceeded.
    Evict,
    /// Start a rotation if the current segment has outgrown its limit.
    MaybeRotate,
    /// Give the current segment its sealed name.
    SealSegment,
    /// Give the current segment its sealed name if its name is an active one.
    SealIfActive,
    /// Create the next segment.
    CreateSegment,
    /// Write the segment metadata, if there is any.
    WriteMetadata,
    /// Note the rotation: the new file owes every definition again.
    FinishRotation,
}

/// A file operation that was issued and whose outcome is not known yet.
pub enum PendingModel {
    Nothing,
    Event(EventModel),
    Metadata(EventModel),
    Flush,
    Seal,
    Create,
    Remove,
}

/// A file operation, on files of the trace directory.
pub enum OpModel {
    /// Create the file, make it the current one and write the header to it.
    Create { name: Seq<char> },
    /// Append the encoded event to the current file.
    Write { event: EventModel },
    /// Flush the current file.
    Flush,
    Rename { from: Seq<char>, to: Seq<char> },
    Remove { name: Seq<char> },
}

/// The value of a rotating writer.
#[verifier::ext_equal]
pub struct RotationModel {
    pub stem: Seq<char>,
    pub max_file_size: nat,
    pub max_total_size: nat,
    /// Name and size of each segment, oldest first; the last one is current.
    pub files: Seq<(Seq<char>, nat)>,
    pub total_size: nat,
    pub current_size: nat,
    pub next_index: nat,
    /// Set once the budget is exceeded by the current segment alone.
    pub stopped: bool,
    /// Set by a rotation until it is asked for.
    pub rotated: bool,
    pub metadata: Option<Seq<(Seq<char>, Seq<char>)>>,
    pub locations: FlushModel,
    /// The steps left of the current operation; the last one comes next.
    pub todo: Seq<StepModel>,
    pub pending: PendingModel,
    /// The events appended to the current segment.
    pub segment: Seq<EventModel>,
    /// The segments before it: their events, and whether they were damaged.
    pub sealed: Seq<(Seq<EventModel>, bool)>,
    /// Whether a file operation failed since the current segment began.
    pub damaged: bool,
}

/// The sum of the segment sizes.
pub open spec fn sum_sizes(files: Seq<(Seq<char>, nat)>) -> nat
    decreases files.len(),
{
    if files.len() == 0 {
        0
    } else {
        sum_sizes(files.drop_last()) + files.last().1
    }
}

/// How much work a step can stand for.
pub open spec fn step_load(step: StepModel) -> nat {
    match step {
        StepModel::Write(_) => 3,
        StepModel::MaybeRotate => 7,
        _ => 1,
    }
}

/// How much work a list of steps can stand for.
pub open spec fn load(todo: Seq<StepModel>) -> nat
    decreases todo.len(),
{
    if todo.len() == 0 {
        0
    } else {
        load(todo.drop_last()) + step_load(todo.last())
    }
}

/// The steps of a rotation, the last one first to come.
pub open spec fn rotation_steps() -> Seq<StepModel> {
    seq![
        StepModel::Evict,
        StepModel::FinishRotation,
        StepModel::WriteMetadata,
        StepModel::CreateSegment,
        StepModel::SealSegment,
        StepModel::Flush,
    ]
}

/// The steps that write `events` in order, the last one first to come.
pub open spec fn write_steps(events: Seq<EventModel>) -> Seq<StepModel>
    decreases events.len(),
{
    if events.len() == 0 {
        Seq::empty()
    } else {
        write_steps(events.drop_first()).push(StepModel::Write(events[0]))
    }
}

/// What the recorded events `raws` resolve to, one after the other.
pub open spec fn batch_events(m: FlushModel, raws: Seq<RawEvent>) -> Seq<EventModel>
    decreases raws.len(),
{
    if raws.len() == 0 {
        Seq::empty()
    } else {
        batch_events(m, raws.drop_last()) + batch_state(m, raws.drop_last()).events_for(raws.last())
    }
}

/// The interning state after `raws` are resolved one after the other.
pub open spec fn batch_state(m: FlushModel, raws: Seq<RawEvent>) -> FlushModel
    decreases raws.len(),
{
    if raws.len() == 0 {
        m
    } else {
        batch_state(m, raws.drop_last()).after(raws.last())
    }
}

/// Whether ids are left for the locations of `raws`.
pub open spec fn batch_has_room(m: FlushModel, raws: Seq<RawEvent>) -> bool {
    forall|k: int|
        0 <= k < raws.len() ==> (#[trigger] spawn_location(raws[k]) matches Some(location)
            ==> batch_state(m, raws.take(k)).has_room(location))
}

impl RotationModel {
    /// The state right after the first segment was created with its header.
    pub open spec fn started(
        stem: Seq<char>,
        first_name: Seq<char>,
        max_file_size: nat,
        max_total_size: nat,
    ) -> RotationModel {
        RotationModel {
            stem,
            max_file_size,
            max_total_size,
            files: seq![(first_name, HEADER_SIZE as nat)],
            total_size: HEADER_SIZE as nat,
            current_size: HEADER_SIZE as nat,
            next_index: 1,
            stopped: false,
            rotated: false,
            metadata: None,
            locations: FlushModel::fresh(),
            todo: Seq::empty(),
            pending: PendingModel::Nothing,
            segment: Seq::empty(),
            sealed: Seq::empty(),
            damaged: false,
        }
    }

    /// The books agree: there is a current segment, its size is the current
    /// size, and the sizes add up to the total.
    pub open spec fn wf(self) -> bool {
        &&& self.files.len() >= 1
        &&& self.files.last().1 == self.current_size
        &&& self.total_size == sum_sizes(self.files)
        &&& self.next_index >= 1
        &&& self.locations.wf()
    }

    /// Whether no operation is under way.
    pub open spec fn idle(self) -> bool {
        self.todo.len() == 0 && self.pending is Nothing
    }

    pub open spec fn over_budget(self) -> bool {
        self.total_size > self.max_total_size
    }

    pub open spec fn wants_rotation(self) -> bool {
        !self.stopped && self.current_size > self.max_file_size
    }

    /// The state with the current segment grown by `bytes`.
    pub open spec fn grown(self, bytes: nat) -> RotationModel {
        let size = self.current_size + bytes;
        RotationModel {
            current_size: size,
            total_size: self.total_size + bytes,
            files: self.files.update(self.files.len() - 1, (self.files.last().0, size)),
            ..self
        }
    }

    /// The state once the oldest segment is given up.
    pub open spec fn without_oldest(self) -> RotationModel {
        RotationModel {
            total_size: (self.total_size - self.files[0].1) as nat,
            files: self.files.drop_first(),
            ..self
        }
    }

    /// The state once the current segment has its sealed name.
    pub open spec fn renamed(self) -> RotationModel {
        RotationModel {
            files: self.files.update(
                self.files.len() - 1,
                (self.sealed_name(), self.files.last().1),
            ),
            ..self
        }
    }

    /// The sealed name of the current segment.
    pub open spec fn sealed_name(self) -> Seq<char> {
        segment_name(self.stem, (self.next_index - 1) as nat)
    }

    /// Whether the next step is a file operation.
    pub open spec fn needs_op(self) -> bool {
        &&& self.todo.len() > 0
        &&& match self.todo.last() {
            StepModel::Write(_) => !self.stopped,
            StepModel::Flush => true,
            StepModel::FlushUnlessStopped => !self.stopped,
            StepModel::Evict => self.over_budget() && self.files.len() > 1,
            StepModel::MaybeRotate => false,
            StepModel::SealSegment => true,
            StepModel::SealIfActive => is_active(self.files.last().0),
            StepModel::CreateSegment => true,
            StepModel::WriteMetadata => self.metadata is Some,
            StepModel::FinishRotation => false,
        }
    }

    /// The metadata event of a segment.
    pub open spec fn metadata_event(self, now: u64) -> EventModel {
        EventModel::SegmentMetadata { timestamp_nanos: now, entries: self.metadata->0 }
    }

    /// The file operation that the next step stands for.
    pub open spec fn op(self, now: u64) -> OpModel {
        match self.todo.last() {
            StepModel::Write(event) => OpModel::Write { event },
            StepModel::Evict => OpModel::Remove { name: self.files[0].0 },
            StepModel::SealSegment => OpModel::Rename {
                from: self.files.last().0,
                to: self.sealed_name(),
            },
            StepModel::SealIfActive => OpModel::Rename {
                from: self.files.last().0,
                to: self.sealed_name(),
            },
            StepModel::CreateSegment => OpModel::Create {
                name: active_name(self.stem, self.next_index),
            },
            StepModel::WriteMetadata => OpModel::Write { event: self.metadata_event(now) },
            _ => OpModel::Flush,
        }
    }

    /// The state once the next step is issued as a file operation. An eviction
    /// step stays: more segments may have to go.
    pub open spec fn issued(self, now: u64) -> RotationModel {
        let rest = RotationModel { todo: self.todo.drop_last(), ..self };
        match self.todo.last() {
            StepModel::Write(event) => RotationModel { pending: PendingModel::Event(event), ..rest },
            StepModel::Evict => RotationModel {
                pending: PendingModel::Remove,
                ..self.without_oldest()
            },
            StepModel::SealSegment => RotationModel { pending: PendingModel::Seal, ..rest },
            StepModel::SealIfActive => RotationModel { pending: PendingModel::Seal, ..rest },
            StepModel::CreateSegment => RotationModel {
                pending: PendingModel::Create,
                next_index: self.next_index + 1,
                ..rest
            },
            StepModel::WriteMetadata => RotationModel {
                pending: PendingModel::Metadata(self.metadata_event(now)),
                ..rest
            },
            _ => RotationModel { pending: PendingModel::Flush, ..rest },
        }
    }

    /// The state once a next step that is no file operation is done.
    pub open spec fn skipped(self) -> RotationModel {
        let rest = RotationModel { todo: self.todo.drop_last(), ..self };
        match self.todo.last() {
            StepModel::Evict => RotationModel { stopped: self.stopped || self.over_budget(), ..rest },
            StepModel::MaybeRotate => if self.wants_rotation() {
                RotationModel { todo: rest.todo + rotation_steps(), ..rest }
            } else {
                rest
            },
            StepModel::FinishRotation => RotationModel {
                rotated: true,
                locations: self.locations.rotated(),
                ..rest
            },
            _ => rest,
        }
    }

    /// How many bytes the pending operation adds when it succeeds with `bytes`
    /// bytes written.
    pub open spec fn growth(self, bytes: nat) -> nat {
        match self.pending {
            PendingModel::Event(_) => bytes,
            PendingModel::Metadata(_) => bytes,
            PendingModel::Create => HEADER_SIZE as nat,
            _ => 0,
        }
    }

    /// The state once the pending operation has succeeded with `bytes` bytes
    /// written.
    pub open spec fn succeeded(self, bytes: nat) -> RotationModel {
        let done = RotationModel { pending: PendingModel::Nothing, ..self };
        match self.pending {
            PendingModel::Event(event) => {
                let grown = RotationModel { segment: self.segment.push(event), ..done.grown(bytes) };
                if grown.over_budget() {
                    RotationModel {
                        todo: grown.todo.push(StepModel::Evict).push(StepModel::Flush),
                        ..grown
                    }
                } else {
                    grown
                }
            },
            PendingModel::Metadata(event) => RotationModel {
                segment: self.segment.push(event),
                ..done.grown(bytes)
            },
            PendingModel::Seal => done.renamed(),
            PendingModel::Create => RotationModel {
                current_size: HEADER_SIZE as nat,
                total_size: self.total_size + HEADER_SIZE as nat,
                files: self.files.push(
                    (active_name(self.stem, (self.next_index - 1) as nat), HEADER_SIZE as nat),
                ),
                sealed: self.sealed.push((self.segment, self.damaged)),
                segment: Seq::empty(),
                damaged: false,
                ..done
            },
            _ => done,
        }
    }

    /// The state once the pending operation has failed: the rest of the
    /// operation is given up, except that a failed removal is passed over.
    pub open spec fn failed(self) -> RotationModel {
        let done = RotationModel { pending: PendingModel::Nothing, ..self };
        if self.pending is Remove {
            done
        } else {
            RotationModel { todo: Seq::empty(), damaged: true, ..done }
        }
    }

    /// The state once every next step that is no file operation is done.
    pub open spec fn settled(self) -> RotationModel
        decreases load(self.todo),
    {
        if self.todo.len() == 0 || self.needs_op() {
            self
        } else {
            proof {
                lemma_skip_lightens(self);
            }
            self.skipped().settled()
        }
    }

    /// The state with the steps of writing `raws` as one batch.
    pub open spec fn with_batch(self, raws: Seq<RawEvent>) -> RotationModel {
        RotationModel {
            locations: batch_state(self.locations, raws),
            todo: seq![StepModel::MaybeRotate] + write_steps(batch_events(self.locations, raws)),
            ..self
        }
    }

    /// The state with the steps of a rotation; with none once stopped.
    pub open spec fn with_rotation(self) -> RotationModel {
        RotationModel {
            todo: if self.stopped {
                Seq::empty()
            } else {
                rotation_steps()
            },
            ..self
        }
    }

    /// The state with the step of a flush.
    pub open spec fn with_flush(self) -> RotationModel {
        RotationModel { todo: seq![StepModel::FlushUnlessStopped], ..self }
    }

    /// The state with the steps of sealing: flush, then rename.
    pub open spec fn with_seal(self) -> RotationModel {
        RotationModel {
            todo: seq![StepModel::SealIfActive, StepModel::FlushUnlessStopped],
            ..self
        }
    }

    /// The state with new metadata and the step that writes it.
    pub open spec fn with_metadata(self, entries: Seq<(Seq<char>, Seq<char>)>) -> RotationModel {
        RotationModel { metadata: Some(entries), todo: seq![StepModel::WriteMetadata], ..self }
    }

    /// The state at the end of the operation under way if every file operation
    /// succeeds, an event taking `bytes` of it.
    pub open spec fn finished(self, now: u64, bytes: spec_fn(EventModel) -> nat) -> RotationModel
        decreases load(self.todo), self.files.len(),
    {
        if self.todo.len() == 0 {
            self
        } else if self.needs_op() {
            proof {
                lemma_op_progresses(self, now, bytes(self.op_event(now)));
            }
            self.issued(now).succeeded(bytes(self.op_event(now))).finished(now, bytes)
        } else {
            proof {
                lemma_skip_lightens(self);
            }
            self.skipped().finished(now, bytes)
        }
    }

    /// The event that the next file operation writes.
    pub open spec fn op_event(self, now: u64) -> EventModel {
        self.op(now)->event
    }
}

proof fn lemma_load_concat(a: Seq<StepModel>, b: Seq<StepModel>)
    ensures
        load(a + b) == load(a) + load(b),
    decreases b.len(),
{
    if b.len() == 0 {
        assert(a + b =~= a);
    } else {
        assert((a + b).drop_last() =~= a + b.drop_last());
        lemma_load_concat(a, b.drop_last());
    }
}

proof fn lemma_rotation_load()
    ensures
        load(rotation_steps()) == 6,
{
    reveal_with_fuel(load, 7);
    let s = rotation_steps();
    assert(s.drop_last() =~= s.take(5));
    assert(s.take(5).drop_last() =~= s.take(4));
    assert(s.take(4).drop_last() =~= s.take(3));
    assert(s.take(3).drop_last() =~= s.take(2));
    assert(s.take(2).drop_last() =~= s.take(1));
    assert(s.take(1).drop_last() =~= s.take(0));
}

/// A step without a file operation leaves less to do.
pub proof fn lemma_skip_lightens(m: RotationModel)
    requires
        m.todo.len() > 0,
        !m.needs_op(),
    ensures
        load(m.skipped().todo) < load(m.todo),
        m.skipped().files == m.files,
{
    if m.todo.last() is MaybeRotate && m.wants_rotation() {
        lemma_load_concat(m.todo.drop_last(), rotation_steps());
        lemma_rotation_load();
    }
}

/// A file operation that succeeds leaves less to do, or the same and one
/// segment fewer.
pub proof fn lemma_op_progresses(m: RotationModel, now: u64, bytes: nat)
    requires
        m.needs_op(),
    ensures
        ({
            let next = m.issued(now).succeeded(bytes);
            load(next.todo) < load(m.todo) || (load(next.todo) == load(m.todo) && next.files.len()
                < m.files.len())
        }),
{
    let rest = m.todo.drop_last();
    if m.todo.last() is Write {
        let more = rest.push(StepModel::Evict);
        assert(more.drop_last() =~= rest);
        assert(load(more) == load(rest) + 1);
        assert(more.push(StepModel::Flush).drop_last() =~= more);
        assert(load(more.push(StepModel::Flush)) == load(rest) + 2);
    }
}

} // verus!
