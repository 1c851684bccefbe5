//! What holds of rotating trace files, whatever is written and whatever fails.

use crate::telemetry::events::{EventModel, RawEvent};
use crate::telemetry::recorder::flush_state::{
    defined_before, defines_id, definitions_once, emitted_covered,
    lemma_resolve_keeps_file_self_contained, lemma_resolve_repeats_no_definition,
    locations_self_contained, referenced_id, spawn_location, FlushModel,
};
use crate::telemetry::rotation::{
    active_name, batch_events, batch_has_room, batch_state, is_active, lemma_op_progresses,
    lemma_skip_lightens, load, rotation_steps, segment_name, sum_sizes, write_steps, OpModel,
    PendingModel, RotationModel, StepModel, HEADER_SIZE,
};
use crate::text::decimal;
use vstd::prelude::*;

verus! {

pub proof fn lemma_sum_drop_first(files: Seq<(Seq<char>, nat)>)
    requires
        files.len() > 0,
    ensures
        sum_sizes(files) == files[0].1 + sum_sizes(files.drop_first()),
    decreases files.len(),
{
    if files.len() == 1 {
        assert(files.drop_first() =~= Seq::empty());
        assert(files.drop_last() =~= Seq::empty());
    } else {
        lemma_sum_drop_first(files.drop_last());
        assert(files.drop_last().drop_first() =~= files.drop_first().drop_last());
    }
}

proof fn lemma_sum_push(files: Seq<(Seq<char>, nat)>, f: (Seq<char>, nat))
    ensures
        sum_sizes(files.push(f)) == sum_sizes(files) + f.1,
{
    assert(files.push(f).drop_last() =~= files);
}

proof fn lemma_sum_update_last(files: Seq<(Seq<char>, nat)>, f: (Seq<char>, nat))
    requires
        files.len() > 0,
    ensures
        sum_sizes(files.update(files.len() - 1, f)) == sum_sizes(files) - files.last().1 + f.1,
{
    assert(files.update(files.len() - 1, f).drop_last() =~= files.drop_last());
}

/// The books agree at all times: whatever step comes next, and whether its
/// file operation succeeds or fails, there is a current segment, its recorded
/// size is the current size, and the recorded sizes add up to the total.
pub proof fn lemma_books_agree(m: RotationModel, now: u64, bytes: nat)
    requires
        m.wf(),
    ensures
        m.todo.len() > 0 && !m.needs_op() ==> m.skipped().wf(),
        m.needs_op() ==> m.issued(now).wf(),
        m.succeeded(bytes).wf(),
        m.failed().wf(),
        m.succeeded(bytes).total_size == m.total_size + m.growth(bytes),
{
    if m.needs_op() && m.todo.last() is Evict {
        lemma_sum_drop_first(m.files);
    }
    let last = m.files.last();
    lemma_sum_update_last(m.files, (last.0, m.current_size + bytes));
    lemma_sum_update_last(m.files, (m.sealed_name(), last.1));
    lemma_sum_push(
        m.files,
        (
            crate::telemetry::rotation::active_name(m.stem, (m.next_index - 1) as nat),
            HEADER_SIZE as nat,
        ),
    );
}

/// Settling steps keeps the books.
pub proof fn lemma_settling_keeps_books(m: RotationModel)
    requires
        m.wf(),
    ensures
        m.settled().wf(),
        m.settled().todo.len() == 0 || m.settled().needs_op(),
        m.settled().pending == m.pending,
        m.settled().next_index == m.next_index,
    decreases load(m.todo),
{
    if m.todo.len() > 0 && !m.needs_op() {
        lemma_skip_lightens(m);
        lemma_books_agree(m, 0, 0);
        lemma_settling_keeps_books(m.skipped());
    }
}

/// A step of a batch that is being written, the rotation check aside.
pub open spec fn is_batch_step(step: StepModel) -> bool {
    step is Write || step is Evict || step is Flush
}

/// Whether `todo` is what is left of writing a batch, rotation check included.
pub open spec fn is_batch(todo: Seq<StepModel>) -> bool {
    &&& todo.len() > 0
    &&& todo[0] is MaybeRotate
    &&& forall|i: int| 1 <= i < todo.len() ==> is_batch_step(#[trigger] todo[i])
}

/// Whether `todo` is what is left of a rotation when `k` steps are left.
pub open spec fn is_rotation(todo: Seq<StepModel>, k: int) -> bool {
    1 <= k <= 6 && todo == rotation_steps().take(k)
}

/// Whether `todo` is what is left of a flush, a seal or a metadata write.
pub open spec fn is_single(todo: Seq<StepModel>) -> bool {
    ||| todo == seq![StepModel::FlushUnlessStopped]
    ||| todo == seq![StepModel::SealIfActive, StepModel::FlushUnlessStopped]
    ||| todo == seq![StepModel::SealIfActive]
    ||| todo == seq![StepModel::WriteMetadata]
}

/// The steps left belong to one operation.
pub open spec fn is_operation(todo: Seq<StepModel>) -> bool {
    ||| todo.len() == 0
    ||| is_batch(todo)
    ||| (exists|k: int| is_rotation(todo, k))
    ||| is_single(todo)
}

/// The events that the steps of `todo` are still to write, in order.
pub open spec fn writes_left(todo: Seq<StepModel>) -> Seq<EventModel>
    decreases todo.len(),
{
    if todo.len() == 0 {
        Seq::empty()
    } else {
        match todo.last() {
            StepModel::Write(event) => seq![event] + writes_left(todo.drop_last()),
            _ => writes_left(todo.drop_last()),
        }
    }
}

/// The events that are still to be written, the pending one included.
pub open spec fn upcoming(m: RotationModel) -> Seq<EventModel> {
    match m.pending {
        PendingModel::Event(event) => seq![event] + writes_left(m.todo),
        _ => writes_left(m.todo),
    }
}

/// Whether a rotation is under way whose end is not noted yet.
pub open spec fn rotation_open(m: RotationModel) -> bool {
    exists|k: int| 2 <= k && is_rotation(m.todo, k)
}

/// What every reachable writer keeps about its files. In a segment without a
/// failed file operation every location reference comes after its definition,
/// and so it will be once the events under way are written.
pub open spec fn files_inv(m: RotationModel) -> bool {
    &&& is_operation(m.todo)
    &&& (m.pending is Create ==> is_rotation(m.todo, 3))
    &&& (m.pending is Event ==> is_batch(m.todo) && !m.stopped)
    &&& (m.pending matches PendingModel::Metadata(e) ==> e is SegmentMetadata && !is_batch(m.todo))
    &&& (!m.damaged ==> locations_self_contained(m.segment))
    &&& (!m.damaged && !m.stopped ==> locations_self_contained(m.segment + upcoming(m)))
    &&& (!m.damaged && !m.stopped && !rotation_open(m) ==> emitted_covered(
        m.locations,
        m.segment + upcoming(m),
    ))
    &&& forall|i: int|
        0 <= i < m.sealed.len() && !(#[trigger] m.sealed[i]).1 ==> locations_self_contained(
            m.sealed[i].0,
        )
}

proof fn lemma_writes_left_none(todo: Seq<StepModel>)
    requires
        forall|i: int| 0 <= i < todo.len() ==> !(#[trigger] todo[i] is Write),
    ensures
        writes_left(todo) == Seq::<EventModel>::empty(),
    decreases todo.len(),
{
    if todo.len() > 0 {
        lemma_writes_left_none(todo.drop_last());
    }
}

proof fn lemma_no_writes_in_rotation(todo: Seq<StepModel>, k: int)
    requires
        is_rotation(todo, k),
    ensures
        writes_left(todo) == Seq::<EventModel>::empty(),
        !is_batch(todo),
        todo.len() == k,
{
    assert(rotation_steps().len() == 6);
    assert forall|i: int| 0 <= i < todo.len() implies !(#[trigger] todo[i] is Write) by {
        assert(todo[i] == rotation_steps()[i]);
    }
    lemma_writes_left_none(todo);
    assert(todo[0] == rotation_steps()[0]);
}

proof fn lemma_prefix_self_contained(file: Seq<EventModel>, more: Seq<EventModel>)
    requires
        locations_self_contained(file + more),
    ensures
        locations_self_contained(file),
{
    let all = file + more;
    assert forall|i: int, id: u16|
        0 <= i < file.len() && #[trigger] referenced_id(file[i]) == Some(
            id,
        ) implies #[trigger] defined_before(file, i, id) by {
        assert(all[i] == file[i]);
        assert(referenced_id(all[i]) == Some(id));
        assert(defined_before(all, i, id));
        let j = choose|j: int| 0 <= j < i && #[trigger] defines_id(all[j], id);
        assert(defines_id(file[j], id));
    }
}

proof fn lemma_metadata_keeps_self_contained(m: FlushModel, file: Seq<EventModel>, e: EventModel)
    requires
        e is SegmentMetadata,
        locations_self_contained(file),
    ensures
        locations_self_contained(file.push(e)),
        emitted_covered(m, file) ==> emitted_covered(m, file.push(e)),
{
    let all = file.push(e);
    assert forall|i: int, id: u16|
        0 <= i < all.len() && #[trigger] referenced_id(all[i]) == Some(
            id,
        ) implies #[trigger] defined_before(all, i, id) by {
        assert(all[i] == file[i]);
        assert(referenced_id(file[i]) == Some(id));
        assert(defined_before(file, i, id));
        let j = choose|j: int| 0 <= j < i && #[trigger] defines_id(file[j], id);
        assert(defines_id(all[j], id));
    }
    if emitted_covered(m, file) {
        assert forall|id: u16| #[trigger] m.emitted.contains(id) implies defined_before(
            all,
            all.len() as int,
            id,
        ) by {
            assert(defined_before(file, file.len() as int, id));
            let j = choose|j: int|
                0 <= j < file.len() && #[trigger] defines_id(file[j], id);
            assert(defines_id(all[j], id));
        }
    }
}

/// Every step without a file operation keeps the files in order.
pub proof fn lemma_skip_keeps_files(m: RotationModel)
    requires
        files_inv(m),
        m.pending is Nothing,
        m.todo.len() > 0,
        !m.needs_op(),
    ensures
        files_inv(m.skipped()),
        m.skipped().pending is Nothing,
{
    let n = m.skipped();
    let rest = m.todo.drop_last();
    if is_batch(m.todo) {
        if m.todo.len() == 1 {
            assert(rest =~= Seq::empty());
            assert(writes_left(m.todo) =~= Seq::empty()) by {
                lemma_writes_left_none(m.todo);
            }
            if m.wants_rotation() {
                assert(n.todo =~= rotation_steps().take(6));
                assert(is_rotation(n.todo, 6));
                lemma_no_writes_in_rotation(n.todo, 6);
                assert(rotation_open(n));
            }
            assert(m.segment + upcoming(m) =~= m.segment);
            assert(n.segment + upcoming(n) =~= n.segment);
        } else {
            assert(is_batch_step(m.todo.last()));
            assert(is_batch(rest)) by {
                assert(rest[0] == m.todo[0]);
                assert forall|i: int| 1 <= i < rest.len() implies is_batch_step(
                    #[trigger] rest[i],
                ) by {
                    assert(rest[i] == m.todo[i]);
                }
            }
            assert(!rotation_open(m)) by {
                if rotation_open(m) {
                    let k = choose|k: int| 2 <= k && is_rotation(m.todo, k);
                    lemma_no_writes_in_rotation(m.todo, k);
                }
            }
            assert(!rotation_open(n)) by {
                if rotation_open(n) {
                    let k = choose|k: int| 2 <= k && is_rotation(n.todo, k);
                    lemma_no_writes_in_rotation(n.todo, k);
                }
            }
        }
    } else if exists|k: int| is_rotation(m.todo, k) {
        let k = choose|k: int| is_rotation(m.todo, k);
        lemma_no_writes_in_rotation(m.todo, k);
        assert(m.todo.last() == rotation_steps()[k - 1]);
        assert(rest =~= rotation_steps().take(k - 1));
        if k > 1 {
            assert(is_rotation(rest, k - 1));
            lemma_no_writes_in_rotation(rest, k - 1);
            assert(rotation_open(m));
        } else {
            assert(rest =~= Seq::empty());
        }
        assert(m.segment + upcoming(m) =~= m.segment);
        assert(n.segment + upcoming(n) =~= n.segment);
        if k > 2 {
            assert(rotation_open(n));
        } else if k == 1 {
            assert(!rotation_open(m)) by {
                if rotation_open(m) {
                    let j = choose|j: int| 2 <= j && is_rotation(m.todo, j);
                    lemma_no_writes_in_rotation(m.todo, j);
                }
            }
        }
    } else {
        assert(is_single(m.todo));
        assert(is_operation(rest)) by {
            assert(rest.len() == 0 || rest =~= seq![StepModel::SealIfActive]);
        }
        lemma_writes_left_none(m.todo);
        lemma_writes_left_none(rest);
        assert(m.segment + upcoming(m) =~= m.segment);
        assert(n.segment + upcoming(n) =~= n.segment);
        assert(!rotation_open(m));
    }
}

/// Issuing a file operation keeps the files in order.
pub proof fn lemma_issue_keeps_files(m: RotationModel, now: u64)
    requires
        files_inv(m),
        m.pending is Nothing,
        m.needs_op(),
    ensures
        files_inv(m.issued(now)),
{
    let n = m.issued(now);
    let rest = m.todo.drop_last();
    if is_batch(m.todo) {
        assert(m.todo.len() > 1);
        assert(is_batch_step(m.todo.last()));
        assert(is_batch(rest)) by {
            assert(rest[0] == m.todo[0]);
            assert forall|i: int| 1 <= i < rest.len() implies is_batch_step(#[trigger] rest[i]) by {
                assert(rest[i] == m.todo[i]);
            }
        }
        assert(upcoming(n) =~= upcoming(m));
        assert(!rotation_open(m)) by {
            if rotation_open(m) {
                let k = choose|k: int| 2 <= k && is_rotation(m.todo, k);
                lemma_no_writes_in_rotation(m.todo, k);
            }
        }
    } else if exists|k: int| is_rotation(m.todo, k) {
        let k = choose|k: int| is_rotation(m.todo, k);
        lemma_no_writes_in_rotation(m.todo, k);
        assert(m.todo.last() == rotation_steps()[k - 1]);
        assert(rest =~= rotation_steps().take(k - 1));
        if k > 1 {
            assert(is_rotation(rest, k - 1));
            lemma_no_writes_in_rotation(rest, k - 1);
            assert(rotation_open(m));
            assert(n.todo == rest);
            assert(2 <= k - 1 && is_rotation(n.todo, k - 1));
        } else {
            assert(n.todo == m.todo);
        }
        assert(upcoming(n) =~= upcoming(m));
    } else {
        assert(is_single(m.todo));
        assert(is_operation(rest)) by {
            assert(rest.len() == 0 || rest =~= seq![StepModel::SealIfActive]);
        }
        lemma_writes_left_none(m.todo);
        lemma_writes_left_none(rest);
        assert(upcoming(n) =~= upcoming(m));
        assert(!rotation_open(m));
    }
}

/// A file operation that succeeds keeps the files in order.
pub proof fn lemma_success_keeps_files(m: RotationModel, bytes: nat)
    requires
        files_inv(m),
    ensures
        files_inv(m.succeeded(bytes)),
        m.succeeded(bytes).pending is Nothing,
{
    let n = m.succeeded(bytes);
    match m.pending {
        PendingModel::Event(event) => {
            assert(n.segment + writes_left(m.todo) =~= m.segment + upcoming(m));
            let more = m.todo.push(StepModel::Evict);
            assert(more.drop_last() =~= m.todo);
            assert(more.push(StepModel::Flush).drop_last() =~= more);
            assert(writes_left(more) == writes_left(m.todo));
            assert(writes_left(n.todo) == writes_left(m.todo));
            assert(is_batch(n.todo));
            if !m.damaged {
                lemma_prefix_self_contained(n.segment, upcoming(n));
            }
            assert(!rotation_open(m)) by {
                if rotation_open(m) {
                    let k = choose|k: int| 2 <= k && is_rotation(m.todo, k);
                    lemma_no_writes_in_rotation(m.todo, k);
                }
            }
        },
        PendingModel::Metadata(event) => {
            if exists|k: int| is_rotation(m.todo, k) {
                let k = choose|k: int| is_rotation(m.todo, k);
                lemma_no_writes_in_rotation(m.todo, k);
            } else {
                lemma_writes_left_none(m.todo);
            }
            assert(m.segment + upcoming(m) =~= m.segment);
            assert(n.segment + upcoming(n) =~= n.segment);
            if !m.damaged {
                lemma_metadata_keeps_self_contained(m.locations, m.segment, event);
            }
            assert(rotation_open(m) <==> rotation_open(n));
        },
        PendingModel::Create => {
            lemma_no_writes_in_rotation(m.todo, 3);
            assert(n.todo == m.todo);
            assert(2 <= 3 && is_rotation(n.todo, 3));
            assert(rotation_open(n));
            assert(n.segment + upcoming(n) =~= n.segment);
        },
        _ => {
            assert(rotation_open(m) <==> rotation_open(n));
        },
    }
}

/// A file operation that fails keeps the files in order.
pub proof fn lemma_failure_keeps_files(m: RotationModel)
    requires
        files_inv(m),
    ensures
        files_inv(m.failed()),
        m.failed().pending is Nothing,
{
    let n = m.failed();
    if m.pending is Remove {
        assert(n.todo == m.todo);
        assert(rotation_open(n) ==> rotation_open(m)) by {
            if rotation_open(n) {
                let k = choose|k: int| 2 <= k && is_rotation(n.todo, k);
                assert(is_rotation(m.todo, k));
            }
        }
        assert(rotation_open(m) ==> rotation_open(n)) by {
            if rotation_open(m) {
                let k = choose|k: int| 2 <= k && is_rotation(m.todo, k);
                assert(is_rotation(n.todo, k));
            }
        }
    }
}

proof fn lemma_writes_left_of_batch(todo: Seq<StepModel>, events: Seq<EventModel>)
    requires
        todo == seq![StepModel::MaybeRotate] + write_steps(events),
    ensures
        is_batch(todo),
        writes_left(todo) == events,
    decreases events.len(),
{
    if events.len() == 0 {
        assert(todo =~= seq![StepModel::MaybeRotate]);
        lemma_writes_left_none(todo);
        assert(writes_left(todo) =~= events);
    } else {
        let inner = seq![StepModel::MaybeRotate] + write_steps(events.drop_first());
        lemma_writes_left_of_batch(inner, events.drop_first());
        assert(todo =~= inner.push(StepModel::Write(events[0])));
        assert(todo.drop_last() =~= inner);
        assert(writes_left(todo) =~= events);
    }
}

/// Resolving a batch keeps a covered, self-contained file covered and
/// self-contained.
pub proof fn lemma_batch_keeps_file_self_contained(
    m: FlushModel,
    raws: Seq<RawEvent>,
    file: Seq<EventModel>,
)
    requires
        m.wf(),
        batch_has_room(m, raws),
        emitted_covered(m, file),
        locations_self_contained(file),
    ensures
        batch_state(m, raws).wf(),
        emitted_covered(batch_state(m, raws), file + batch_events(m, raws)),
        locations_self_contained(file + batch_events(m, raws)),
    decreases raws.len(),
{
    if raws.len() == 0 {
        assert(file + batch_events(m, raws) =~= file);
    } else {
        let init = raws.drop_last();
        assert(batch_has_room(m, init)) by {
            assert forall|k: int| 0 <= k < init.len() implies (#[trigger] spawn_location(
                init[k],
            ) matches Some(location) ==> batch_state(m, init.take(k)).has_room(location)) by {
                assert(init[k] == raws[k]);
                assert(init.take(k) =~= raws.take(k));
                assert(spawn_location(raws[k]) == spawn_location(init[k]));
            }
        }
        lemma_batch_keeps_file_self_contained(m, init, file);
        assert(raws.take(raws.len() - 1) =~= init);
        assert(raws[raws.len() - 1] == raws.last());
        lemma_resolve_keeps_file_self_contained(
            batch_state(m, init),
            raws.last(),
            file + batch_events(m, init),
        );
        assert(file + batch_events(m, raws) =~= (file + batch_events(m, init)) + batch_state(
            m,
            init,
        ).events_for(raws.last()));
    }
}

/// Resolving a batch repeats no definition in its file.
pub proof fn lemma_batch_repeats_no_definition(
    m: FlushModel,
    raws: Seq<RawEvent>,
    file: Seq<EventModel>,
)
    requires
        m.wf(),
        batch_has_room(m, raws),
        definitions_once(m, file),
    ensures
        definitions_once(batch_state(m, raws), file + batch_events(m, raws)),
    decreases raws.len(),
{
    if raws.len() == 0 {
        assert(file + batch_events(m, raws) =~= file);
    } else {
        let init = raws.drop_last();
        assert(batch_has_room(m, init)) by {
            assert forall|k: int| 0 <= k < init.len() implies (#[trigger] spawn_location(
                init[k],
            ) matches Some(location) ==> batch_state(m, init.take(k)).has_room(location)) by {
                assert(init[k] == raws[k]);
                assert(init.take(k) =~= raws.take(k));
                assert(spawn_location(raws[k]) == spawn_location(init[k]));
            }
        }
        lemma_batch_repeats_no_definition(m, init, file);
        assert(raws.take(raws.len() - 1) =~= init);
        assert(raws[raws.len() - 1] == raws.last());
        lemma_batch_state_wf(m, init);
        lemma_resolve_repeats_no_definition(
            batch_state(m, init),
            raws.last(),
            file + batch_events(m, init),
        );
        assert(file + batch_events(m, raws) =~= (file + batch_events(m, init)) + batch_state(
            m,
            init,
        ).events_for(raws.last()));
    }
}

proof fn lemma_batch_state_wf(m: FlushModel, raws: Seq<RawEvent>)
    requires
        m.wf(),
        batch_has_room(m, raws),
    ensures
        batch_state(m, raws).wf(),
    decreases raws.len(),
{
    if raws.len() > 0 {
        let init = raws.drop_last();
        assert(batch_has_room(m, init)) by {
            assert forall|k: int| 0 <= k < init.len() implies (#[trigger] spawn_location(
                init[k],
            ) matches Some(location) ==> batch_state(m, init.take(k)).has_room(location)) by {
                assert(init[k] == raws[k]);
                assert(init.take(k) =~= raws.take(k));
                assert(spawn_location(raws[k]) == spawn_location(init[k]));
            }
        }
        lemma_batch_state_wf(m, init);
        assert(raws.take(raws.len() - 1) =~= init);
        assert(raws[raws.len() - 1] == raws.last());
    }
}

/// Starting to write a batch keeps the files in order.
pub proof fn lemma_batch_keeps_files(m: RotationModel, raws: Seq<RawEvent>)
    requires
        m.wf(),
        files_inv(m),
        m.idle(),
        batch_has_room(m.locations, raws),
    ensures
        m.with_batch(raws).wf(),
        files_inv(m.with_batch(raws)),
{
    let n = m.with_batch(raws);
    lemma_batch_state_wf(m.locations, raws);
    lemma_writes_left_of_batch(n.todo, batch_events(m.locations, raws));
    assert(m.segment + upcoming(m) =~= m.segment);
    assert(!rotation_open(m)) by {
        if rotation_open(m) {
            let k = choose|k: int| 2 <= k && is_rotation(m.todo, k);
            lemma_no_writes_in_rotation(m.todo, k);
        }
    }
    if !m.damaged && !m.stopped {
        lemma_batch_keeps_file_self_contained(m.locations, raws, m.segment);
    }
}

/// Starting a flush, a seal or a metadata write keeps the files in order.
pub proof fn lemma_single_keeps_files(
    m: RotationModel,
    entries: Seq<(Seq<char>, Seq<char>)>,
)
    requires
        m.wf(),
        files_inv(m),
        m.idle(),
    ensures
        m.with_flush().wf() && files_inv(m.with_flush()),
        m.with_seal().wf() && files_inv(m.with_seal()),
        m.with_metadata(entries).wf() && files_inv(m.with_metadata(entries)),
{
    assert(!rotation_open(m)) by {
        if rotation_open(m) {
            let k = choose|k: int| 2 <= k && is_rotation(m.todo, k);
            lemma_no_writes_in_rotation(m.todo, k);
        }
    }
    assert(m.segment + upcoming(m) =~= m.segment);
    lemma_writes_left_none(m.with_flush().todo);
    lemma_writes_left_none(m.with_seal().todo);
    lemma_writes_left_none(m.with_metadata(entries).todo);
    assert(m.segment + upcoming(m.with_flush()) =~= m.segment);
    assert(m.segment + upcoming(m.with_seal()) =~= m.segment);
    assert(m.segment + upcoming(m.with_metadata(entries)) =~= m.segment);
}

/// Starting a rotation keeps the files in order.
pub proof fn lemma_rotation_keeps_files(m: RotationModel)
    requires
        m.wf(),
        files_inv(m),
        m.idle(),
    ensures
        m.with_rotation().wf() && files_inv(m.with_rotation()),
{
    let n = m.with_rotation();
    assert(m.segment + upcoming(m) =~= m.segment);
    if m.stopped {
        assert(n.todo =~= m.todo);
    } else {
        assert(n.todo =~= rotation_steps().take(6));
        assert(is_rotation(n.todo, 6));
        lemma_no_writes_in_rotation(n.todo, 6);
        assert(n.segment + upcoming(n) =~= m.segment);
        assert(rotation_open(n));
    }
}

/// A batch fits as long as no more events come than ids are left.
pub proof fn lemma_room_by_count(m: FlushModel, raws: Seq<RawEvent>)
    requires
        m.wf(),
        m.names.len() + raws.len() <= u16::MAX,
    ensures
        batch_has_room(m, raws),
{
    assert forall|k: int| 0 <= k < raws.len() implies (#[trigger] spawn_location(
        raws[k],
    ) matches Some(location) ==> batch_state(m, raws.take(k)).has_room(location)) by {
        lemma_names_grow_by_one(m, raws.take(k));
    }
}

proof fn lemma_names_grow_by_one(m: FlushModel, raws: Seq<RawEvent>)
    ensures
        batch_state(m, raws).names.len() <= m.names.len() + raws.len(),
    decreases raws.len(),
{
    if raws.len() > 0 {
        lemma_names_grow_by_one(m, raws.drop_last());
    }
}

/// Reading the rotation flag leaves the books and the files alone.
pub proof fn lemma_rotated_flag_is_free(m: RotationModel, flag: bool)
    requires
        m.wf(),
        files_inv(m),
    ensures
        ({
            let n = RotationModel { rotated: flag, ..m };
            n.wf() && files_inv(n)
        }),
{
    let n = RotationModel { rotated: flag, ..m };
    assert(n.todo == m.todo);
    assert(rotation_open(n) == rotation_open(m));
}

/// Whether an eviction step is among `todo`.
pub open spec fn has_evict(todo: Seq<StepModel>) -> bool {
    exists|j: int| 0 <= j < todo.len() && #[trigger] todo[j] is Evict
}

proof fn lemma_batch_rest(todo: Seq<StepModel>)
    requires
        is_batch(todo),
        todo.len() > 1,
    ensures
        is_batch(todo.drop_last()),
        is_batch_step(todo.last()),
        has_evict(todo) && !(todo.last() is Evict) ==> has_evict(todo.drop_last()),
{
    let rest = todo.drop_last();
    assert(rest[0] == todo[0]);
    assert forall|i: int| 1 <= i < rest.len() implies is_batch_step(#[trigger] rest[i]) by {
        assert(rest[i] == todo[i]);
    }
    if has_evict(todo) && !(todo.last() is Evict) {
        let j = choose|j: int| 0 <= j < todo.len() && #[trigger] todo[j] is Evict;
        assert(rest[j] is Evict);
    }
}

/// The steps after a budget overrun: flush, then evict.
proof fn lemma_batch_with_evict(todo: Seq<StepModel>)
    requires
        is_batch(todo),
    ensures
        is_batch(todo.push(StepModel::Evict).push(StepModel::Flush)),
        has_evict(todo.push(StepModel::Evict).push(StepModel::Flush)),
        writes_left(todo.push(StepModel::Evict).push(StepModel::Flush)) == writes_left(todo),
{
    let one = todo.push(StepModel::Evict);
    let two = one.push(StepModel::Flush);
    assert(one.drop_last() =~= todo);
    assert(two.drop_last() =~= one);
    assert(writes_left(one) == writes_left(todo));
    assert(two[todo.len() as int] is Evict);
}

proof fn lemma_rotation_rest(todo: Seq<StepModel>, k: int)
    requires
        is_rotation(todo, k),
    ensures
        todo.len() == k,
        todo.last() == rotation_steps()[k - 1],
        k > 1 ==> is_rotation(todo.drop_last(), k - 1),
        k == 1 ==> todo.drop_last() == Seq::<StepModel>::empty(),
{
    assert(todo.drop_last() =~= rotation_steps().take(k - 1));
}

/// Disk usage is bounded: once a batch is written and every file operation
/// succeeded, the total is within the budget, or the writer has stopped for
/// good. The same holds at the end of a rotation.
pub proof fn lemma_batch_ends_within_budget(
    m: RotationModel,
    now: u64,
    bytes: spec_fn(EventModel) -> nat,
)
    requires
        m.wf(),
        m.pending is Nothing,
        is_batch(m.todo) || (exists|k: int| is_rotation(m.todo, k)),
        is_batch(m.todo) && m.over_budget() && !m.stopped ==> has_evict(m.todo),
    ensures
        ({
            let r = m.finished(now, bytes);
            &&& r.wf()
            &&& r.idle()
            &&& r.stopped || !r.over_budget()
        }),
    decreases load(m.todo), m.files.len(),
{
    if m.needs_op() {
        let b = bytes(m.op_event(now));
        let n = m.issued(now).succeeded(b);
        lemma_op_progresses(m, now, b);
        lemma_books_agree(m, now, b);
        lemma_books_agree(m.issued(now), now, b);
        if is_batch(m.todo) {
            lemma_batch_rest(m.todo);
            if m.todo.last() is Write {
                lemma_batch_with_evict(m.todo.drop_last());
            }
            assert(is_batch(n.todo));
        } else {
            let k = choose|k: int| is_rotation(m.todo, k);
            lemma_rotation_rest(m.todo, k);
            assert(k != 2);
            if k > 1 {
                assert(n.todo == m.todo.drop_last());
                assert(is_rotation(n.todo, k - 1));
            } else {
                assert(n.todo == m.todo);
                assert(is_rotation(n.todo, 1));
            }
            lemma_no_writes_in_rotation(n.todo, n.todo.len() as int);
        }
        lemma_batch_ends_within_budget(n, now, bytes);
    } else {
        let n = m.skipped();
        lemma_skip_lightens(m);
        lemma_books_agree(m, now, 0);
        if is_batch(m.todo) {
            if m.todo.len() > 1 {
                lemma_batch_rest(m.todo);
                lemma_batch_ends_within_budget(n, now, bytes);
            } else {
                assert(!has_evict(m.todo));
                assert(m.todo.drop_last() =~= Seq::empty());
                if m.wants_rotation() {
                    assert(n.todo =~= rotation_steps().take(6));
                    assert(is_rotation(n.todo, 6));
                    lemma_no_writes_in_rotation(n.todo, 6);
                    lemma_batch_ends_within_budget(n, now, bytes);
                } else {
                    assert(n.finished(now, bytes) == n);
                }
            }
        } else {
            let k = choose|k: int| is_rotation(m.todo, k);
            lemma_rotation_rest(m.todo, k);
            if k > 1 {
                assert(is_rotation(n.todo, k - 1));
                lemma_no_writes_in_rotation(n.todo, k - 1);
                lemma_batch_ends_within_budget(n, now, bytes);
            } else {
                assert(n.finished(now, bytes) == n);
            }
        }
    }
}

/// The bytes that the last event of the current segment takes.
pub open spec fn last_size(m: RotationModel, bytes: spec_fn(EventModel) -> nat) -> nat {
    if m.segment.len() == 0 {
        0
    } else {
        bytes(m.segment.last())
    }
}

/// The budget, or a header where that alone is over it, and the last event
/// written.
pub open spec fn overshoot_cap(m: RotationModel, bytes: spec_fn(EventModel) -> nat) -> nat {
    (if m.max_total_size > HEADER_SIZE {
        m.max_total_size
    } else {
        HEADER_SIZE as nat
    }) + last_size(m, bytes)
}

/// Whether the eviction comes next, or right after a flush.
spec fn evict_next(todo: Seq<StepModel>) -> bool {
    &&& todo.len() > 0
    &&& todo.last() is Evict || (todo.last() is Flush && todo.len() > 1
        && todo.drop_last().last() is Evict)
}

/// Whether a batch has kept to the cap so far.
spec fn keeps_cap(m: RotationModel, bytes: spec_fn(EventModel) -> nat) -> bool {
    &&& m.stopped ==> m.over_budget() && m.files.len() == 1 && m.total_size <= overshoot_cap(
        m,
        bytes,
    )
    &&& !m.stopped && m.over_budget() ==> evict_next(m.todo) && m.total_size <= overshoot_cap(
        m,
        bytes,
    )
}

proof fn lemma_one_file_total(m: RotationModel)
    requires
        m.wf(),
        m.files.len() == 1,
    ensures
        m.total_size == m.current_size,
{
    reveal_with_fuel(sum_sizes, 2);
}

proof fn lemma_rotation_overshoot(
    m: RotationModel,
    k: int,
    now: u64,
    bytes: spec_fn(EventModel) -> nat,
)
    requires
        m.wf(),
        m.pending is Nothing,
        is_rotation(m.todo, k),
        !m.stopped,
        k == 3 ==> m.current_size == HEADER_SIZE && m.segment.len() == 0,
        k < 3 ==> m.current_size <= HEADER_SIZE + last_size(m, bytes),
    ensures
        ({
            let r = m.finished(now, bytes);
            &&& r.stopped ==> r.over_budget() && r.files.len() == 1 && r.total_size
                <= overshoot_cap(r, bytes)
            &&& r.max_total_size == m.max_total_size
        }),
    decreases load(m.todo), m.files.len(),
{
    lemma_rotation_rest(m.todo, k);
    if m.needs_op() {
        let b = bytes(m.op_event(now));
        let n = m.issued(now).succeeded(b);
        lemma_op_progresses(m, now, b);
        lemma_books_agree(m, now, b);
        lemma_books_agree(m.issued(now), now, b);
        if k == 1 {
            assert(n.todo == m.todo);
            lemma_rotation_overshoot(n, 1, now, bytes);
        } else {
            assert(n.todo == m.todo.drop_last());
            lemma_rotation_overshoot(n, k - 1, now, bytes);
        }
    } else {
        let n = m.skipped();
        lemma_skip_lightens(m);
        lemma_books_agree(m, now, 0);
        if k == 1 {
            assert(n.finished(now, bytes) == n);
            if n.stopped {
                lemma_one_file_total(n);
            }
        } else {
            lemma_rotation_overshoot(n, k - 1, now, bytes);
        }
    }
}

proof fn lemma_batch_overshoot(
    m: RotationModel,
    now: u64,
    bytes: spec_fn(EventModel) -> nat,
)
    requires
        m.wf(),
        m.pending is Nothing,
        is_batch(m.todo),
        keeps_cap(m, bytes),
    ensures
        ({
            let r = m.finished(now, bytes);
            &&& r.stopped ==> r.over_budget() && r.files.len() == 1 && r.total_size
                <= overshoot_cap(r, bytes)
            &&& r.max_total_size == m.max_total_size
        }),
    decreases load(m.todo), m.files.len(),
{
    if m.todo.len() > 1 {
        lemma_batch_rest(m.todo);
    }
    if m.needs_op() {
        let b = bytes(m.op_event(now));
        let n = m.issued(now).succeeded(b);
        lemma_op_progresses(m, now, b);
        lemma_books_agree(m, now, b);
        lemma_books_agree(m.issued(now), now, b);
        if m.todo.last() is Write {
            let rest = m.todo.drop_last();
            lemma_batch_with_evict(rest);
            let two = rest.push(StepModel::Evict).push(StepModel::Flush);
            assert(two.drop_last() =~= rest.push(StepModel::Evict));
        }
        if m.todo.last() is Evict {
            lemma_sum_drop_first(m.files);
        }
        lemma_batch_overshoot(n, now, bytes);
    } else {
        let n = m.skipped();
        lemma_skip_lightens(m);
        lemma_books_agree(m, now, 0);
        if m.todo.len() > 1 {
            lemma_batch_overshoot(n, now, bytes);
        } else {
            assert(m.todo.drop_last() =~= Seq::empty());
            if m.wants_rotation() {
                assert(n.todo =~= rotation_steps().take(6));
                assert(is_rotation(n.todo, 6));
                lemma_rotation_overshoot(n, 6, now, bytes);
            } else {
                assert(n.finished(now, bytes) == n);
            }
        }
    }
}

/// The budget is overrun by one event at most: a writer within its budget that
/// stops over a batch is left with the current segment alone, and over the
/// budget by no more than the last event written.
pub proof fn lemma_overshoot_is_one_event(
    m: RotationModel,
    raws: Seq<RawEvent>,
    now: u64,
    bytes: spec_fn(EventModel) -> nat,
)
    requires
        m.wf(),
        m.idle(),
        batch_has_room(m.locations, raws),
        !m.stopped,
        !m.over_budget(),
    ensures
        ({
            let r = m.with_batch(raws).finished(now, bytes);
            &&& r.stopped ==> r.over_budget() && r.files.len() == 1 && r.total_size
                <= overshoot_cap(r, bytes)
            &&& r.max_total_size == m.max_total_size
        }),
{
    lemma_batch_writes_resolved_events(m, raws);
    lemma_batch_state_wf(m.locations, raws);
    lemma_batch_overshoot(m.with_batch(raws), now, bytes);
}

proof fn lemma_stopped_batch(m: RotationModel, now: u64, bytes: spec_fn(EventModel) -> nat)
    requires
        m.stopped,
        m.pending is Nothing,
        m.todo.len() > 0,
        m.todo[0] is MaybeRotate,
        forall|i: int| 1 <= i < m.todo.len() ==> #[trigger] m.todo[i] is Write,
    ensures
        m.finished(now, bytes) == (RotationModel { todo: Seq::empty(), ..m }),
        m.settled() == (RotationModel { todo: Seq::empty(), ..m }),
    decreases m.todo.len(),
{
    let n = m.skipped();
    lemma_skip_lightens(m);
    assert(m.settled() == n.settled());
    if m.todo.len() > 1 {
        assert(m.todo[m.todo.len() - 1] is Write);
        assert forall|i: int| 1 <= i < n.todo.len() implies #[trigger] n.todo[i] is Write by {
            assert(n.todo[i] == m.todo[i]);
        }
        assert(n.todo[0] == m.todo[0]);
        lemma_stopped_batch(n, now, bytes);
    } else {
        assert(m.todo.drop_last() =~= Seq::empty());
        assert(n.finished(now, bytes) == n);
        assert(n.settled() == n);
    }
}

proof fn lemma_write_steps_are_writes(events: Seq<EventModel>)
    ensures
        forall|i: int|
            0 <= i < write_steps(events).len() ==> #[trigger] write_steps(events)[i] is Write,
    decreases events.len(),
{
    if events.len() > 0 {
        lemma_write_steps_are_writes(events.drop_first());
    }
}

/// A stopped writer writes nothing more: whatever batch it is given, the writer
/// is done with it at once, without a file operation, and files, sizes and
/// segments stay as they are.
pub proof fn lemma_stopped_writes_nothing(
    m: RotationModel,
    raws: Seq<RawEvent>,
    now: u64,
    bytes: spec_fn(EventModel) -> nat,
)
    requires
        m.stopped,
        m.idle(),
    ensures
        m.with_batch(raws).settled() == (RotationModel {
            locations: batch_state(m.locations, raws),
            ..m
        }),
        m.with_batch(raws).finished(now, bytes) == m.with_batch(raws).settled(),
{
    let events = batch_events(m.locations, raws);
    lemma_write_steps_are_writes(events);
    let b = m.with_batch(raws);
    assert forall|i: int| 1 <= i < b.todo.len() implies #[trigger] b.todo[i] is Write by {
        assert(b.todo[i] == write_steps(events)[i - 1]);
    }
    lemma_stopped_batch(b, now, bytes);
    assert(m.todo =~= Seq::empty());
}

/// A call that writes recorded events, the time of it, and the bytes that each
/// event takes in it.
pub struct WriteCall {
    pub raws: Seq<RawEvent>,
    pub now: u64,
    pub bytes: spec_fn(EventModel) -> nat,
}

/// The state after `calls`, one after the other, if every file operation
/// succeeds.
pub open spec fn after_writes(m: RotationModel, calls: Seq<WriteCall>) -> RotationModel
    decreases calls.len(),
{
    if calls.len() == 0 {
        m
    } else {
        let call = calls.last();
        after_writes(m, calls.drop_last()).with_batch(call.raws).finished(call.now, call.bytes)
    }
}

/// Whether ids are left for the locations of every call.
pub open spec fn writes_have_room(m: RotationModel, calls: Seq<WriteCall>) -> bool {
    forall|i: int|
        0 <= i < calls.len() ==> batch_has_room(
            after_writes(m, calls.take(i)).locations,
            (#[trigger] calls[i]).raws,
        )
}

/// Whether the budget was overrun in call `i`, by no more than the last event
/// that was written in it, with a single file left, and nothing was written
/// after it up to the state `r`.
pub open spec fn overran_in(
    m: RotationModel,
    calls: Seq<WriteCall>,
    i: int,
    r: RotationModel,
) -> bool {
    let s = after_writes(m, calls.take(i + 1));
    &&& 0 <= i < calls.len()
    &&& !after_writes(m, calls.take(i)).over_budget()
    &&& s.stopped
    &&& s.segment.len() > 0
    &&& s.total_size <= m.max_total_size + (calls[i].bytes)(s.segment.last())
    &&& r.files == s.files
    &&& r.total_size == s.total_size
    &&& r.segment == s.segment
    &&& r.sealed == s.sealed
}

/// Disk usage stays bounded over any number of writes: the files take more than
/// the budget only once the writer has stopped, and then a single file is left,
/// over the budget by no more than the last event written, and nothing was
/// written since. This holds of every writer that starts within a budget which
/// a header fits in.
pub proof fn lemma_writes_overrun_by_last_event(m: RotationModel, calls: Seq<WriteCall>)
    requires
        m.wf(),
        m.idle(),
        !m.stopped,
        !m.over_budget(),
        m.max_total_size >= HEADER_SIZE,
        writes_have_room(m, calls),
    ensures
        ({
            let r = after_writes(m, calls);
            &&& r.wf()
            &&& r.idle()
            &&& r.max_total_size == m.max_total_size
            &&& r.over_budget() <==> r.stopped
            &&& r.stopped ==> r.files.len() == 1 && exists|i: int| #[trigger]
                overran_in(m, calls, i, r)
        }),
    decreases calls.len(),
{
    if calls.len() > 0 {
        let init = calls.drop_last();
        let last = calls.len() - 1;
        let call = calls.last();
        assert forall|i: int| 0 <= i < init.len() implies batch_has_room(
            after_writes(m, init.take(i)).locations,
            (#[trigger] init[i]).raws,
        ) by {
            assert(init.take(i) =~= calls.take(i));
            assert(init[i] == calls[i]);
        }
        lemma_writes_overrun_by_last_event(m, init);
        assert(calls.take(last) =~= init);
        assert(calls[last] == call);
        let p = after_writes(m, init);
        let r = after_writes(m, calls);
        assert(batch_has_room(p.locations, call.raws));
        if p.stopped {
            lemma_stopped_writes_nothing(p, call.raws, call.now, call.bytes);
            lemma_batch_state_wf(p.locations, call.raws);
            let i = choose|i: int| #[trigger] overran_in(m, init, i, p);
            assert(init.take(i) =~= calls.take(i));
            assert(init.take(i + 1) =~= calls.take(i + 1));
            assert(init[i] == calls[i]);
            assert(overran_in(m, calls, i, r));
        } else {
            lemma_batch_keeps_wf(p, call.raws);
            lemma_batch_ends_within_budget(p.with_batch(call.raws), call.now, call.bytes);
            lemma_overshoot_is_one_event(p, call.raws, call.now, call.bytes);
            assert(calls.take(last + 1) =~= calls);
            if r.stopped {
                assert(overran_in(m, calls, last, r));
            }
        }
    }
}

/// A new writer keeps to its budget over any number of writes, but for the last
/// event written.
pub proof fn lemma_new_writer_overruns_by_last_event(
    stem: Seq<char>,
    first_name: Seq<char>,
    max_file_size: nat,
    max_total_size: nat,
    calls: Seq<WriteCall>,
)
    requires
        max_total_size >= HEADER_SIZE,
        writes_have_room(
            RotationModel::started(stem, first_name, max_file_size, max_total_size),
            calls,
        ),
    ensures
        ({
            let m = RotationModel::started(stem, first_name, max_file_size, max_total_size);
            let r = after_writes(m, calls);
            &&& r.over_budget() <==> r.stopped
            &&& r.stopped ==> r.files.len() == 1 && exists|i: int| #[trigger]
                overran_in(m, calls, i, r)
        }),
{
    let m = RotationModel::started(stem, first_name, max_file_size, max_total_size);
    reveal_with_fuel(sum_sizes, 2);
    assert(m.files.drop_last() =~= Seq::empty());
    lemma_writes_overrun_by_last_event(m, calls);
}

/// A batch that is about to be written agrees with the books.
proof fn lemma_batch_keeps_wf(m: RotationModel, raws: Seq<RawEvent>)
    requires
        m.wf(),
        m.idle(),
        batch_has_room(m.locations, raws),
    ensures
        m.with_batch(raws).wf(),
        is_batch(m.with_batch(raws).todo),
{
    lemma_batch_writes_resolved_events(m, raws);
    lemma_batch_state_wf(m.locations, raws);
}

/// The bytes that `events` take.
pub open spec fn total_bytes(events: Seq<EventModel>, bytes: spec_fn(EventModel) -> nat) -> nat
    decreases events.len(),
{
    if events.len() == 0 {
        0
    } else {
        bytes(events[0]) + total_bytes(events.drop_first(), bytes)
    }
}

/// What a new segment starts with: its metadata, if there is any.
pub open spec fn segment_start(m: RotationModel, now: u64) -> Seq<EventModel> {
    if m.metadata is Some {
        seq![m.metadata_event(now)]
    } else {
        Seq::empty()
    }
}

proof fn lemma_rotation_log(
    m: RotationModel,
    k: int,
    now: u64,
    bytes: spec_fn(EventModel) -> nat,
)
    requires
        is_rotation(m.todo, k),
        m.pending is Nothing,
        m.files.len() >= 1,
    ensures
        ({
            let r = m.finished(now, bytes);
            &&& m.stopped ==> r.stopped
            &&& k >= 4 ==> r.sealed == m.sealed.push((m.segment, m.damaged)) && r.segment
                == segment_start(m, now)
            &&& k == 3 ==> r.sealed == m.sealed && r.segment == m.segment + segment_start(m, now)
            &&& k <= 2 ==> r.sealed == m.sealed && r.segment == m.segment
        }),
    decreases load(m.todo), m.files.len(),
{
    lemma_rotation_rest(m.todo, k);
    if m.needs_op() {
        let b = bytes(m.op_event(now));
        let n = m.issued(now).succeeded(b);
        lemma_op_progresses(m, now, b);
        if k == 1 {
            assert(n.todo == m.todo);
            lemma_rotation_log(n, 1, now, bytes);
        } else {
            assert(n.todo == m.todo.drop_last());
            lemma_rotation_log(n, k - 1, now, bytes);
            if k == 4 {
                assert(n.segment + segment_start(n, now) =~= segment_start(m, now));
            }
            if k == 3 {
                assert(n.segment =~= m.segment + segment_start(m, now));
            }
        }
    } else {
        let n = m.skipped();
        lemma_skip_lightens(m);
        if k == 1 {
            assert(n.finished(now, bytes) == n);
        } else {
            lemma_rotation_log(n, k - 1, now, bytes);
            if k == 3 {
                assert(m.segment + segment_start(m, now) =~= m.segment);
            }
        }
    }
}

/// A rotation begins a segment: when every file operation succeeds, what the
/// current segment held is sealed, the next one starts with its metadata, and
/// the total is within the budget, or the writer has stopped with the new
/// segment alone, over the budget by no more than the last event written.
pub proof fn lemma_rotation_begins_a_segment(
    m: RotationModel,
    now: u64,
    bytes: spec_fn(EventModel) -> nat,
)
    requires
        m.wf(),
        m.idle(),
        !m.stopped,
    ensures
        ({
            let r = m.with_rotation().finished(now, bytes);
            &&& r.idle()
            &&& r.sealed == m.sealed.push((m.segment, m.damaged))
            &&& r.segment == segment_start(m, now)
            &&& r.stopped || !r.over_budget()
            &&& r.stopped ==> r.files.len() == 1 && r.total_size <= overshoot_cap(r, bytes)
        }),
{
    let n = m.with_rotation();
    assert(n.todo =~= rotation_steps().take(6));
    assert(is_rotation(n.todo, 6));
    lemma_no_writes_in_rotation(n.todo, 6);
    lemma_batch_ends_within_budget(n, now, bytes);
    lemma_rotation_overshoot(n, 6, now, bytes);
    lemma_rotation_log(n, 6, now, bytes);
}

proof fn lemma_stopped_stays(m: RotationModel, now: u64, bytes: spec_fn(EventModel) -> nat)
    requires
        m.stopped,
    ensures
        m.finished(now, bytes).stopped,
    decreases load(m.todo), m.files.len(),
{
    if m.todo.len() > 0 {
        if m.needs_op() {
            let b = bytes(m.op_event(now));
            lemma_op_progresses(m, now, b);
            lemma_stopped_stays(m.issued(now).succeeded(b), now, bytes);
        } else {
            lemma_skip_lightens(m);
            lemma_stopped_stays(m.skipped(), now, bytes);
        }
    }
}

/// A batch lands in one segment: when every file operation succeeds and the
/// writer does not stop, the events of a batch follow what the current segment
/// holds, and only then, exactly if the segment has outgrown its limit, a new
/// segment begins, with its metadata.
pub proof fn lemma_batch_lands_in_one_segment(
    m: RotationModel,
    now: u64,
    bytes: spec_fn(EventModel) -> nat,
)
    requires
        m.files.len() >= 1,
        m.pending is Nothing,
        is_batch(m.todo),
        !m.finished(now, bytes).stopped,
    ensures
        ({
            let r = m.finished(now, bytes);
            let events = m.segment + writes_left(m.todo);
            if m.current_size + total_bytes(writes_left(m.todo), bytes) > m.max_file_size {
                &&& r.sealed == m.sealed.push((events, m.damaged))
                &&& r.segment == segment_start(m, now)
            } else {
                &&& r.sealed == m.sealed
                &&& r.segment == events
            }
        }),
    decreases load(m.todo), m.files.len(),
{
    if m.stopped {
        lemma_stopped_stays(m, now, bytes);
    }
    let rest = m.todo.drop_last();
    if m.needs_op() {
        let b = bytes(m.op_event(now));
        let n = m.issued(now).succeeded(b);
        lemma_op_progresses(m, now, b);
        lemma_batch_rest(m.todo);
        if m.todo.last() is Write {
            lemma_batch_with_evict(rest);
            let left = writes_left(m.todo);
            assert(left.drop_first() =~= writes_left(rest));
            assert(n.segment + writes_left(n.todo) =~= m.segment + left);
        }
        lemma_batch_lands_in_one_segment(n, now, bytes);
    } else {
        let n = m.skipped();
        lemma_skip_lightens(m);
        if m.todo.len() > 1 {
            lemma_batch_rest(m.todo);
            lemma_batch_lands_in_one_segment(n, now, bytes);
        } else {
            lemma_writes_left_none(m.todo);
            assert(m.segment + writes_left(m.todo) =~= m.segment);
            assert(rest =~= Seq::empty());
            if m.wants_rotation() {
                assert(n.todo =~= rotation_steps().take(6));
                assert(is_rotation(n.todo, 6));
                lemma_rotation_log(n, 6, now, bytes);
            } else {
                assert(n.finished(now, bytes) == n);
            }
        }
    }
}

/// What was recorded is what is written: the events of a batch that is about
/// to be written are the resolved events, in order.
pub proof fn lemma_batch_writes_resolved_events(m: RotationModel, raws: Seq<RawEvent>)
    ensures
        is_batch(m.with_batch(raws).todo),
        writes_left(m.with_batch(raws).todo) == batch_events(m.locations, raws),
{
    lemma_writes_left_of_batch(m.with_batch(raws).todo, batch_events(m.locations, raws));
}

/// A sealed segment is named after the stem and its number, with `bin` as its
/// extension; a segment that is being written has the same name with `active`
/// behind it, by which it is told apart.
pub proof fn lemma_segment_names(stem: Seq<char>, index: nat, name: Seq<char>)
    ensures
        segment_name(stem, index) == stem + seq!['.'] + decimal(index) + seq!['.', 'b', 'i', 'n'],
        active_name(stem, index) == stem + seq!['.'] + decimal(index) + seq!['.', 'b', 'i', 'n']
            + seq!['.', 'a', 'c', 't', 'i', 'v', 'e'],
        is_active(active_name(stem, index)),
        !is_active(segment_name(stem, index)),
        name.len() > 0 ==> is_active(name + seq!['.', 'a', 'c', 't', 'i', 'v', 'e']),
        is_active(name) ==> name.len() > 7 && name.skip(name.len() - 7) == seq![
            '.',
            'a',
            'c',
            't',
            'i',
            'v',
            'e',
        ],
{
    reveal_strlit(".bin");
    reveal_strlit(".active");
    assert(".bin"@ =~= seq!['.', 'b', 'i', 'n']);
    assert(".active"@ =~= seq!['.', 'a', 'c', 't', 'i', 'v', 'e']);
    let sealed = segment_name(stem, index);
    let active = active_name(stem, index);
    assert(active.skip(active.len() - 7) =~= ".active"@);
    assert(sealed[sealed.len() - 1] == 'n');
    if is_active(sealed) {
        assert(sealed.skip(sealed.len() - 7)[6] == 'e');
    }
    if name.len() > 0 {
        let longer = name + ".active"@;
        assert(longer.skip(longer.len() - 7) =~= ".active"@);
    }
}

/// What is asked of the file system: an event is appended as it was resolved;
/// an eviction removes the oldest segment; a seal gives the current segment its
/// sealed name; the next segment is created under the active name of the next
/// number; the metadata that is written is what was set, at the time of the
/// write.
pub proof fn lemma_file_operation_fits_the_step(m: RotationModel, now: u64)
    requires
        m.wf(),
        m.todo.len() > 0,
    ensures
        ({
            let sealed = m.stem + seq!['.'] + decimal((m.next_index - 1) as nat) + ".bin"@;
            let next = m.stem + seq!['.'] + decimal(m.next_index) + ".bin"@ + ".active"@;
            match m.todo.last() {
                StepModel::Write(event) => m.op(now) == (OpModel::Write { event }) && (m.needs_op()
                    <==> !m.stopped),
                StepModel::Flush => m.op(now) is Flush && m.needs_op(),
                StepModel::FlushUnlessStopped => m.op(now) is Flush && (m.needs_op()
                    <==> !m.stopped),
                StepModel::Evict => m.op(now) == (OpModel::Remove { name: m.files[0].0 }) && (
                m.needs_op() <==> m.total_size > m.max_total_size && m.files.len() > 1),
                StepModel::MaybeRotate => !m.needs_op(),
                StepModel::SealSegment => m.op(now) == (OpModel::Rename {
                    from: m.files.last().0,
                    to: sealed,
                }) && m.needs_op(),
                StepModel::SealIfActive => m.op(now) == (OpModel::Rename {
                    from: m.files.last().0,
                    to: sealed,
                }) && (m.needs_op() <==> is_active(m.files.last().0)),
                StepModel::CreateSegment => m.op(now) == (OpModel::Create { name: next })
                    && m.needs_op(),
                StepModel::WriteMetadata => (m.needs_op() <==> m.metadata is Some) && (
                m.metadata matches Some(set) ==> m.op(now) == (OpModel::Write {
                    event: EventModel::SegmentMetadata { timestamp_nanos: now, entries: set },
                })),
                StepModel::FinishRotation => !m.needs_op(),
            }
        }),
{
}

/// A step that succeeds changes what it is about and nothing else: an event that
/// was written is the last of the current segment, which grew by its bytes; a
/// removal took the oldest segment with its size; a seal changed the name of the
/// current segment alone; a created segment is current, holds nothing but its
/// header, and the one before it is closed as it was.
pub proof fn lemma_success_does_what_was_asked(m: RotationModel, now: u64, bytes: nat)
    requires
        m.wf(),
        m.pending is Nothing,
        m.needs_op(),
    ensures
        ({
            let n = m.issued(now).succeeded(bytes);
            let rest = m.todo.drop_last();
            let last = m.files.len() - 1;
            &&& n.stem == m.stem
            &&& n.max_file_size == m.max_file_size
            &&& n.max_total_size == m.max_total_size
            &&& n.stopped == m.stopped
            &&& n.rotated == m.rotated
            &&& n.metadata == m.metadata
            &&& n.locations == m.locations
            &&& n.pending is Nothing
            &&& match m.todo.last() {
                StepModel::Write(event) => {
                    &&& n.segment == m.segment.push(event)
                    &&& n.sealed == m.sealed
                    &&& n.current_size == m.current_size + bytes
                    &&& n.total_size == m.total_size + bytes
                    &&& n.files.len() == m.files.len()
                    &&& n.files.drop_last() == m.files.drop_last()
                    &&& n.files.last() == (m.files.last().0, m.current_size + bytes)
                    &&& n.next_index == m.next_index
                    &&& m.total_size + bytes <= m.max_total_size ==> n.todo == rest
                    &&& m.total_size + bytes > m.max_total_size ==> n.todo == rest + seq![
                        StepModel::Evict,
                        StepModel::Flush,
                    ]
                },
                StepModel::WriteMetadata => {
                    &&& n.segment == m.segment.push(
                        EventModel::SegmentMetadata {
                            timestamp_nanos: now,
                            entries: m.metadata->0,
                        },
                    )
                    &&& n.sealed == m.sealed
                    &&& n.current_size == m.current_size + bytes
                    &&& n.total_size == m.total_size + bytes
                    &&& n.todo == rest
                },
                StepModel::Evict => {
                    &&& n.files == m.files.drop_first()
                    &&& n.total_size == m.total_size - m.files[0].1
                    &&& n.current_size == m.current_size
                    &&& n.segment == m.segment
                    &&& n.sealed == m.sealed
                    &&& n.todo == m.todo
                },
                StepModel::CreateSegment => {
                    &&& n.files == m.files.push(
                        (
                            m.stem + seq!['.'] + decimal(m.next_index) + ".bin"@ + ".active"@,
                            12nat,
                        ),
                    )
                    &&& n.current_size == 12
                    &&& n.total_size == m.total_size + 12
                    &&& n.next_index == m.next_index + 1
                    &&& n.segment.len() == 0
                    &&& n.sealed == m.sealed.push((m.segment, m.damaged))
                    &&& n.todo == rest
                },
                StepModel::Flush | StepModel::FlushUnlessStopped => {
                    &&& n.files == m.files
                    &&& n.total_size == m.total_size
                    &&& n.segment == m.segment
                    &&& n.sealed == m.sealed
                    &&& n.next_index == m.next_index
                    &&& n.todo == rest
                },
                _ => {
                    &&& n.files.len() == m.files.len()
                    &&& n.files.drop_last() == m.files.drop_last()
                    &&& n.files.last() == (
                        m.stem + seq!['.'] + decimal((m.next_index - 1) as nat) + ".bin"@,
                        m.current_size,
                    )
                    &&& n.total_size == m.total_size
                    &&& n.segment == m.segment
                    &&& n.sealed == m.sealed
                    &&& n.next_index == m.next_index
                    &&& n.todo == rest
                },
            }
        }),
{
    let n = m.issued(now).succeeded(bytes);
    let rest = m.todo.drop_last();
    lemma_sum_drop_first(m.files);
    assert(m.files.len() == n.files.len() ==> n.files.drop_last() =~= m.files.drop_last());
    assert(rest.push(StepModel::Evict).push(StepModel::Flush) =~= rest + seq![
        StepModel::Evict,
        StepModel::Flush,
    ]);
}

/// A step without a file operation: a segment over its limit is rotated, by
/// flush, seal, creation of the next one, its metadata, a note of the rotation
/// and an eviction, in this order; an eviction with nothing left to remove stops
/// the writer where the budget is still exceeded; a noted rotation is reported
/// and makes the new file owe every definition.
pub proof fn lemma_settled_steps(m: RotationModel)
    requires
        m.todo.len() > 0,
        !m.needs_op(),
    ensures
        ({
            let n = m.skipped();
            let rest = m.todo.drop_last();
            &&& n.files == m.files
            &&& n.total_size == m.total_size
            &&& n.segment == m.segment
            &&& n.sealed == m.sealed
            &&& n.metadata == m.metadata
            &&& match m.todo.last() {
                StepModel::MaybeRotate => n.todo == (if !m.stopped && m.current_size
                    > m.max_file_size {
                    rest + seq![
                        StepModel::Evict,
                        StepModel::FinishRotation,
                        StepModel::WriteMetadata,
                        StepModel::CreateSegment,
                        StepModel::SealSegment,
                        StepModel::Flush,
                    ]
                } else {
                    rest
                }) && n.stopped == m.stopped && n.rotated == m.rotated,
                StepModel::Evict => n.todo == rest && (n.stopped <==> m.stopped || m.total_size
                    > m.max_total_size) && n.rotated == m.rotated,
                StepModel::FinishRotation => n.todo == rest && n.rotated && n.stopped == m.stopped
                    && n.locations.ids == m.locations.ids && n.locations.names
                    == m.locations.names && n.locations.emitted.is_empty(),
                _ => n.todo == rest && n.stopped == m.stopped && n.rotated == m.rotated
                    && n.locations == m.locations,
            }
        }),
{
}

/// A failed file operation ends the operation it belongs to, except that a
/// segment which could not be removed is passed over; the books are as before.
pub proof fn lemma_failure_ends_the_operation(m: RotationModel)
    ensures
        m.failed().pending is Nothing,
        m.pending is Remove ==> m.failed().todo == m.todo && m.failed().damaged == m.damaged,
        !(m.pending is Remove) ==> m.failed().todo.len() == 0 && m.failed().damaged,
        m.failed().files == m.files,
        m.failed().total_size == m.total_size,
        m.failed().current_size == m.current_size,
        m.failed().segment == m.segment,
        m.failed().sealed == m.sealed,
        m.failed().stopped == m.stopped,
{
}

/// A writer starts with one file that holds its header, with the limits it was
/// given, nothing stopped and nothing rotated.
pub proof fn lemma_writer_starts_with_a_header(
    stem: Seq<char>,
    first_name: Seq<char>,
    max_file_size: nat,
    max_total_size: nat,
)
    ensures
        ({
            let m = RotationModel::started(stem, first_name, max_file_size, max_total_size);
            &&& m.stem == stem
            &&& m.max_file_size == max_file_size
            &&& m.max_total_size == max_total_size
            &&& m.files == seq![(first_name, 12nat)]
            &&& m.total_size == 12
            &&& m.current_size == 12
            &&& m.next_index == 1
            &&& !m.stopped
            &&& !m.rotated
            &&& m.metadata is None
            &&& m.segment.len() == 0
            &&& m.sealed.len() == 0
            &&& m.idle()
        }),
{
}

/// The steps of a batch come out in the order of its events, and the check for a
/// rotation comes last. The other operations are: a rotation, which does nothing
/// once the writer has stopped; a flush; a seal, which flushes first; and new
/// metadata, which is kept and written.
pub proof fn lemma_operations_are_made_of_these_steps(
    m: RotationModel,
    raws: Seq<RawEvent>,
    entries: Seq<(Seq<char>, Seq<char>)>,
)
    ensures
        ({
            let events = batch_events(m.locations, raws);
            let todo = m.with_batch(raws).todo;
            &&& todo.len() == events.len() + 1
            &&& todo[0] is MaybeRotate
            &&& forall|i: int|
                0 <= i < events.len() ==> todo[todo.len() - 1 - i] == StepModel::Write(
                    #[trigger] events[i],
                )
            &&& m.with_batch(raws).locations == batch_state(m.locations, raws)
        }),
        m.stopped ==> m.with_rotation().todo.len() == 0,
        !m.stopped ==> m.with_rotation().todo == seq![
            StepModel::Evict,
            StepModel::FinishRotation,
            StepModel::WriteMetadata,
            StepModel::CreateSegment,
            StepModel::SealSegment,
            StepModel::Flush,
        ],
        m.with_flush().todo == seq![StepModel::FlushUnlessStopped],
        m.with_seal().todo == seq![StepModel::SealIfActive, StepModel::FlushUnlessStopped],
        m.with_metadata(entries).todo == seq![StepModel::WriteMetadata],
        m.with_metadata(entries).metadata == Some(entries),
{
    let events = batch_events(m.locations, raws);
    lemma_write_steps_are_the_events(events);
    let todo = m.with_batch(raws).todo;
    let writes = write_steps(events);
    assert forall|i: int| 0 <= i < events.len() implies todo[todo.len() - 1 - i]
        == StepModel::Write(#[trigger] events[i]) by {
        assert(todo[todo.len() - 1 - i] == writes[writes.len() - 1 - i]);
    }
}

proof fn lemma_write_steps_are_the_events(events: Seq<EventModel>)
    ensures
        write_steps(events).len() == events.len(),
        forall|i: int|
            0 <= i < events.len() ==> write_steps(events)[events.len() - 1 - i] == StepModel::Write(
                #[trigger] events[i],
            ),
    decreases events.len(),
{
    if events.len() > 0 {
        let rest = events.drop_first();
        lemma_write_steps_are_the_events(rest);
        assert forall|i: int| 0 <= i < events.len() implies write_steps(events)[events.len() - 1
            - i] == StepModel::Write(#[trigger] events[i]) by {
            if i > 0 {
                assert(events[i] == rest[i - 1]);
            }
        }
    }
}

/// A batch resolves event by event: each event is resolved in the state that the
/// events before it left, and what it resolves to follows what they did.
pub proof fn lemma_batch_is_resolved_in_order(m: FlushModel, raws: Seq<RawEvent>, raw: RawEvent)
    ensures
        batch_events(m, Seq::empty()) == Seq::<EventModel>::empty(),
        batch_state(m, Seq::empty()) == m,
        batch_events(m, raws.push(raw)) == batch_events(m, raws) + batch_state(m, raws).events_for(
            raw,
        ),
        batch_state(m, raws.push(raw)) == batch_state(m, raws).after(raw),
{
    assert(raws.push(raw).drop_last() =~= raws);
}

/// Steps without a file operation are done one after the other, each as it comes
/// up, until one needs a file operation or none is left; no step is passed over.
pub proof fn lemma_settling_does_each_step(m: RotationModel)
    ensures
        m.todo.len() == 0 || m.needs_op() ==> m.settled() == m,
        m.todo.len() > 0 && !m.needs_op() ==> m.settled() == m.skipped().settled(),
{
}

} // verus!
