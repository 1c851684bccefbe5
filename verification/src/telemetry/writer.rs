//! Trace writers: where recorded events go.

use crate::telemetry::event_list::EventList;
use crate::telemetry::events::RawEvent;
use crate::telemetry::recorder::flush_state::{spawn_location, FlushModel, FlushState};
use vstd::prelude::*;

verus! {

/// The error of a file operation, carried through unread.
#[verifier::external_type_specification]
#[verifier::external_body]
pub struct ExIoError(std::io::Error);

/// A call of a [`TraceWriter`] method, with its argument.
pub enum WriterCall {
    WriteEvent(RawEvent),
    WriteAtomic(Seq<RawEvent>),
    Flush,
    TakeRotated,
    Seal,
}

/// What a [`TraceWriter`] method returned.
pub enum WriterReply {
    Done(std::io::Result<()>),
    Flag(bool),
}

/// A sink for recorded events.
///
/// `does` is the implementor's own account of what a call may do; the users of
/// a writer state in its terms which calls they make and what they return for
/// each reply.
pub trait TraceWriter: Sized {
    /// Whether `call` on `before` may reply `reply` and leave `after`. An
    /// implementor that gives no account of itself may do anything.
    open spec fn does(before: Self, call: WriterCall, reply: WriterReply, after: Self) -> bool {
        true
    }

    /// Write one event.
    fn write_event(&mut self, event: &RawEvent) -> (r: std::io::Result<()>)
        ensures
            Self::does(
                *old(self),
                WriterCall::WriteEvent(*event),
                WriterReply::Done(r),
                *final(self),
            ),
    ;

    /// Flush what is buffered.
    fn flush(&mut self) -> (r: std::io::Result<()>)
        ensures
            Self::does(*old(self), WriterCall::Flush, WriterReply::Done(r), *final(self)),
    ;

    /// Returns true if the writer rotated to a new file since the last call to
    /// this method. A writer that never rotates returns false.
    fn take_rotated(&mut self) -> (b: bool)
        ensures
            Self::does(*old(self), WriterCall::TakeRotated, WriterReply::Flag(b), *final(self)),
    ;

    /// Write a group of events atomically — all events in the batch land in the
    /// same file. A writer with a single file can use [`write_each`].
    fn write_atomic(&mut self, events: &Vec<RawEvent>) -> (r: std::io::Result<()>)
        ensures
            Self::does(
                *old(self),
                WriterCall::WriteAtomic(events@),
                WriterReply::Done(r),
                *final(self),
            ),
    ;

    /// Seal the current segment. A writer without segments flushes.
    fn seal(&mut self) -> (r: std::io::Result<()>)
        ensures
            Self::does(*old(self), WriterCall::Seal, WriterReply::Done(r), *final(self)),
    ;
}

/// Whether writing `events` one by one from `before` may end with `r` and
/// leave `after`: every write but the last one made succeeded, and the writing
/// stopped at the first failure.
pub open spec fn writes_each<W: TraceWriter>(
    before: W,
    events: Seq<RawEvent>,
    r: std::io::Result<()>,
    after: W,
) -> bool
    decreases events.len(),
{
    if events.len() == 0 {
        r is Ok && after == before
    } else {
        exists|first: std::io::Result<()>, middle: W| #[trigger]
            W::does(
                before,
                WriterCall::WriteEvent(events[0]),
                WriterReply::Done(first),
                middle,
            ) && (if first is Ok {
                writes_each(middle, events.drop_first(), r, after)
            } else {
                r == first && after == middle
            })
    }
}

/// Writes events one by one, stopping at the first failure.
pub fn write_each<W: TraceWriter>(writer: &mut W, events: &Vec<RawEvent>) -> (r: std::io::Result<
    (),
>)
    ensures
        writes_each(*old(writer), events@, r, *final(writer)),
{
    assert(events@.skip(0) =~= events@);
    write_from(writer, events, 0)
}

fn write_from<W: TraceWriter>(writer: &mut W, events: &Vec<RawEvent>, from: usize) -> (r:
    std::io::Result<()>)
    requires
        from <= events@.len(),
    ensures
        writes_each(*old(writer), events@.skip(from as int), r, *final(writer)),
    decreases events@.len() - from,
{
    if from == events.len() {
        assert(events@.skip(from as int).len() == 0);
        return Ok(());
    }
    let ghost rest = events@.skip(from as int);
    assert(rest.drop_first() =~= events@.skip(from + 1));
    assert(rest[0] == events@[from as int]);
    match writer.write_event(&events[from]) {
        Ok(()) => write_from(writer, events, from + 1),
        Err(e) => Err(e),
    }
}

/// A writer that discards all events. Useful for benchmarking hook overhead
/// without I/O costs.
pub struct NullWriter;

impl TraceWriter for NullWriter {
    /// Every call succeeds at once, and there never is a rotation.
    open spec fn does(
        before: NullWriter,
        call: WriterCall,
        reply: WriterReply,
        after: NullWriter,
    ) -> bool {
        match call {
            WriterCall::TakeRotated => reply == WriterReply::Flag(false),
            _ => reply matches WriterReply::Done(r) && r is Ok,
        }
    }

    fn write_event(&mut self, _event: &RawEvent) -> (r: std::io::Result<()>) {
        Ok(())
    }

    fn flush(&mut self) -> (r: std::io::Result<()>) {
        Ok(())
    }

    fn take_rotated(&mut self) -> (b: bool) {
        false
    }

    fn write_atomic(&mut self, _events: &Vec<RawEvent>) -> (r: std::io::Result<()>) {
        Ok(())
    }

    fn seal(&mut self) -> (r: std::io::Result<()>) {
        Ok(())
    }
}

/// Resolves recorded events into written events by interning spawn locations.
///
/// This is useful for custom [`TraceWriter`] implementations that need to
/// convert recorded events into their written form. The resolver tracks which
/// spawn-location definitions have been emitted and re-emits them as needed.
///
/// Call [`on_rotate`](Self::on_rotate) when the writer rotates to a new file
/// so that definitions are re-emitted in the new file.
pub struct EventResolver {
    inner: FlushState,
}

impl View for EventResolver {
    type V = FlushModel;

    closed spec fn view(&self) -> FlushModel {
        self.inner@
    }
}

impl Default for EventResolver {
    fn default() -> (resolver: EventResolver)
        ensures
            resolver.inv(),
            resolver@ == FlushModel::fresh(),
    {
        EventResolver::new()
    }
}

impl EventResolver {
    pub closed spec fn inv(self) -> bool {
        self.inner.inv()
    }

    /// Create a new resolver with empty interning state.
    pub fn new() -> (resolver: EventResolver)
        ensures
            resolver.inv(),
            resolver@ == FlushModel::fresh(),
    {
        EventResolver { inner: FlushState::new() }
    }

    /// Resolve a recorded event into one or more written events.
    ///
    /// For events that reference a spawn location, this returns the
    /// `SpawnLocationDef` (if not yet emitted in the current file) followed
    /// by the event itself.
    pub fn resolve(&mut self, raw: &RawEvent) -> (events: EventList)
        requires
            old(self).inv(),
            spawn_location(*raw) matches Some(location) ==> old(self)@.has_room(location),
        ensures
            final(self).inv(),
            final(self)@ == old(self)@.after(*raw),
            events@ == old(self)@.events_for(*raw),
    {
        self.inner.resolve(raw)
    }

    /// Whether an id is left for the location of `raw`.
    pub fn can_resolve(&self, raw: &RawEvent) -> (b: bool)
        requires
            self.inv(),
        ensures
            b == (spawn_location(*raw) matches Some(location) ==> self@.has_room(location)),
    {
        self.inner.can_resolve(raw)
    }

    /// Notify the resolver that the writer rotated to a new file.
    /// The next reference to any spawn location will re-emit its definition.
    pub fn on_rotate(&mut self)
        requires
            old(self).inv(),
        ensures
            final(self).inv(),
            final(self)@ == old(self)@.rotated(),
    {
        self.inner.on_rotate();
    }
}

/// Writing events one by one writes the first one first and goes on behind it
/// only if that succeeded; otherwise its failure is what is returned, and
/// nothing more is written.
pub proof fn lemma_writing_stops_at_a_failure<W: TraceWriter>(
    before: W,
    events: Seq<RawEvent>,
    r: std::io::Result<()>,
    after: W,
) -> (path: (std::io::Result<()>, W))
    requires
        writes_each(before, events, r, after),
    ensures
        events.len() == 0 ==> r is Ok && after == before,
        events.len() > 0 ==> {
            &&& W::does(
                before,
                WriterCall::WriteEvent(events[0]),
                WriterReply::Done(path.0),
                path.1,
            )
            &&& path.0 is Ok ==> writes_each(path.1, events.drop_first(), r, after)
            &&& path.0 is Err ==> r == path.0 && after == path.1
        },
{
    if events.len() == 0 {
        (r, before)
    } else {
        choose|first: std::io::Result<()>, middle: W| #[trigger]
            W::does(
                before,
                WriterCall::WriteEvent(events[0]),
                WriterReply::Done(first),
                middle,
            ) && (if first is Ok {
                writes_each(middle, events.drop_first(), r, after)
            } else {
                r == first && after == middle
            })
    }
}

/// A writer that discards events succeeds at everything and never rotates.
pub proof fn lemma_null_writer_always_succeeds(
    before: NullWriter,
    call: WriterCall,
    reply: WriterReply,
    after: NullWriter,
)
    requires
        NullWriter::does(before, call, reply, after),
    ensures
        call is TakeRotated ==> reply == WriterReply::Flag(false),
        !(call is TakeRotated) ==> (reply matches WriterReply::Done(r) && r is Ok),
{
}

} // verus!
