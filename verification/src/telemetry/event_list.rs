//! A short list of written events, kept inline up to three events.

use crate::telemetry::events::{EventModel, TelemetryEvent};
use smallvec::SmallVec;
use vstd::prelude::*;

verus! {

/// The events that one recorded event resolves to: its definitions, then the
/// event itself.
#[verifier::external_body]
pub struct EventList {
    inner: SmallVec<[TelemetryEvent; 3]>,
}

/// The events that a list holds, in the order in which they were pushed.
pub uninterp spec fn event_list_contents(list: EventList) -> Seq<TelemetryEvent>;

/// The value of each event of a sequence.
pub open spec fn event_models(events: Seq<TelemetryEvent>) -> Seq<EventModel> {
    events.map_values(|e: TelemetryEvent| e@)
}

impl View for EventList {
    type V = Seq<EventModel>;

    open spec fn view(&self) -> Seq<EventModel> {
        event_models(event_list_contents(*self))
    }
}

impl EventList {
    /// `SmallVec::new` makes a list without elements.
    #[verifier::external_body]
    fn empty() -> (list: EventList)
        ensures
            event_list_contents(list) == Seq::<TelemetryEvent>::empty(),
    {
        EventList { inner: SmallVec::new() }
    }

    /// `SmallVec::push` appends the value to the end of the list.
    #[verifier::external_body]
    fn append_one(&mut self, event: TelemetryEvent)
        ensures
            event_list_contents(*final(self)) == event_list_contents(*old(self)).push(event),
    {
        self.inner.push(event)
    }

    /// `SmallVec::len` is the number of elements of the list.
    #[verifier::external_body]
    fn count(&self) -> (n: usize)
        ensures
            n == event_list_contents(*self).len(),
    {
        self.inner.len()
    }

    /// Indexing a `SmallVec` within its length gives the element at that place.
    #[verifier::external_body]
    fn at(&self, i: usize) -> (event: &TelemetryEvent)
        requires
            i < event_list_contents(*self).len(),
        ensures
            *event == event_list_contents(*self)[i as int],
    {
        &self.inner[i]
    }

    /// `SmallVec::into_vec` hands out the elements in order.
    #[verifier::external_body]
    fn elements(self) -> (events: Vec<TelemetryEvent>)
        ensures
            events@ == event_list_contents(self),
    {
        self.inner.into_vec()
    }

    /// The events of the list, in order.
    pub fn into_events(self) -> (events: Vec<TelemetryEvent>)
        ensures
            event_models(events@) == self@,
    {
        self.elements()
    }

    /// A list without events.
    pub fn new() -> (list: EventList)
        ensures
            list@ == Seq::<EventModel>::empty(),
    {
        let list = EventList::empty();
        assert(list@ =~= Seq::<EventModel>::empty());
        list
    }

    /// Appends an event.
    pub fn push(&mut self, event: TelemetryEvent)
        ensures
            final(self)@ == old(self)@.push(event@),
    {
        let ghost before = event_list_contents(*self);
        self.append_one(event);
        assert(self@ =~= event_models(before).push(event@));
    }

    /// The number of events.
    pub fn len(&self) -> (n: usize)
        ensures
            n == self@.len(),
    {
        self.count()
    }

    /// The event at index `i`, or `None` past the end.
    pub fn get(&self, i: usize) -> (event: Option<&TelemetryEvent>)
        ensures
            event is Some <==> i < self@.len(),
            event matches Some(e) ==> e@ == self@[i as int],
    {
        if i < self.count() {
            Some(self.at(i))
        } else {
            None
        }
    }
}

/// The values of events are taken one by one, in order.
pub proof fn lemma_values_are_in_order(events: Seq<TelemetryEvent>, i: int)
    requires
        0 <= i < events.len(),
    ensures
        event_models(events).len() == events.len(),
        event_models(events)[i] == events[i]@,
{
}

} // verus!
