//! Interning of spawn locations, with the definitions that each file needs.

use crate::telemetry::event_list::EventList;
use crate::telemetry::events::{
    clone_addresses, clone_opt_string, opt_chars, EventModel, RawEvent, SpawnLocRef, SpawnLocation,
    TelemetryEvent,
};
use crate::telemetry::task_metadata::SpawnLocationId;
use std::collections::{HashMap, HashSet};
use vstd::prelude::*;

verus! {

broadcast use vstd::std_specs::hash::group_hash_axioms;

/// The name of the location id 0, which no location has.
pub open spec fn unknown_location() -> Seq<char> {
    "<unknown>"@
}

/// The value of a [`FlushState`].
#[verifier::ext_equal]
pub struct FlushModel {
    /// The id of each interned location, by the location's address.
    pub ids: Map<usize, u16>,
    /// The text of each id.
    pub names: Seq<Seq<char>>,
    /// The ids whose definition the current file holds.
    pub emitted: Set<u16>,
}

impl FlushModel {
    /// Nothing interned, nothing emitted.
    pub open spec fn fresh() -> FlushModel {
        FlushModel {
            ids: Map::empty(),
            names: seq![unknown_location()],
            emitted: Set::empty(),
        }
    }

    /// Every id has a text; no two locations share an id; no location has id 0;
    /// only known ids were emitted.
    pub open spec fn wf(self) -> bool {
        &&& 1 <= self.names.len() <= u16::MAX
        &&& self.names[0] == unknown_location()
        &&& forall|a: usize| #[trigger]
            self.ids.contains_key(a) ==> 0 < self.ids[a] < self.names.len()
        &&& forall|a: usize, b: usize| #[trigger]
            self.ids.contains_key(a) && #[trigger] self.ids.contains_key(b) && self.ids[a]
                == self.ids[b] ==> a == b
        &&& forall|i: u16| #[trigger] self.emitted.contains(i) ==> i < self.names.len()
    }

    /// Whether `location` is interned already, or an id is left for it.
    pub open spec fn has_room(self, location: SpawnLocation) -> bool {
        self.ids.contains_key(location.address) || self.names.len() < u16::MAX
    }

    /// The id that `location` has, or would get next.
    pub open spec fn id_of(self, location: SpawnLocation) -> u16 {
        if self.ids.contains_key(location.address) {
            self.ids[location.address]
        } else {
            self.names.len() as u16
        }
    }

    /// The state once `location` is interned.
    pub open spec fn with_location(self, location: SpawnLocation) -> FlushModel {
        if self.ids.contains_key(location.address) {
            self
        } else {
            FlushModel {
                ids: self.ids.insert(location.address, self.names.len() as u16),
                names: self.names.push(location.text()),
                emitted: self.emitted,
            }
        }
    }

    /// The state once the definition of `id` stands in the current file.
    pub open spec fn with_emitted(self, id: u16) -> FlushModel {
        FlushModel { emitted: self.emitted.insert(id), ..self }
    }

    /// The definition of `id`, unless the current file holds it already.
    pub open spec fn defs_for(self, id: u16) -> Seq<EventModel> {
        if self.emitted.contains(id) {
            Seq::empty()
        } else {
            seq![
                EventModel::SpawnLocationDef {
                    id: SpawnLocationId(id),
                    location: self.names[id as int],
                },
            ]
        }
    }

    /// The state at the start of a new file.
    pub open spec fn rotated(self) -> FlushModel {
        FlushModel { emitted: Set::empty(), ..self }
    }

    /// The state after `raw` is resolved.
    pub open spec fn after(self, raw: RawEvent) -> FlushModel {
        match spawn_location(raw) {
            Some(location) => self.with_location(location).with_emitted(self.id_of(location)),
            None => self,
        }
    }

    /// What `raw` resolves to: the definition of its location if the current
    /// file lacks it, then the event.
    pub open spec fn events_for(self, raw: RawEvent) -> Seq<EventModel> {
        match spawn_location(raw) {
            Some(location) => self.with_location(location).defs_for(self.id_of(location)).push(
                written(raw, self.id_of(location)),
            ),
            None => seq![written(raw, 0)],
        }
    }
}

/// The spawn location that a recorded event carries.
pub open spec fn spawn_location(raw: RawEvent) -> Option<SpawnLocation> {
    match raw {
        RawEvent::TaskSpawn { location, .. } => Some(location),
        RawEvent::PollStart { location, .. } => Some(location),
        _ => None,
    }
}

/// The written form of `raw` when its location, if it has one, has the id `id`.
pub open spec fn written(raw: RawEvent, id: u16) -> EventModel {
    match raw {
        RawEvent::TaskSpawn { timestamp_nanos, task_id, .. } => EventModel::Plain(
            TelemetryEvent::TaskSpawn {
                timestamp_nanos,
                task_id,
                spawn_loc: SpawnLocRef::Defined(SpawnLocationId(id)),
            },
        ),
        RawEvent::TaskTerminate { timestamp_nanos, task_id } => EventModel::Plain(
            TelemetryEvent::TaskTerminate { timestamp_nanos, task_id },
        ),
        RawEvent::PollStart {
            timestamp_nanos,
            worker_id,
            worker_local_queue_depth,
            task_id,
            ..
        } => EventModel::Plain(
            TelemetryEvent::PollStart {
                timestamp_nanos,
                worker_id,
                worker_local_queue_depth,
                task_id,
                spawn_loc: SpawnLocRef::Defined(SpawnLocationId(id)),
            },
        ),
        RawEvent::PollEnd { timestamp_nanos, worker_id } => EventModel::Plain(
            TelemetryEvent::PollEnd { timestamp_nanos, worker_id },
        ),
        RawEvent::WorkerPark {
            timestamp_nanos,
            worker_id,
            worker_local_queue_depth,
            cpu_time_nanos,
        } => EventModel::Plain(
            TelemetryEvent::WorkerPark {
                timestamp_nanos,
                worker_id,
                worker_local_queue_depth,
                cpu_time_nanos,
            },
        ),
        RawEvent::WorkerUnpark {
            timestamp_nanos,
            worker_id,
            worker_local_queue_depth,
            cpu_time_nanos,
            sched_wait_delta_nanos,
        } => EventModel::Plain(
            TelemetryEvent::WorkerUnpark {
                timestamp_nanos,
                worker_id,
                worker_local_queue_depth,
                cpu_time_nanos,
                sched_wait_delta_nanos,
            },
        ),
        RawEvent::QueueSample { timestamp_nanos, global_queue_depth } => EventModel::Plain(
            TelemetryEvent::QueueSample { timestamp_nanos, global_queue_depth },
        ),
        RawEvent::WakeEvent { timestamp_nanos, waker_task_id, woken_task_id, target_worker } =>
            EventModel::Plain(
                TelemetryEvent::WakeEvent {
                    timestamp_nanos,
                    waker_task_id,
                    woken_task_id,
                    target_worker,
                },
            ),
        RawEvent::CpuSample(data) => EventModel::CpuSample {
            timestamp_nanos: data.timestamp_nanos,
            worker_id: data.worker_id,
            tid: data.tid,
            source: data.source,
            callchain: data.callchain@,
        },
        RawEvent::CallframeDef(data) => EventModel::CallframeDef {
            address: data.address,
            symbol: data.symbol@,
            location: opt_chars(data.location),
        },
        RawEvent::ThreadNameDef(data) => EventModel::ThreadNameDef {
            tid: data.tid,
            name: data.name@,
        },
    }
}

/// The characters of each string.
pub open spec fn all_chars(strings: Seq<String>) -> Seq<Seq<char>> {
    strings.map_values(|s: String| s@)
}

/// Flush-thread state for interning spawn locations and tracking per-file emissions.
pub struct FlushState {
    intern_map: HashMap<usize, u16>,
    intern_strings: Vec<String>,
    emitted_this_file: HashSet<u16>,
    next_id: u16,
}

impl View for FlushState {
    type V = FlushModel;

    closed spec fn view(&self) -> FlushModel {
        FlushModel {
            ids: self.intern_map@,
            names: all_chars(self.intern_strings@),
            emitted: self.emitted_this_file@,
        }
    }
}

impl FlushState {
    /// The representation agrees with itself and the model is well formed.
    pub closed spec fn inv(self) -> bool {
        &&& self@.wf()
        &&& self.next_id as nat == self.intern_strings@.len()
    }

    /// The model of a state that holds together is well formed.
    pub proof fn lemma_inv(self)
        requires
            self.inv(),
        ensures
            self@.wf(),
    {
    }

    /// A state that has interned nothing.
    pub fn new() -> (fs: FlushState)
        ensures
            fs.inv(),
            fs@ == FlushModel::fresh(),
    {
        let mut intern_strings: Vec<String> = Vec::new();
        intern_strings.push("<unknown>".to_string());
        let fs = FlushState {
            intern_map: HashMap::new(),
            intern_strings,
            emitted_this_file: HashSet::new(),
            next_id: 1,
        };
        assert(fs@.names =~= seq![unknown_location()]);
        fs
    }

    /// Intern a location, returning its SpawnLocationId.
    pub fn intern(&mut self, location: &SpawnLocation) -> (id: SpawnLocationId)
        requires
            old(self).inv(),
            old(self)@.has_room(*location),
        ensures
            final(self).inv(),
            id.0 == old(self)@.id_of(*location),
            final(self)@ == old(self)@.with_location(*location),
    {
        if let Some(id) = self.intern_map.get(&location.address) {
            return SpawnLocationId(*id);
        }
        let ghost before = self@;
        let id: u16 = self.next_id;
        self.next_id = self.next_id + 1;
        self.intern_map.insert(location.address, id);
        self.intern_strings.push(location.describe());
        assert(self@.names =~= before.names.push(location.text()));
        assert(self@ =~= before.with_location(*location));
        SpawnLocationId(id)
    }

    /// If this id hasn't been emitted in the current file, push its def into `defs`.
    pub fn collect_def(&mut self, id: SpawnLocationId, defs: &mut EventList)
        requires
            old(self).inv(),
            id.0 < old(self)@.names.len(),
        ensures
            final(self).inv(),
            final(self)@ == old(self)@.with_emitted(id.0),
            final(defs)@ == old(defs)@ + old(self)@.defs_for(id.0),
    {
        let ghost before = self@;
        let ghost defs_before = defs@;
        if self.emitted_this_file.insert(id.0) {
            let location = self.intern_strings[id.0 as usize].clone();
            defs.push(TelemetryEvent::SpawnLocationDef { id, location });
            assert(defs@ =~= defs_before + before.defs_for(id.0));
        } else {
            assert(before.emitted.insert(id.0) =~= before.emitted);
            assert(defs@ =~= defs_before + before.defs_for(id.0));
        }
        assert(self@ =~= before.with_emitted(id.0));
    }

    /// Resolve a RawEvent into written events: defs first, then the event itself.
    pub fn resolve(&mut self, raw: &RawEvent) -> (events: EventList)
        requires
            old(self).inv(),
            spawn_location(*raw) matches Some(location) ==> old(self)@.has_room(location),
        ensures
            final(self).inv(),
            final(self)@ == old(self)@.after(*raw),
            events@ == old(self)@.events_for(*raw),
    {
        let ghost before = self@;
        let mut events = EventList::new();
        match raw {
            RawEvent::TaskSpawn { timestamp_nanos, task_id, location } => {
                let id = self.intern(location);
                self.collect_def(id, &mut events);
                events.push(
                    TelemetryEvent::TaskSpawn {
                        timestamp_nanos: *timestamp_nanos,
                        task_id: *task_id,
                        spawn_loc: SpawnLocRef::Defined(id),
                    },
                );
            },
            RawEvent::TaskTerminate { timestamp_nanos, task_id } => {
                events.push(
                    TelemetryEvent::TaskTerminate {
                        timestamp_nanos: *timestamp_nanos,
                        task_id: *task_id,
                    },
                );
            },
            RawEvent::PollStart {
                timestamp_nanos,
                worker_id,
                worker_local_queue_depth,
                task_id,
                location,
            } => {
                let id = self.intern(location);
                self.collect_def(id, &mut events);
                events.push(
                    TelemetryEvent::PollStart {
                        timestamp_nanos: *timestamp_nanos,
                        worker_id: *worker_id,
                        worker_local_queue_depth: *worker_local_queue_depth,
                        task_id: *task_id,
                        spawn_loc: SpawnLocRef::Defined(id),
                    },
                );
            },
            RawEvent::PollEnd { timestamp_nanos, worker_id } => {
                events.push(
                    TelemetryEvent::PollEnd {
                        timestamp_nanos: *timestamp_nanos,
                        worker_id: *worker_id,
                    },
                );
            },
            RawEvent::WorkerPark {
                timestamp_nanos,
                worker_id,
                worker_local_queue_depth,
                cpu_time_nanos,
            } => {
                events.push(
                    TelemetryEvent::WorkerPark {
                        timestamp_nanos: *timestamp_nanos,
                        worker_id: *worker_id,
                        worker_local_queue_depth: *worker_local_queue_depth,
                        cpu_time_nanos: *cpu_time_nanos,
                    },
                );
            },
            RawEvent::WorkerUnpark {
                timestamp_nanos,
                worker_id,
                worker_local_queue_depth,
                cpu_time_nanos,
                sched_wait_delta_nanos,
            } => {
                events.push(
                    TelemetryEvent::WorkerUnpark {
                        timestamp_nanos: *timestamp_nanos,
                        worker_id: *worker_id,
                        worker_local_queue_depth: *worker_local_queue_depth,
                        cpu_time_nanos: *cpu_time_nanos,
                        sched_wait_delta_nanos: *sched_wait_delta_nanos,
                    },
                );
            },
            RawEvent::QueueSample { timestamp_nanos, global_queue_depth } => {
                events.push(
                    TelemetryEvent::QueueSample {
                        timestamp_nanos: *timestamp_nanos,
                        global_queue_depth: *global_queue_depth,
                    },
                );
            },
            RawEvent::WakeEvent {
                timestamp_nanos,
                waker_task_id,
                woken_task_id,
                target_worker,
            } => {
                events.push(
                    TelemetryEvent::WakeEvent {
                        timestamp_nanos: *timestamp_nanos,
                        waker_task_id: *waker_task_id,
                        woken_task_id: *woken_task_id,
                        target_worker: *target_worker,
                    },
                );
            },
            RawEvent::CpuSample(data) => {
                events.push(
                    TelemetryEvent::CpuSample {
                        timestamp_nanos: data.timestamp_nanos,
                        worker_id: data.worker_id,
                        tid: data.tid,
                        source: data.source,
                        callchain: clone_addresses(&data.callchain),
                    },
                );
            },
            RawEvent::CallframeDef(data) => {
                events.push(
                    TelemetryEvent::CallframeDef {
                        address: data.address,
                        symbol: data.symbol.clone(),
                        location: clone_opt_string(&data.location),
                    },
                );
            },
            RawEvent::ThreadNameDef(data) => {
                events.push(
                    TelemetryEvent::ThreadNameDef { tid: data.tid, name: data.name.clone() },
                );
            },
        }
        assert(events@ =~= before.events_for(*raw));
        events
    }

    /// Called on file rotation — next reference to any id will re-emit its def.
    pub fn on_rotate(&mut self)
        requires
            old(self).inv(),
        ensures
            final(self).inv(),
            final(self)@ == old(self)@.rotated(),
    {
        self.emitted_this_file.clear();
        assert(self@ =~= old(self)@.rotated());
    }

    /// Whether the current file holds the definition of `id`.
    pub fn is_emitted(&self, id: SpawnLocationId) -> (b: bool)
        ensures
            b == self@.emitted.contains(id.0),
    {
        self.emitted_this_file.contains(&id.0)
    }

    /// How many ids are left.
    pub fn ids_left(&self) -> (n: u16)
        requires
            self.inv(),
        ensures
            n == u16::MAX - self@.names.len(),
    {
        u16::MAX - self.next_id
    }

    /// Whether `raw` can be resolved: its location, if it has one, is interned
    /// already or an id is left for it.
    pub fn can_resolve(&self, raw: &RawEvent) -> (b: bool)
        requires
            self.inv(),
        ensures
            b == (spawn_location(*raw) matches Some(location) ==> self@.has_room(location)),
    {
        match raw {
            RawEvent::TaskSpawn { location, .. } => {
                self.next_id < u16::MAX || self.intern_map.contains_key(&location.address)
            },
            RawEvent::PollStart { location, .. } => {
                self.next_id < u16::MAX || self.intern_map.contains_key(&location.address)
            },
            _ => true,
        }
    }
}

/// The id by which a written event refers to a definition in its file.
pub open spec fn referenced_id(e: EventModel) -> Option<u16> {
    match e {
        EventModel::Plain(
            TelemetryEvent::PollStart { spawn_loc: SpawnLocRef::Defined(id), .. },
        ) => Some(id.0),
        EventModel::Plain(
            TelemetryEvent::TaskSpawn { spawn_loc: SpawnLocRef::Defined(id), .. },
        ) => Some(id.0),
        _ => None,
    }
}

/// Whether `e` is the definition of the location id `id`.
pub open spec fn defines_id(e: EventModel, id: u16) -> bool {
    e matches EventModel::SpawnLocationDef { id: d, .. } && d.0 == id
}

/// Whether one of the first `n` events of `file` defines `id`.
pub open spec fn defined_before(file: Seq<EventModel>, n: int, id: u16) -> bool {
    exists|j: int| 0 <= j < n && #[trigger] defines_id(file[j], id)
}

/// Every location reference in `file` comes after its definition in `file`.
pub open spec fn locations_self_contained(file: Seq<EventModel>) -> bool {
    forall|i: int, id: u16|
        0 <= i < file.len() && #[trigger] referenced_id(file[i]) == Some(id)
            ==> #[trigger] defined_before(file, i, id)
}

/// Every id that counts as emitted is defined in `file`.
pub open spec fn emitted_covered(m: FlushModel, file: Seq<EventModel>) -> bool {
    forall|id: u16| #[trigger]
        m.emitted.contains(id) ==> defined_before(file, file.len() as int, id)
}

proof fn lemma_defined_before_extends(
    file: Seq<EventModel>,
    more: Seq<EventModel>,
    n: int,
    k: int,
    id: u16,
)
    requires
        defined_before(file, n, id),
        0 <= n <= file.len(),
        n <= k <= file.len() + more.len(),
    ensures
        defined_before(file + more, k, id),
{
    let j = choose|j: int| 0 <= j < n && #[trigger] defines_id(file[j], id);
    assert(defines_id((file + more)[j], id));
}

/// A file stays self-contained: where every emitted id is defined in the file
/// written so far, the file with the events of one more resolved event is
/// self-contained too, and again defines every emitted id.
pub proof fn lemma_resolve_keeps_file_self_contained(
    m: FlushModel,
    raw: RawEvent,
    file: Seq<EventModel>,
)
    requires
        m.wf(),
        spawn_location(raw) matches Some(location) ==> m.has_room(location),
        emitted_covered(m, file),
        locations_self_contained(file),
    ensures
        m.after(raw).wf(),
        emitted_covered(m.after(raw), file + m.events_for(raw)),
        locations_self_contained(file + m.events_for(raw)),
{
    let more = m.events_for(raw);
    let all = file + more;
    assert forall|id: u16| m.emitted.contains(id) implies defined_before(
        all,
        all.len() as int,
        id,
    ) by {
        lemma_defined_before_extends(file, more, file.len() as int, all.len() as int, id);
    }
    if let Some(location) = spawn_location(raw) {
        let id = m.id_of(location);
        let m1 = m.with_location(location);
        assert(m1.emitted == m.emitted);
        if m.emitted.contains(id) {
            assert(more =~= seq![written(raw, id)]);
            lemma_defined_before_extends(file, more, file.len() as int, file.len() as int, id);
        } else {
            assert(more.len() == 2);
            assert(defines_id(all[file.len() as int], id));
        }
        assert(defined_before(all, all.len() - 1, id));
        assert(defined_before(all, all.len() as int, id)) by {
            let j = choose|j: int| 0 <= j < all.len() - 1 && #[trigger] defines_id(all[j], id);
            assert(defines_id(all[j], id));
        }
    }
    assert forall|i: int, id: u16|
        0 <= i < all.len() && #[trigger] referenced_id(all[i]) == Some(
            id,
        ) implies #[trigger] defined_before(all, i, id) by {
        if i < file.len() {
            assert(referenced_id(file[i]) == Some(id));
            lemma_defined_before_extends(file, more, i, i, id);
        } else {
            assert(all[i] == more[i - file.len()]);
        }
    }
}

/// Every id is defined in `file` once at most, and only ids that count as
/// emitted are.
pub open spec fn definitions_once(m: FlushModel, file: Seq<EventModel>) -> bool {
    &&& forall|i: int, id: u16|
        0 <= i < file.len() && #[trigger] defines_id(file[i], id) ==> m.emitted.contains(id)
    &&& forall|i: int, j: int, id: u16|
        0 <= i < file.len() && 0 <= j < file.len() && #[trigger] defines_id(file[i], id)
            && #[trigger] defines_id(file[j], id) ==> i == j
}

/// No definition is repeated in a file: where the file written so far defines
/// each id once at most, so does the file with the events of one more resolved
/// event. An empty file, right after rotation, defines none.
pub proof fn lemma_resolve_repeats_no_definition(
    m: FlushModel,
    raw: RawEvent,
    file: Seq<EventModel>,
)
    requires
        definitions_once(m, file),
    ensures
        definitions_once(m.after(raw), file + m.events_for(raw)),
        definitions_once(m.rotated(), Seq::empty()),
{
    let more = m.events_for(raw);
    let all = file + more;
    let last = more.len() - 1;
    assert forall|id: u16| !defines_id(more[last], id) by {}
    assert forall|i: int, id: u16|
        0 <= i < all.len() && #[trigger] defines_id(all[i], id) implies m.after(
        raw,
    ).emitted.contains(id) && (i < file.len() ==> defines_id(file[i], id)) && (i >= file.len()
        ==> i == file.len() && !m.emitted.contains(id)) by {
        if i < file.len() {
            assert(defines_id(file[i], id));
        } else {
            assert(all[i] == more[i - file.len()]);
        }
    }
}

/// A new file owes every definition again: right after rotation the empty
/// file is self-contained and covers what counts as emitted.
pub proof fn lemma_rotation_starts_self_contained(m: FlushModel)
    requires
        m.wf(),
    ensures
        m.rotated().wf(),
        emitted_covered(m.rotated(), Seq::empty()),
        locations_self_contained(Seq::empty()),
{
}

/// Interning is stable: the same location gets the same nonzero id again,
/// another location gets another id, and no text changes.
pub proof fn lemma_interning_is_stable(m: FlushModel, a: SpawnLocation, b: SpawnLocation)
    requires
        m.wf(),
        m.has_room(a),
        m.with_location(a).has_room(b),
    ensures
        m.id_of(a) != 0,
        m.with_location(a).wf(),
        m.with_location(a).id_of(a) == m.id_of(a),
        m.with_location(a).with_location(b).id_of(a) == m.id_of(a),
        a.address != b.address ==> m.with_location(a).id_of(b) != m.id_of(a),
        a.address == b.address ==> m.with_location(a).id_of(b) == m.id_of(a),
        forall|i: int|
            0 <= i < m.names.len() ==> #[trigger] m.with_location(a).names[i] == m.names[i],
        !m.ids.contains_key(a.address) ==> m.with_location(a).names[m.id_of(a) as int] == a.text(),
{
}

/// The written form of a recorded event is of the same kind and keeps each of
/// its fields under its own name; where the event carries a spawn location,
/// the written form refers to the id that the location has.
pub proof fn lemma_written_form_keeps_every_field(raw: RawEvent, id: u16)
    ensures
        match (raw, written(raw, id)) {
            (
                RawEvent::PollStart {
                    timestamp_nanos,
                    worker_id,
                    worker_local_queue_depth,
                    task_id,
                    ..
                },
                EventModel::Plain(
                    TelemetryEvent::PollStart {
                        timestamp_nanos: t,
                        worker_id: w,
                        worker_local_queue_depth: d,
                        task_id: k,
                        spawn_loc: SpawnLocRef::Defined(at),
                    },
                ),
            ) => t == timestamp_nanos && w == worker_id && d == worker_local_queue_depth && k
                == task_id && at.0 == id,
            (
                RawEvent::PollEnd { timestamp_nanos, worker_id },
                EventModel::Plain(TelemetryEvent::PollEnd { timestamp_nanos: t, worker_id: w }),
            ) => t == timestamp_nanos && w == worker_id,
            (
                RawEvent::WorkerPark {
                    timestamp_nanos,
                    worker_id,
                    worker_local_queue_depth,
                    cpu_time_nanos,
                },
                EventModel::Plain(
                    TelemetryEvent::WorkerPark {
                        timestamp_nanos: t,
                        worker_id: w,
                        worker_local_queue_depth: d,
                        cpu_time_nanos: c,
                    },
                ),
            ) => t == timestamp_nanos && w == worker_id && d == worker_local_queue_depth && c
                == cpu_time_nanos,
            (
                RawEvent::WorkerUnpark {
                    timestamp_nanos,
                    worker_id,
                    worker_local_queue_depth,
                    cpu_time_nanos,
                    sched_wait_delta_nanos,
                },
                EventModel::Plain(
                    TelemetryEvent::WorkerUnpark {
                        timestamp_nanos: t,
                        worker_id: w,
                        worker_local_queue_depth: d,
                        cpu_time_nanos: c,
                        sched_wait_delta_nanos: s,
                    },
                ),
            ) => t == timestamp_nanos && w == worker_id && d == worker_local_queue_depth && c
                == cpu_time_nanos && s == sched_wait_delta_nanos,
            (
                RawEvent::QueueSample { timestamp_nanos, global_queue_depth },
                EventModel::Plain(
                    TelemetryEvent::QueueSample { timestamp_nanos: t, global_queue_depth: d },
                ),
            ) => t == timestamp_nanos && d == global_queue_depth,
            (
                RawEvent::TaskSpawn { timestamp_nanos, task_id, .. },
                EventModel::Plain(
                    TelemetryEvent::TaskSpawn {
                        timestamp_nanos: t,
                        task_id: k,
                        spawn_loc: SpawnLocRef::Defined(at),
                    },
                ),
            ) => t == timestamp_nanos && k == task_id && at.0 == id,
            (
                RawEvent::TaskTerminate { timestamp_nanos, task_id },
                EventModel::Plain(TelemetryEvent::TaskTerminate { timestamp_nanos: t, task_id: k }),
            ) => t == timestamp_nanos && k == task_id,
            (
                RawEvent::WakeEvent {
                    timestamp_nanos,
                    waker_task_id,
                    woken_task_id,
                    target_worker,
                },
                EventModel::Plain(
                    TelemetryEvent::WakeEvent {
                        timestamp_nanos: t,
                        waker_task_id: from,
                        woken_task_id: to,
                        target_worker: w,
                    },
                ),
            ) => t == timestamp_nanos && from == waker_task_id && to == woken_task_id && w
                == target_worker,
            (
                RawEvent::CpuSample(data),
                EventModel::CpuSample {
                    timestamp_nanos: t,
                    worker_id: w,
                    tid: i,
                    source: s,
                    callchain: c,
                },
            ) => t == data.timestamp_nanos && w == data.worker_id && i == data.tid && s
                == data.source && c == data.callchain@,
            (
                RawEvent::CallframeDef(data),
                EventModel::CallframeDef { address: a, symbol: s, location: l },
            ) => a == data.address && s == data.symbol@ && (l is Some <==> data.location is Some)
                && (data.location matches Some(text) ==> l == Some(text@)),
            (
                RawEvent::ThreadNameDef(data),
                EventModel::ThreadNameDef { tid: i, name: n },
            ) => i == data.tid && n == data.name@,
            _ => false,
        },
{
}

/// A resolved event ends what it resolves to and keeps its time. One without a
/// spawn location resolves to itself alone. One with a spawn location refers
/// to the id under which the location is interned, and a definition that
/// precedes it is of that id and has the text interned for it, which for a
/// location not seen before is the location's own.
pub proof fn lemma_resolved_event_names_its_location(m: FlushModel, raw: RawEvent)
    requires
        m.wf(),
        spawn_location(raw) matches Some(location) ==> m.has_room(location),
    ensures
        match raw {
            RawEvent::PollStart { location, .. } => spawn_location(raw) == Some(location),
            RawEvent::TaskSpawn { location, .. } => spawn_location(raw) == Some(location),
            _ => spawn_location(raw) is None,
        },
        spawn_location(raw) is None ==> m.events_for(raw) == seq![written(raw, 0)] && m.after(raw)
            == m,
        spawn_location(raw) matches Some(location) ==> {
            let events = m.events_for(raw);
            let id = m.after(raw).ids[location.address];
            &&& m.after(raw).ids.contains_key(location.address)
            &&& events.last() == written(raw, id)
            &&& m.emitted.contains(id) ==> events.len() == 1
            &&& !m.emitted.contains(id) ==> events.len() == 2 && events[0]
                == EventModel::SpawnLocationDef {
                id: SpawnLocationId(id),
                location: m.after(raw).names[id as int],
            }
            &&& m.after(raw).emitted == m.emitted.insert(id)
            &&& !m.ids.contains_key(location.address) ==> m.after(raw).names == m.names.push(
                location.text(),
            ) && id == m.names.len()
            &&& m.ids.contains_key(location.address) ==> m.after(raw).names == m.names && id
                == m.ids[location.address]
        },
{
}

/// Rotation forgets which definitions were written and nothing else.
pub proof fn lemma_rotation_keeps_interned_locations(m: FlushModel)
    ensures
        m.rotated().ids == m.ids,
        m.rotated().names == m.names,
        forall|id: u16| !(#[trigger] m.rotated().emitted.contains(id)),
{
}

/// A new state has nothing interned; the id zero, which no location has, reads
/// as unknown.
pub proof fn lemma_nothing_is_interned_at_first()
    ensures
        FlushModel::fresh().ids.dom().is_empty(),
        FlushModel::fresh().emitted.is_empty(),
        FlushModel::fresh().names.len() == 1,
        FlushModel::fresh().names[0] == "<unknown>"@,
{
}

/// A location that is interned needs no new id; any other needs one of those that
/// are left.
pub proof fn lemma_ids_run_out(m: FlushModel, location: SpawnLocation)
    ensures
        m.ids.contains_key(location.address) ==> m.has_room(location),
        !m.ids.contains_key(location.address) ==> (m.has_room(location) <==> m.names.len()
            < u16::MAX),
{
}

} // verus!
