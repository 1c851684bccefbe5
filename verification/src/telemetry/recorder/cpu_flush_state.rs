//! Interning for CPU samples: thread names and callframe symbols, with the
//! definitions that each file needs.

use crate::telemetry::events::{
    clone_opt_string, opt_chars, CallframeDefData, CpuSampleData, EventModel, RawEvent,
    ThreadNameDefData,
};
use crate::telemetry::format::UNKNOWN_WORKER;
use crate::telemetry::recorder::flush_state::written;
use crate::text::{decimal, numeral, push_decimal, push_numeral};
use std::collections::{HashMap, HashSet};
use vstd::prelude::*;

verus! {

broadcast use vstd::std_specs::hash::group_hash_axioms;

/// Where a symbol stands in the source.
#[derive(Debug, Clone)]
pub struct CodeInfo {
    pub file: String,
    pub line: Option<u32>,
}

/// What symbolication found out about an address.
#[derive(Debug, Clone)]
pub struct SymbolInfo {
    pub name: Option<String>,
    pub code_info: Option<CodeInfo>,
}

/// The symbol of an address: its name, or the address as `0x` and hex digits.
pub open spec fn symbol_text(address: u64, info: SymbolInfo) -> Seq<char> {
    match info.name {
        Some(name) => name@,
        None => seq!['0', 'x'] + numeral(address as nat, 16),
    }
}

/// The source position of a symbol: `file:line`, or `file` without a line.
pub open spec fn location_text(info: SymbolInfo) -> Option<Seq<char>> {
    match info.code_info {
        Some(code) => match code.line {
            Some(line) => Some(code.file@ + seq![':'] + decimal(line as nat)),
            None => Some(code.file@),
        },
        None => None,
    }
}

/// A symbol and its source position.
pub type FrameModel = (Seq<char>, Option<Seq<char>>);

/// The value of a [`CpuFlushState`].
#[verifier::ext_equal]
pub struct CpuModel {
    /// Whether callframe addresses are symbolicated into the trace.
    pub inline: bool,
    /// The symbol of each address that was symbolicated.
    pub frames: Map<u64, FrameModel>,
    /// The addresses whose definition the current file holds.
    pub frames_emitted: Set<u64>,
    /// The known thread names.
    pub names: Map<u32, Seq<char>>,
    /// The threads whose first sample the current file holds.
    pub names_emitted: Set<u32>,
}

/// Whether `event` is a sample of a thread that is no worker.
pub open spec fn is_foreign_sample(event: RawEvent) -> bool {
    event matches RawEvent::CpuSample(data) && data.worker_id.0 == UNKNOWN_WORKER
}

/// The thread of a sample.
pub open spec fn sample_tid(event: RawEvent) -> u32 {
    match event {
        RawEvent::CpuSample(data) => data.tid,
        _ => 0,
    }
}

/// The callchain of a sample.
pub open spec fn sample_chain(event: RawEvent) -> Seq<u64> {
    match event {
        RawEvent::CpuSample(data) => data.callchain@,
        _ => Seq::empty(),
    }
}

/// The definitions of the addresses in `chain` that `emitted` lacks, each at
/// its first occurrence.
pub open spec fn frame_defs(
    frames: Map<u64, FrameModel>,
    emitted: Set<u64>,
    chain: Seq<u64>,
) -> Seq<EventModel>
    decreases chain.len(),
{
    if chain.len() == 0 {
        Seq::empty()
    } else {
        let before = frame_defs(frames, emitted, chain.drop_last());
        let address = chain.last();
        if emitted.contains(address) || chain.drop_last().contains(address) {
            before
        } else {
            before.push(
                EventModel::CallframeDef {
                    address,
                    symbol: frames[address].0,
                    location: frames[address].1,
                },
            )
        }
    }
}

impl CpuModel {
    pub open spec fn fresh(inline: bool) -> CpuModel {
        CpuModel {
            inline,
            frames: Map::empty(),
            frames_emitted: Set::empty(),
            names: Map::empty(),
            names_emitted: Set::empty(),
        }
    }

    /// Only symbolicated addresses were emitted.
    pub open spec fn wf(self) -> bool {
        forall|a: u64| #[trigger] self.frames_emitted.contains(a) ==> self.frames.contains_key(a)
    }

    /// The state at the start of a new file.
    pub open spec fn rotated(self) -> CpuModel {
        CpuModel { frames_emitted: Set::empty(), names_emitted: Set::empty(), ..self }
    }

    /// The addresses that a batch with `event` defines or relies on.
    pub open spec fn chain_of(self, event: RawEvent) -> Seq<u64> {
        if self.inline {
            sample_chain(event)
        } else {
            Seq::empty()
        }
    }

    /// The name definition that `event` needs: for the first sample of a
    /// foreign thread in the current file, if its name is known.
    pub open spec fn name_defs(self, event: RawEvent) -> Seq<EventModel> {
        let tid = sample_tid(event);
        if is_foreign_sample(event) && !self.names_emitted.contains(tid)
            && self.names.contains_key(tid) {
            seq![EventModel::ThreadNameDef { tid, name: self.names[tid] }]
        } else {
            Seq::empty()
        }
    }

    /// The definitions that `event` needs when `frames` is the symbol table.
    pub open spec fn defs(self, event: RawEvent, frames: Map<u64, FrameModel>) -> Seq<EventModel> {
        self.name_defs(event) + frame_defs(frames, self.frames_emitted, self.chain_of(event))
    }

    /// The state after the batch of `event`, with the symbol table `frames`.
    pub open spec fn after(self, event: RawEvent, frames: Map<u64, FrameModel>) -> CpuModel {
        CpuModel {
            frames,
            frames_emitted: self.frames_emitted.union(self.chain_of(event).to_set()),
            names_emitted: if is_foreign_sample(event) {
                self.names_emitted.insert(sample_tid(event))
            } else {
                self.names_emitted
            },
            ..self
        }
    }
}

/// What `resolve` may answer: whether a symbol may come back for an address.
pub open spec fn answers<F: Fn(u64) -> SymbolInfo>(
    resolve: F,
) -> spec_fn(u64, SymbolInfo) -> bool {
    |address: u64, info: SymbolInfo| call_ensures(resolve, (address,), info)
}

/// Whether `later` is `earlier` with the symbols of the addresses of `chain`
/// added, each as `symbols` allows; what `earlier` holds stays.
pub open spec fn frames_extended(
    earlier: Map<u64, FrameModel>,
    later: Map<u64, FrameModel>,
    chain: Seq<u64>,
    symbols: spec_fn(u64, SymbolInfo) -> bool,
) -> bool {
    &&& later.dom() == earlier.dom().union(chain.to_set())
    &&& forall|a: u64| #[trigger] earlier.contains_key(a) ==> later[a] == earlier[a]
    &&& forall|a: u64| #[trigger]
        later.contains_key(a) && !earlier.contains_key(a) ==> exists|info: SymbolInfo| #[trigger]
            symbols(a, info) && later[a] == (
                symbol_text(a, info),
                location_text(info),
            )
}

struct Frame {
    symbol: String,
    location: Option<String>,
}

spec fn frame_model(frame: Frame) -> FrameModel {
    (frame.symbol@, opt_chars(frame.location))
}

/// CPU-profiling interning state: which definitions (thread names, callframe
/// symbols) have been emitted in the current file, so that they are emitted
/// again after rotation.
pub struct CpuFlushState {
    inline_callframe_symbols: bool,
    callframe_intern: HashMap<u64, Frame>,
    callframe_emitted_this_file: HashSet<u64>,
    thread_name_intern: HashMap<u32, String>,
    thread_name_emitted_this_file: HashSet<u32>,
}

impl View for CpuFlushState {
    type V = CpuModel;

    closed spec fn view(&self) -> CpuModel {
        CpuModel {
            inline: self.inline_callframe_symbols,
            frames: self.callframe_intern@.map_values(|f: Frame| frame_model(f)),
            frames_emitted: self.callframe_emitted_this_file@,
            names: self.thread_name_intern@.map_values(|s: String| s@),
            names_emitted: self.thread_name_emitted_this_file@,
        }
    }
}

fn render_frame(address: u64, info: SymbolInfo) -> (frame: Frame)
    ensures
        frame_model(frame) == (symbol_text(address, info), location_text(info)),
{
    let symbol = match info.name {
        Some(name) => name,
        None => {
            let mut s = String::new();
            s.push('0');
            s.push('x');
            push_numeral(&mut s, address, 16);
            assert(s@ =~= seq!['0', 'x'] + numeral(address as nat, 16));
            s
        },
    };
    let location = match info.code_info {
        Some(code) => {
            let mut s = code.file;
            match code.line {
                Some(line) => {
                    s.push(':');
                    push_decimal(&mut s, line as u64);
                },
                None => {},
            }
            Some(s)
        },
        None => None,
    };
    let frame = Frame { symbol, location };
    assert(opt_chars(frame.location) == location_text(info)) by {
        match info.code_info {
            Some(code) => match code.line {
                Some(line) => {
                    assert(frame.location->0@ =~= code.file@ + seq![':'] + decimal(line as nat));
                },
                None => {},
            },
            None => {},
        }
    }
    frame
}

impl CpuFlushState {
    /// A state that knows no name and no symbol.
    pub fn new(inline_callframe_symbols: bool) -> (cpu: CpuFlushState)
        ensures
            cpu@.wf(),
            cpu@ == CpuModel::fresh(inline_callframe_symbols),
    {
        let cpu = CpuFlushState {
            inline_callframe_symbols,
            callframe_intern: HashMap::new(),
            callframe_emitted_this_file: HashSet::new(),
            thread_name_intern: HashMap::new(),
            thread_name_emitted_this_file: HashSet::new(),
        };
        assert(cpu@ =~= CpuModel::fresh(inline_callframe_symbols));
        cpu
    }

    /// Called on file rotation — clear per-file tracking sets.
    pub fn on_rotate(&mut self)
        ensures
            final(self)@ == old(self)@.rotated(),
            final(self)@.wf(),
    {
        self.callframe_emitted_this_file.clear();
        self.thread_name_emitted_this_file.clear();
        assert(self@ =~= old(self)@.rotated());
    }

    /// Caches the name of a thread unless one is cached already.
    pub fn intern_thread_name(&mut self, tid: u32, name: String)
        requires
            old(self)@.wf(),
        ensures
            final(self)@.wf(),
            final(self)@ == (CpuModel {
                names: if old(self)@.names.contains_key(tid) {
                    old(self)@.names
                } else {
                    old(self)@.names.insert(tid, name@)
                },
                ..old(self)@
            }),
    {
        let ghost before = self@;
        let ghost text = name@;
        if !self.thread_name_intern.contains_key(&tid) {
            self.thread_name_intern.insert(tid, name);
            assert(self@.names =~= before.names.insert(tid, text));
        }
        assert(self@ =~= (CpuModel { names: self@.names, ..before }));
    }

    /// Symbolicates an address unless it was symbolicated before.
    fn intern_callframe<F: Fn(u64) -> SymbolInfo>(&mut self, address: u64, resolve: &F)
        requires
            old(self)@.wf(),
            call_requires(*resolve, (address,)),
        ensures
            final(self)@.wf(),
            final(self)@ == (CpuModel { frames: final(self)@.frames, ..old(self)@ }),
            frames_extended(
                old(self)@.frames,
                final(self)@.frames,
                seq![address],
                answers(*resolve),
            ),
    {
        let ghost before = self@;
        if !self.callframe_intern.contains_key(&address) {
            let info = resolve(address);
            let ghost seen = info;
            let frame = render_frame(address, info);
            let ghost model = frame_model(frame);
            self.callframe_intern.insert(address, frame);
            assert(self@.frames =~= before.frames.insert(address, model));
            assert(answers(*resolve)(address, seen));
        }
        assert(self@ =~= (CpuModel { frames: self@.frames, ..before }));
        assert(seq![address].contains(address)) by {
            assert(seq![address][0] == address);
        }
        assert(self@.frames.dom() =~= before.frames.dom().union(seq![address].to_set()));
    }

    /// Collects the definitions that a CPU event needs before it in the current
    /// file and appends the event, so that the whole batch can be written
    /// atomically. `resolve` symbolicates an address.
    pub fn collect_cpu_event_batch<F: Fn(u64) -> SymbolInfo>(
        &mut self,
        event: RawEvent,
        resolve: &F,
    ) -> (batch: Vec<RawEvent>)
        requires
            old(self)@.wf(),
            forall|a: u64| call_requires(*resolve, (a,)),
        ensures
            final(self)@.wf(),
            frames_extended(
                old(self)@.frames,
                final(self)@.frames,
                old(self)@.chain_of(event),
                answers(*resolve),
            ),
            final(self)@ == old(self)@.after(event, final(self)@.frames),
            batch@.len() == old(self)@.defs(event, final(self)@.frames).len() + 1,
            batch@.last() == event,
            forall|i: int|
                0 <= i < batch@.len() - 1 ==> #[trigger] written(batch@[i], 0) == old(self)@.defs(
                    event,
                    final(self)@.frames,
                )[i],
            forall|i: int|
                0 <= i < batch@.len() - 1 ==> match #[trigger] batch@[i] {
                    RawEvent::CallframeDef(def) => {
                        &&& old(self)@.inline
                        &&& event matches RawEvent::CpuSample(data) && data.callchain@.contains(
                            def.address,
                        )
                        &&& old(self)@.frames.contains_key(def.address) ==> def.symbol@ == old(
                            self,
                        )@.frames[def.address].0
                        &&& !old(self)@.frames.contains_key(def.address) ==> exists|
                            info: SymbolInfo,
                        | #[trigger]
                            call_ensures(*resolve, (def.address,), info) && {
                                &&& info.name matches Some(name) ==> def.symbol@ == name@
                                &&& info.name is None ==> def.symbol@ == seq!['0', 'x'] + numeral(
                                    def.address as nat,
                                    16,
                                )
                                &&& info.code_info is None ==> def.location is None
                                &&& info.code_info matches Some(code) ==> def.location matches Some(
                                    at,
                                ) && (code.line is None ==> at@ == code.file@) && (code.line matches
                                    Some(line) ==> at@ == code.file@ + seq![':'] + decimal(
                                    line as nat,
                                ))
                            }
                    },
                    RawEvent::ThreadNameDef(def) => {
                        &&& event matches RawEvent::CpuSample(data) && data.tid == def.tid
                            && data.worker_id.0 == UNKNOWN_WORKER
                        &&& old(self)@.names.contains_key(def.tid)
                        &&& def.name@ == old(self)@.names[def.tid]
                    },
                    _ => false,
                },
    {
        let ghost start = self@;
        let mut batch: Vec<RawEvent> = Vec::new();
        if let RawEvent::CpuSample(data) = &event {
            if data.worker_id.0 == UNKNOWN_WORKER && !self.thread_name_emitted_this_file.contains(
                &data.tid,
            ) {
                if let Some(name) = self.thread_name_intern.get(&data.tid) {
                    batch.push(
                        RawEvent::ThreadNameDef(
                            Box::new(ThreadNameDefData { tid: data.tid, name: name.clone() }),
                        ),
                    );
                }
                self.thread_name_emitted_this_file.insert(data.tid);
            }
            let ghost middle = self@;
            assert(middle.names_emitted =~= start.after(event, start.frames).names_emitted);
            assert(middle =~= (CpuModel { names_emitted: middle.names_emitted, ..start }));
            assert(models0(batch@) =~= start.name_defs(event));
            if self.inline_callframe_symbols {
                self.collect_frames(&data.callchain, resolve, &mut batch);
                assert(self@.frames_emitted =~= start.after(event, self@.frames).frames_emitted);
            } else {
                assert(start.chain_of(event) =~= Seq::empty());
                assert(self@.frames_emitted =~= start.after(event, self@.frames).frames_emitted);
                assert(self@.frames.dom() =~= start.frames.dom().union(
                    start.chain_of(event).to_set(),
                ));
            }
        } else {
            assert(start.chain_of(event) =~= Seq::empty());
            assert(self@.frames_emitted =~= start.after(event, self@.frames).frames_emitted);
            assert(self@.frames.dom() =~= start.frames.dom().union(start.chain_of(event).to_set()));
            assert(models0(batch@) =~= start.name_defs(event));
        }
        assert(self@ =~= start.after(event, self@.frames));
        assert(models0(batch@) =~= start.defs(event, self@.frames));
        let ghost defs = batch@;
        batch.push(event);
        assert forall|i: int| 0 <= i < batch@.len() - 1 implies #[trigger] written(batch@[i], 0)
            == start.defs(event, self@.frames)[i] by {
            assert(models0(defs)[i] == written(defs[i], 0));
            assert(batch@[i] == defs[i]);
        }
        proof {
            lemma_definitions_say_what_was_resolved(
                start,
                event,
                self@.frames,
                answers(*resolve),
            );
            assert forall|i: int| #![trigger batch@[i]] 0 <= i < batch@.len() - 1 implies written(
                batch@[i],
                0,
            ) == start.defs(event, self@.frames)[i] by {}
            assert forall|a: u64, info: SymbolInfo| #[trigger]
                answers(*resolve)(a, info) implies call_ensures(*resolve, (a,), info) by {}
        }
        batch
    }

    /// Symbolicates the addresses of `chain` that the current file does not
    /// define yet and appends their definitions to `batch`.
    fn collect_frames<F: Fn(u64) -> SymbolInfo>(
        &mut self,
        chain: &Vec<u64>,
        resolve: &F,
        batch: &mut Vec<RawEvent>,
    )
        requires
            old(self)@.wf(),
            forall|a: u64| call_requires(*resolve, (a,)),
        ensures
            final(self)@.wf(),
            final(self)@ == (CpuModel {
                frames: final(self)@.frames,
                frames_emitted: old(self)@.frames_emitted.union(chain@.to_set()),
                ..old(self)@
            }),
            frames_extended(old(self)@.frames, final(self)@.frames, chain@, answers(*resolve)),
            models0(final(batch)@) == models0(old(batch)@) + frame_defs(
                final(self)@.frames,
                old(self)@.frames_emitted,
                chain@,
            ),
    {
        let ghost start = self@;
        let ghost batch_start = models0(batch@);
        let mut i: usize = 0;
        assert(self@.frames_emitted =~= start.frames_emitted.union(chain@.take(0).to_set()));
        assert(self@.frames.dom() =~= start.frames.dom().union(chain@.take(0).to_set()));
        assert(models0(batch@) =~= batch_start + frame_defs(
            self@.frames,
            start.frames_emitted,
            chain@.take(0),
        ));
        while i < chain.len()
            invariant
                i <= chain@.len(),
                self@.wf(),
                start.wf(),
                forall|a: u64| call_requires(*resolve, (a,)),
                self@ == (CpuModel {
                    frames: self@.frames,
                    frames_emitted: start.frames_emitted.union(chain@.take(i as int).to_set()),
                    ..start
                }),
                frames_extended(
                    start.frames,
                    self@.frames,
                    chain@.take(i as int),
                    answers(*resolve),
                ),
                models0(batch@) == batch_start + frame_defs(
                    self@.frames,
                    start.frames_emitted,
                    chain@.take(i as int),
                ),
            decreases chain@.len() - i,
        {
            let address: u64 = chain[i];
            let ghost now = self@;
            let ghost done = chain@.take(i as int);
            let ghost next = chain@.take(i + 1);
            assert(next.drop_last() =~= done);
            assert(next =~= done.push(address));
            assert(next.to_set() =~= done.to_set().insert(address)) by {
                broadcast use vstd::seq_lib::group_seq_properties;

                assert forall|a: u64| next.contains(a) <==> done.contains(a) || a == address by {
                    if next.contains(a) {
                        let j = choose|j: int| 0 <= j < next.len() && next[j] == a;
                        if j < i {
                            assert(done[j] == a);
                        }
                    }
                    if done.contains(a) {
                        let j = choose|j: int| 0 <= j < done.len() && done[j] == a;
                        assert(next[j] == a);
                    }
                    assert(next[i as int] == address);
                }
            }
            if !self.callframe_emitted_this_file.contains(&address) {
                self.intern_callframe(address, resolve);
                let ghost table = self@.frames;
                proof {
                    assert(seq![address].contains(address)) by {
                        assert(seq![address][0] == address);
                    }
                    assert(table.contains_key(address));
                    lemma_frame_defs_same(now.frames, table, start.frames_emitted, done);
                    assert forall|a: u64| #[trigger]
                        table.contains_key(a) && !start.frames.contains_key(
                            a,
                        ) implies exists|info: SymbolInfo| #[trigger]
                        answers(*resolve)(a, info) && table[a] == (
                            symbol_text(a, info),
                            location_text(info),
                        ) by {
                        if now.frames.contains_key(a) {
                            assert(table[a] == now.frames[a]);
                        }
                    }
                    assert forall|a: u64| #[trigger]
                        start.frames.contains_key(a) implies table[a] == start.frames[a] by {
                        assert(now.frames.contains_key(a));
                    }
                    assert(table.dom() =~= start.frames.dom().union(next.to_set()));
                }
                if let Some(frame) = self.callframe_intern.get(&address) {
                    let ghost sofar = batch@;
                    batch.push(
                        RawEvent::CallframeDef(
                            Box::new(
                                CallframeDefData {
                                    address,
                                    symbol: frame.symbol.clone(),
                                    location: clone_opt_string(&frame.location),
                                },
                            ),
                        ),
                    );
                    assert(models0(batch@) =~= models0(sofar).push(
                        EventModel::CallframeDef {
                            address,
                            symbol: table[address].0,
                            location: table[address].1,
                        },
                    ));
                }
                self.callframe_emitted_this_file.insert(address);
                assert(!done.contains(address)) by {
                    assert(done.contains(address) ==> done.to_set().contains(address));
                }
                assert(self@.frames =~= table);
                assert(models0(batch@) =~= batch_start + frame_defs(
                    self@.frames,
                    start.frames_emitted,
                    next,
                ));
            } else {
                assert(start.frames_emitted.contains(address) || done.contains(address)) by {
                    assert(done.to_set().contains(address) ==> done.contains(address));
                }
                assert(now.frames.contains_key(address));
                assert(self@.frames.dom() =~= start.frames.dom().union(next.to_set()));
            }
            i = i + 1;
            assert(self@.frames_emitted =~= start.frames_emitted.union(next.to_set()));
            assert(self@ =~= (CpuModel {
                frames: self@.frames,
                frames_emitted: start.frames_emitted.union(next.to_set()),
                ..start
            }));
        }
        assert(chain@.take(i as int) =~= chain@);
    }

    /// Wrap a CPU sample as recorded events.
    pub fn resolve_cpu_event_symbols(&mut self, data: CpuSampleData) -> (events: Vec<RawEvent>)
        ensures
            final(self)@ == old(self)@,
            events@ == seq![RawEvent::CpuSample(Box::new(data))],
    {
        let mut events: Vec<RawEvent> = Vec::new();
        events.push(RawEvent::CpuSample(Box::new(data)));
        assert(events@ =~= seq![RawEvent::CpuSample(Box::new(data))]);
        events
    }
}

/// The written form of events that carry no spawn location.
pub open spec fn models0(events: Seq<RawEvent>) -> Seq<EventModel> {
    events.map_values(|e: RawEvent| written(e, 0))
}

proof fn lemma_frame_defs_same(
    a: Map<u64, FrameModel>,
    b: Map<u64, FrameModel>,
    emitted: Set<u64>,
    chain: Seq<u64>,
)
    requires
        forall|x: u64| #[trigger] a.contains_key(x) ==> b[x] == a[x],
        forall|x: u64| #[trigger] chain.contains(x) ==> a.contains_key(x),
    ensures
        frame_defs(a, emitted, chain) == frame_defs(b, emitted, chain),
    decreases chain.len(),
{
    if chain.len() > 0 {
        let rest = chain.drop_last();
        assert forall|x: u64| #[trigger] rest.contains(x) implies a.contains_key(x) by {
            let j = choose|j: int| 0 <= j < rest.len() && rest[j] == x;
            assert(chain[j] == x);
            assert(chain.contains(x));
        }
        lemma_frame_defs_same(a, b, emitted, rest);
        assert(chain[chain.len() - 1] == chain.last());
        assert(chain.contains(chain.last()));
        assert(a.contains_key(chain.last()));
    }
}

/// Whether `e` defines the symbol of `address`.
pub open spec fn defines_frame(e: EventModel, address: u64) -> bool {
    e matches EventModel::CallframeDef { address: a, .. } && a == address
}

/// Whether `e` defines the name of the thread `tid`.
pub open spec fn defines_name(e: EventModel, tid: u32) -> bool {
    e matches EventModel::ThreadNameDef { tid: t, .. } && t == tid
}

/// Whether one of the first `n` events of `file` defines `address`.
pub open spec fn frame_defined_before(file: Seq<EventModel>, n: int, address: u64) -> bool {
    exists|j: int| 0 <= j < n && #[trigger] defines_frame(file[j], address)
}

/// Whether one of the first `n` events of `file` defines the thread `tid`.
pub open spec fn name_defined_before(file: Seq<EventModel>, n: int, tid: u32) -> bool {
    exists|j: int| 0 <= j < n && #[trigger] defines_name(file[j], tid)
}

/// Whether `e` is a sample whose callchain holds `address`.
pub open spec fn samples_frame(e: EventModel, address: u64) -> bool {
    e matches EventModel::CpuSample { callchain, .. } && callchain.contains(address)
}

/// Whether `e` is a sample of the thread `tid`, which is no worker.
pub open spec fn samples_foreign(e: EventModel, tid: u32) -> bool {
    e matches EventModel::CpuSample { worker_id, tid: t, .. } && worker_id.0 == UNKNOWN_WORKER && t
        == tid
}

/// Every sampled address in `file` comes after its definition in `file`.
pub open spec fn frames_self_contained(file: Seq<EventModel>) -> bool {
    forall|i: int, a: u64|
        0 <= i < file.len() && #[trigger] samples_frame(file[i], a) ==> frame_defined_before(
            file,
            i,
            a,
        )
}

/// Whether a later event of `file` than event `i` samples `address`.
pub open spec fn frame_sampled_after(file: Seq<EventModel>, i: int, address: u64) -> bool {
    exists|j: int| i < j < file.len() && #[trigger] samples_frame(file[j], address)
}

/// Whether a later event of `file` than event `i` is a sample of the thread
/// `tid`, which is no worker.
pub open spec fn name_sampled_after(file: Seq<EventModel>, i: int, tid: u32) -> bool {
    exists|j: int| i < j < file.len() && #[trigger] samples_foreign(file[j], tid)
}

/// The frames of `file`: with inline symbols every sampled address comes after
/// its definition, and what counts as emitted is defined; without them there is
/// no definition. Only what is sampled is defined.
pub open spec fn frames_in_order(m: CpuModel, file: Seq<EventModel>) -> bool {
    &&& m.inline ==> frames_self_contained(file)
    &&& m.inline ==> forall|a: u64| #[trigger]
        m.frames_emitted.contains(a) ==> frame_defined_before(file, file.len() as int, a)
    &&& !m.inline ==> forall|i: int| 0 <= i < file.len() ==> !(#[trigger] file[i] is CallframeDef)
    &&& forall|i: int, a: u64|
        0 <= i < file.len() && #[trigger] defines_frame(file[i], a) ==> frame_sampled_after(
            file,
            i,
            a,
        )
}

/// The thread names of `file`: every sample of a foreign thread whose name is
/// known comes after the definition of the name, and where it counts as emitted
/// it is defined; a thread whose name is not known gets no definition. Only
/// threads that are sampled get one, with their own name.
pub open spec fn names_in_order(m: CpuModel, file: Seq<EventModel>) -> bool {
    &&& forall|i: int, t: u32|
        0 <= i < file.len() && #[trigger] samples_foreign(file[i], t) && m.names.contains_key(t)
            ==> name_defined_before(file, i, t)
    &&& forall|t: u32| #[trigger]
        m.names_emitted.contains(t) && m.names.contains_key(t) ==> name_defined_before(
            file,
            file.len() as int,
            t,
        )
    &&& forall|i: int, t: u32|
        0 <= i < file.len() && #[trigger] defines_name(file[i], t) ==> m.names.contains_key(t)
            && file[i] == (EventModel::ThreadNameDef { tid: t, name: m.names[t] })
            && name_sampled_after(file, i, t)
}

proof fn lemma_frame_defs_cover(
    frames: Map<u64, FrameModel>,
    emitted: Set<u64>,
    chain: Seq<u64>,
    a: u64,
)
    requires
        chain.contains(a),
        !emitted.contains(a),
    ensures
        frame_defined_before(
            frame_defs(frames, emitted, chain),
            frame_defs(frames, emitted, chain).len() as int,
            a,
        ),
    decreases chain.len(),
{
    let defs = frame_defs(frames, emitted, chain);
    let rest = chain.drop_last();
    let before = frame_defs(frames, emitted, rest);
    if rest.contains(a) {
        lemma_frame_defs_cover(frames, emitted, rest, a);
        let j = choose|j: int| 0 <= j < before.len() && #[trigger] defines_frame(before[j], a);
        assert(defines_frame(defs[j], a));
    } else {
        let j = choose|j: int| 0 <= j < chain.len() && chain[j] == a;
        if j < rest.len() {
            assert(rest[j] == a);
        }
        assert(chain.last() == a);
        assert(defines_frame(defs[defs.len() - 1], a));
    }
}

proof fn lemma_frame_defs_are_defs(
    frames: Map<u64, FrameModel>,
    emitted: Set<u64>,
    chain: Seq<u64>,
)
    ensures
        forall|j: int|
            0 <= j < frame_defs(frames, emitted, chain).len() ==> #[trigger] frame_defs(
                frames,
                emitted,
                chain,
            )[j] is CallframeDef,
    decreases chain.len(),
{
    if chain.len() > 0 {
        lemma_frame_defs_are_defs(frames, emitted, chain.drop_last());
    }
}

/// What an event needs are definitions of names and of frames.
pub proof fn lemma_defs_are_defs(m: CpuModel, event: RawEvent, frames: Map<u64, FrameModel>)
    ensures
        forall|i: int|
            0 <= i < m.defs(event, frames).len() ==> {
                let e = #[trigger] m.defs(event, frames)[i];
                e is ThreadNameDef || e is CallframeDef
            },
{
    lemma_frame_defs_are_defs(frames, m.frames_emitted, m.chain_of(event));
    let names = m.name_defs(event);
    let fdefs = frame_defs(frames, m.frames_emitted, m.chain_of(event));
    assert forall|i: int| 0 <= i < m.defs(event, frames).len() implies ({
        let e = #[trigger] m.defs(event, frames)[i];
        e is ThreadNameDef || e is CallframeDef
    }) by {
        if i >= names.len() {
            assert(m.defs(event, frames)[i] == fdefs[i - names.len()]);
        }
    }
}

proof fn lemma_batch_frames_in_order(
    m: CpuModel,
    event: RawEvent,
    frames: Map<u64, FrameModel>,
    file: Seq<EventModel>,
)
    requires
        event is CpuSample,
        frames_in_order(m, file),
    ensures
        frames_in_order(
            m.after(event, frames),
            file + m.defs(event, frames).push(written(event, 0)),
        ),
{
    let chain = m.chain_of(event);
    let names = m.name_defs(event);
    let fdefs = frame_defs(frames, m.frames_emitted, chain);
    let defs = m.defs(event, frames);
    let last = written(event, 0);
    let longer = file + defs.push(last);
    let at = longer.len() - 1;
    let n = m.after(event, frames);
    lemma_frame_defs_are_defs(frames, m.frames_emitted, chain);
    lemma_frame_defs_once(frames, m.frames_emitted, chain);
    assert(longer[at] == last);
    assert forall|a: u64|
        m.inline && (m.frames_emitted.contains(a) || chain.contains(
            a,
        )) implies #[trigger] frame_defined_before(longer, at, a) by {
        if m.frames_emitted.contains(a) {
            let j = choose|j: int| 0 <= j < file.len() && #[trigger] defines_frame(file[j], a);
            assert(defines_frame(longer[j], a));
        } else {
            lemma_frame_defs_cover(frames, m.frames_emitted, chain, a);
            let j = choose|j: int| 0 <= j < fdefs.len() && #[trigger] defines_frame(fdefs[j], a);
            let k = file.len() + names.len() + j;
            assert(longer[k] == fdefs[j]);
            assert(defines_frame(longer[k], a));
        }
    }
    assert forall|i: int, a: u64|
        m.inline && 0 <= i < longer.len() && #[trigger] samples_frame(
            longer[i],
            a,
        ) implies frame_defined_before(longer, i, a) by {
        if i < file.len() {
            assert(samples_frame(file[i], a));
            assert(frame_defined_before(file, i, a));
            let j = choose|j: int| 0 <= j < i && #[trigger] defines_frame(file[j], a);
            assert(defines_frame(longer[j], a));
        } else if i < at {
            assert(longer[i] == defs[i - file.len()]);
        } else {
            assert(chain.contains(a));
            assert(frame_defined_before(longer, at, a));
        }
    }
    assert forall|a: u64| m.inline && #[trigger] n.frames_emitted.contains(
        a,
    ) implies frame_defined_before(longer, longer.len() as int, a) by {
        assert(chain.to_set().contains(a) ==> chain.contains(a));
        assert(frame_defined_before(longer, at, a));
        let j = choose|j: int| 0 <= j < at && #[trigger] defines_frame(longer[j], a);
        assert(defines_frame(longer[j], a));
    }
    assert forall|i: int| !m.inline && 0 <= i < longer.len() implies !(
    #[trigger] longer[i] is CallframeDef) by {
        assert(fdefs.len() == 0);
        if i < file.len() {
            assert(longer[i] == file[i]);
        } else if i < at {
            assert(longer[i] == names[i - file.len()]);
        }
    }
    assert forall|i: int, a: u64|
        0 <= i < longer.len() && #[trigger] defines_frame(
            longer[i],
            a,
        ) implies frame_sampled_after(longer, i, a) by {
        if i < file.len() {
            assert(defines_frame(file[i], a));
            let j = choose|j: int| i < j < file.len() && #[trigger] samples_frame(file[j], a);
            assert(samples_frame(longer[j], a));
        } else if i < at {
            assert(longer[i] == defs[i - file.len()]);
            if i < file.len() + names.len() {
                assert(longer[i] == names[i - file.len()]);
            } else {
                assert(longer[i] == fdefs[i - file.len() - names.len()]);
                assert(defines_frame(fdefs[i - file.len() - names.len()], a));
                assert(chain.contains(a));
                assert(samples_frame(longer[at], a));
            }
        }
    }
}

proof fn lemma_batch_names_in_order(
    m: CpuModel,
    event: RawEvent,
    frames: Map<u64, FrameModel>,
    file: Seq<EventModel>,
)
    requires
        event is CpuSample,
        names_in_order(m, file),
    ensures
        names_in_order(
            m.after(event, frames),
            file + m.defs(event, frames).push(written(event, 0)),
        ),
{
    let chain = m.chain_of(event);
    let names = m.name_defs(event);
    let fdefs = frame_defs(frames, m.frames_emitted, chain);
    let defs = m.defs(event, frames);
    let last = written(event, 0);
    let longer = file + defs.push(last);
    let at = longer.len() - 1;
    let n = m.after(event, frames);
    let tid = sample_tid(event);
    lemma_frame_defs_are_defs(frames, m.frames_emitted, chain);
    assert(longer[at] == last);
    assert forall|t: u32|
        m.names.contains_key(t) && (m.names_emitted.contains(t) || (is_foreign_sample(event) && t
            == tid)) implies #[trigger] name_defined_before(longer, at, t) by {
        if m.names_emitted.contains(t) {
            let j = choose|j: int| 0 <= j < file.len() && #[trigger] defines_name(file[j], t);
            assert(defines_name(longer[j], t));
        } else {
            let k = file.len() as int;
            assert(longer[k] == names[0]);
            assert(defines_name(longer[k], t));
        }
    }
    assert forall|i: int, t: u32|
        0 <= i < longer.len() && #[trigger] samples_foreign(longer[i], t) && n.names.contains_key(
            t,
        ) implies name_defined_before(longer, i, t) by {
        if i < file.len() {
            assert(samples_foreign(file[i], t));
            assert(name_defined_before(file, i, t));
            let j = choose|j: int| 0 <= j < i && #[trigger] defines_name(file[j], t);
            assert(defines_name(longer[j], t));
        } else if i < at {
            assert(longer[i] == defs[i - file.len()]);
        } else {
            assert(name_defined_before(longer, at, t));
        }
    }
    assert forall|t: u32| #[trigger]
        n.names_emitted.contains(t) && n.names.contains_key(t) implies name_defined_before(
        longer,
        longer.len() as int,
        t,
    ) by {
        assert(name_defined_before(longer, at, t));
        let j = choose|j: int| 0 <= j < at && #[trigger] defines_name(longer[j], t);
        assert(defines_name(longer[j], t));
    }
    assert forall|i: int, t: u32|
        0 <= i < longer.len() && #[trigger] defines_name(
            longer[i],
            t,
        ) implies n.names.contains_key(t) && longer[i] == (EventModel::ThreadNameDef {
        tid: t,
        name: n.names[t],
    }) && name_sampled_after(longer, i, t) by {
        if i < file.len() {
            assert(defines_name(file[i], t));
            let j = choose|j: int| i < j < file.len() && #[trigger] samples_foreign(file[j], t);
            assert(samples_foreign(longer[j], t));
        } else if i < at {
            assert(longer[i] == defs[i - file.len()]);
            if i < file.len() + names.len() {
                assert(longer[i] == names[0]);
                assert(samples_foreign(longer[at], t));
            } else {
                assert(longer[i] == fdefs[i - file.len() - names.len()]);
            }
        }
    }
}

/// The batch of one more sample keeps a file in order.
pub proof fn lemma_cpu_batch_keeps_file_in_order(
    m: CpuModel,
    event: RawEvent,
    frames: Map<u64, FrameModel>,
    file: Seq<EventModel>,
)
    requires
        event is CpuSample,
        frames_in_order(m, file),
        names_in_order(m, file),
    ensures
        ({
            let longer = file + m.defs(event, frames).push(written(event, 0));
            &&& frames_in_order(m.after(event, frames), longer)
            &&& names_in_order(m.after(event, frames), longer)
        }),
{
    lemma_batch_frames_in_order(m, event, frames, file);
    lemma_batch_names_in_order(m, event, frames, file);
}

/// A name that becomes known before the first sample of its thread keeps a file
/// in order.
pub proof fn lemma_new_name_keeps_file_in_order(
    m: CpuModel,
    tid: u32,
    name: Seq<char>,
    file: Seq<EventModel>,
)
    requires
        names_in_order(m, file),
        !m.names.contains_key(tid),
        !m.names_emitted.contains(tid),
        forall|i: int| 0 <= i < file.len() ==> !#[trigger] samples_foreign(file[i], tid),
    ensures
        names_in_order(CpuModel { names: m.names.insert(tid, name), ..m }, file),
{
    let n = CpuModel { names: m.names.insert(tid, name), ..m };
    assert forall|i: int, t: u32|
        0 <= i < file.len() && #[trigger] samples_foreign(file[i], t) && n.names.contains_key(
            t,
        ) implies name_defined_before(file, i, t) by {
        assert(t != tid);
    }
}

/// What a file is made of after `calls`: for each sample the definitions that it
/// needs and then itself. A call is a sample and the symbol table after it.
pub open spec fn cpu_file(
    m: CpuModel,
    calls: Seq<(RawEvent, Map<u64, FrameModel>)>,
) -> Seq<EventModel>
    decreases calls.len(),
{
    if calls.len() == 0 {
        Seq::empty()
    } else {
        let (event, frames) = calls.last();
        cpu_file(m, calls.drop_last()) + cpu_after(m, calls.drop_last()).defs(event, frames).push(
            written(event, 0),
        )
    }
}

/// The state after `calls`.
pub open spec fn cpu_after(m: CpuModel, calls: Seq<(RawEvent, Map<u64, FrameModel>)>) -> CpuModel
    decreases calls.len(),
{
    if calls.len() == 0 {
        m
    } else {
        let (event, frames) = calls.last();
        cpu_after(m, calls.drop_last()).after(event, frames)
    }
}

/// Every file of samples is self-contained and repeats nothing, however many
/// samples it holds. A foreign thread gets one definition of its name, before its
/// first sample, exactly if its name is known. With inline symbols every sampled
/// address gets one definition, before its first sample, even if it is repeated
/// within a callchain; without them there is no such definition.
pub proof fn lemma_cpu_file_is_self_contained(
    m: CpuModel,
    calls: Seq<(RawEvent, Map<u64, FrameModel>)>,
)
    requires
        m == m.rotated(),
        forall|i: int| 0 <= i < calls.len() ==> (#[trigger] calls[i]).0 is CpuSample,
    ensures
        cpu_after(m, calls).names == m.names,
        cpu_after(m, calls).inline == m.inline,
        frames_in_order(cpu_after(m, calls), cpu_file(m, calls)),
        names_in_order(cpu_after(m, calls), cpu_file(m, calls)),
        cpu_definitions_once(cpu_after(m, calls), cpu_file(m, calls)),
    decreases calls.len(),
{
    if calls.len() > 0 {
        let init = calls.drop_last();
        assert forall|i: int| 0 <= i < init.len() implies (#[trigger] init[i]).0 is CpuSample by {
            assert(init[i] == calls[i]);
        }
        lemma_cpu_file_is_self_contained(m, init);
        assert(calls[calls.len() - 1] == calls.last());
        let (event, frames) = calls.last();
        let before = cpu_after(m, init);
        let file = cpu_file(m, init);
        lemma_cpu_batch_keeps_file_in_order(before, event, frames, file);
        lemma_cpu_batch_repeats_no_definition(before, event, frames, file);
    }
}

/// Every address and every thread is defined in `file` once at most, and only
/// those that count as emitted are.
pub open spec fn cpu_definitions_once(m: CpuModel, file: Seq<EventModel>) -> bool {
    &&& forall|i: int, a: u64|
        0 <= i < file.len() && #[trigger] defines_frame(file[i], a) ==> m.frames_emitted.contains(a)
    &&& forall|i: int, j: int, a: u64|
        0 <= i < file.len() && 0 <= j < file.len() && #[trigger] defines_frame(file[i], a)
            && #[trigger] defines_frame(file[j], a) ==> i == j
    &&& forall|i: int, t: u32|
        0 <= i < file.len() && #[trigger] defines_name(file[i], t) ==> m.names_emitted.contains(t)
    &&& forall|i: int, j: int, t: u32|
        0 <= i < file.len() && 0 <= j < file.len() && #[trigger] defines_name(file[i], t)
            && #[trigger] defines_name(file[j], t) ==> i == j
}

proof fn lemma_frame_defs_once(frames: Map<u64, FrameModel>, emitted: Set<u64>, chain: Seq<u64>)
    ensures
        ({
            let defs = frame_defs(frames, emitted, chain);
            &&& forall|j: int, a: u64|
                0 <= j < defs.len() && #[trigger] defines_frame(defs[j], a) ==> !emitted.contains(a)
                    && chain.contains(a)
            &&& forall|i: int, j: int, a: u64|
                0 <= i < defs.len() && 0 <= j < defs.len() && #[trigger] defines_frame(defs[i], a)
                    && #[trigger] defines_frame(defs[j], a) ==> i == j
        }),
    decreases chain.len(),
{
    if chain.len() > 0 {
        let rest = chain.drop_last();
        let before = frame_defs(frames, emitted, rest);
        let defs = frame_defs(frames, emitted, chain);
        lemma_frame_defs_once(frames, emitted, rest);
        assert(chain[chain.len() - 1] == chain.last());
        assert forall|j: int, a: u64|
            0 <= j < defs.len() && #[trigger] defines_frame(defs[j], a) implies !emitted.contains(a)
            && chain.contains(a) && (j < before.len() ==> rest.contains(a)) && (j >= before.len()
            ==> !rest.contains(a)) by {
            if j < before.len() {
                assert(defines_frame(before[j], a));
                let i = choose|i: int| 0 <= i < rest.len() && rest[i] == a;
                assert(chain[i] == a);
            }
        }
        assert forall|i: int, j: int, a: u64|
            0 <= i < defs.len() && 0 <= j < defs.len() && #[trigger] defines_frame(defs[i], a)
                && #[trigger] defines_frame(defs[j], a) implies i == j by {
            if i < before.len() && j < before.len() {
                assert(defines_frame(before[i], a));
                assert(defines_frame(before[j], a));
            }
        }
    }
}

/// No definition is repeated in a file: where the file written so far defines
/// each sampled address and each thread name once at most, so does the file with
/// the batch of one more sample. An empty file, right after rotation, defines
/// none.
pub proof fn lemma_cpu_batch_repeats_no_definition(
    m: CpuModel,
    event: RawEvent,
    frames: Map<u64, FrameModel>,
    file: Seq<EventModel>,
)
    requires
        event is CpuSample,
        cpu_definitions_once(m, file),
    ensures
        cpu_definitions_once(
            m.after(event, frames),
            file + m.defs(event, frames).push(written(event, 0)),
        ),
        cpu_definitions_once(m.rotated(), Seq::empty()),
{
    let chain = m.chain_of(event);
    let names = m.name_defs(event);
    let fdefs = frame_defs(frames, m.frames_emitted, chain);
    let defs = m.defs(event, frames);
    let longer = file + defs.push(written(event, 0));
    let at = file.len() as int;
    let n = m.after(event, frames);
    lemma_frame_defs_once(frames, m.frames_emitted, chain);
    lemma_frame_defs_are_defs(frames, m.frames_emitted, chain);
    assert forall|i: int| at <= i < longer.len() implies #[trigger] longer[i] == (if i < at
        + names.len() {
        names[i - at]
    } else if i < longer.len() - 1 {
        fdefs[i - at - names.len()]
    } else {
        written(event, 0)
    }) by {}
    assert forall|i: int, a: u64|
        0 <= i < longer.len() && #[trigger] defines_frame(
            longer[i],
            a,
        ) implies n.frames_emitted.contains(a) && (if i < at {
        defines_frame(file[i], a)
    } else {
        at + names.len() <= i < longer.len() - 1 && defines_frame(fdefs[i - at - names.len()], a)
            && !m.frames_emitted.contains(a)
    }) by {
        if i < at {
            assert(defines_frame(file[i], a));
        } else {
            assert(defines_frame(fdefs[i - at - names.len()], a));
            assert(chain.to_set().contains(a));
        }
    }
    assert forall|i: int, t: u32|
        0 <= i < longer.len() && #[trigger] defines_name(
            longer[i],
            t,
        ) implies n.names_emitted.contains(t) && (if i < at {
        defines_name(file[i], t)
    } else {
        i == at && !m.names_emitted.contains(t)
    }) by {
        if i < at {
            assert(defines_name(file[i], t));
        } else if i >= at + names.len() && i < longer.len() - 1 {
            assert(fdefs[i - at - names.len()] is CallframeDef);
        }
    }
}

/// Events that are no such definitions repeat none.
pub proof fn lemma_other_events_define_no_frame_or_name(
    m: CpuModel,
    file: Seq<EventModel>,
    more: Seq<EventModel>,
)
    requires
        cpu_definitions_once(m, file),
        forall|i: int|
            0 <= i < more.len() ==> !(#[trigger] more[i] is CallframeDef)
                && !(more[i] is ThreadNameDef),
    ensures
        cpu_definitions_once(m, file + more),
{
    let all = file + more;
    assert forall|i: int, a: u64| 0 <= i < all.len() && #[trigger] defines_frame(all[i], a) implies i
        < file.len() && defines_frame(file[i], a) by {
        if i >= file.len() {
            assert(all[i] == more[i - file.len()]);
        }
    }
    assert forall|i: int, t: u32| 0 <= i < all.len() && #[trigger] defines_name(all[i], t) implies i
        < file.len() && defines_name(file[i], t) by {
        if i >= file.len() {
            assert(all[i] == more[i - file.len()]);
        }
    }
}

/// What frame definitions say: each is of an address of the chain that has no
/// definition in the file yet, and has the symbol and the source position that
/// the symbol table holds for that very address.
proof fn lemma_frame_defs_read_the_table(
    frames: Map<u64, FrameModel>,
    emitted: Set<u64>,
    chain: Seq<u64>,
)
    ensures
        forall|j: int|
            0 <= j < frame_defs(frames, emitted, chain).len() ==> (#[trigger] frame_defs(
                frames,
                emitted,
                chain,
            )[j] matches EventModel::CallframeDef { address, symbol, location }
                && chain.contains(address) && !emitted.contains(address) && symbol
                == frames[address].0 && location == frames[address].1),
    decreases chain.len(),
{
    if chain.len() > 0 {
        let rest = chain.drop_last();
        lemma_frame_defs_read_the_table(frames, emitted, rest);
        let before = frame_defs(frames, emitted, rest);
        let defs = frame_defs(frames, emitted, chain);
        assert forall|a: u64| rest.contains(a) implies chain.contains(a) by {
            let k = choose|k: int| 0 <= k < rest.len() && rest[k] == a;
            assert(chain[k] == a);
        }
        assert(chain[chain.len() - 1] == chain.last());
        assert forall|j: int| 0 <= j < defs.len() implies (#[trigger] defs[j] matches
            EventModel::CallframeDef { address, symbol, location } && chain.contains(address)
            && !emitted.contains(address) && symbol == frames[address].0 && location
            == frames[address].1) by {
            if j < before.len() {
                assert(defs[j] == before[j]);
            }
        }
    }
}

/// A definition says what symbolication found. Where it found a name, the
/// definition carries exactly that name; the address in hex stands only where
/// there is no name. Where it found a source file, the position begins with
/// that file, and a line, if there is one, follows it in decimal behind a
/// colon. An address that was symbolicated earlier keeps what was found then.
/// The definition of a thread's name carries the name known for that thread.
pub proof fn lemma_definitions_say_what_was_resolved(
    m: CpuModel,
    event: RawEvent,
    frames: Map<u64, FrameModel>,
    symbols: spec_fn(u64, SymbolInfo) -> bool,
)
    requires
        frames_extended(m.frames, frames, m.chain_of(event), symbols),
    ensures
        forall|i: int|
            0 <= i < m.defs(event, frames).len() ==> match #[trigger] m.defs(event, frames)[i] {
                EventModel::CallframeDef { address, symbol, location } => {
                    &&& m.inline
                    &&& event matches RawEvent::CpuSample(data) && data.callchain@.contains(address)
                    &&& !m.frames_emitted.contains(address)
                    &&& m.frames.contains_key(address) ==> symbol == m.frames[address].0 && location
                        == m.frames[address].1
                    &&& !m.frames.contains_key(address) ==> exists|info: SymbolInfo| #[trigger]
                        symbols(address, info) && {
                            &&& info.name matches Some(name) ==> symbol == name@
                            &&& info.name is None ==> symbol == seq!['0', 'x'] + numeral(
                                address as nat,
                                16,
                            )
                            &&& info.code_info is None ==> location is None
                            &&& info.code_info matches Some(code) ==> location matches Some(at) && (
                            code.line is None ==> at == code.file@) && (code.line matches Some(line)
                                ==> at == code.file@ + seq![':'] + decimal(line as nat))
                        }
                },
                EventModel::ThreadNameDef { tid, name } => {
                    &&& event matches RawEvent::CpuSample(data) && data.tid == tid
                        && data.worker_id.0 == UNKNOWN_WORKER
                    &&& !m.names_emitted.contains(tid)
                    &&& m.names.contains_key(tid)
                    &&& name == m.names[tid]
                },
                _ => false,
            },
{
    let chain = m.chain_of(event);
    let names = m.name_defs(event);
    let fdefs = frame_defs(frames, m.frames_emitted, chain);
    lemma_frame_defs_read_the_table(frames, m.frames_emitted, chain);
    assert forall|i: int| 0 <= i < m.defs(event, frames).len() implies match #[trigger] m.defs(
        event,
        frames,
    )[i] {
        EventModel::CallframeDef { address, symbol, location } => {
            &&& chain.contains(address)
            &&& !m.frames_emitted.contains(address)
            &&& frames.contains_key(address)
            &&& symbol == frames[address].0
            &&& location == frames[address].1
        },
        EventModel::ThreadNameDef { tid, name } => i < names.len() && names[i]
            == EventModel::ThreadNameDef { tid, name },
        _ => false,
    } by {
        if i >= names.len() {
            assert(m.defs(event, frames)[i] == fdefs[i - names.len()]);
            let address = fdefs[i - names.len()]->address;
            assert(chain.to_set().contains(address));
        } else {
            assert(m.defs(event, frames)[i] == names[i]);
        }
    }
}

/// Every address of a sample has a definition in its batch or had one in the
/// file before: none is left out.
pub proof fn lemma_every_frame_of_a_sample_is_defined(
    m: CpuModel,
    event: RawEvent,
    frames: Map<u64, FrameModel>,
    address: u64,
)
    requires
        m.inline,
        event matches RawEvent::CpuSample(data) && data.callchain@.contains(address),
    ensures
        m.frames_emitted.contains(address) || exists|i: int|
            0 <= i < m.defs(event, frames).len() && (#[trigger] m.defs(event, frames)[i] matches
                EventModel::CallframeDef { address: a, .. } && a == address),
        m.after(event, frames).frames_emitted.contains(address),
{
    let chain = m.chain_of(event);
    let names = m.name_defs(event);
    let fdefs = frame_defs(frames, m.frames_emitted, chain);
    if !m.frames_emitted.contains(address) {
        lemma_frame_defs_cover(frames, m.frames_emitted, chain, address);
        let j = choose|j: int| 0 <= j < fdefs.len() && #[trigger] defines_frame(fdefs[j], address);
        assert(m.defs(event, frames)[names.len() + j] == fdefs[j]);
    }
    assert(chain.to_set().contains(address));
}

/// The first sample of a foreign thread in a file comes with the thread's name,
/// where the name is known; the samples of workers, and later samples, do not.
pub proof fn lemma_foreign_thread_is_named_once(
    m: CpuModel,
    event: RawEvent,
    frames: Map<u64, FrameModel>,
)
    ensures
        match event {
            RawEvent::CpuSample(data) => {
                &&& data.worker_id.0 == UNKNOWN_WORKER && m.names.contains_key(data.tid)
                    && !m.names_emitted.contains(data.tid) ==> m.defs(event, frames).len() > 0
                    && m.defs(event, frames)[0] == EventModel::ThreadNameDef {
                    tid: data.tid,
                    name: m.names[data.tid],
                }
                &&& data.worker_id.0 == UNKNOWN_WORKER ==> m.after(event, frames).names_emitted
                    == m.names_emitted.insert(data.tid)
                &&& data.worker_id.0 != UNKNOWN_WORKER ==> m.after(event, frames).names_emitted
                    == m.names_emitted && forall|i: int|
                    0 <= i < m.defs(event, frames).len() ==> !(#[trigger] m.defs(event, frames)[i]
                        is ThreadNameDef)
            },
            _ => m.defs(event, frames).len() == 0 && m.after(event, frames).names_emitted
                == m.names_emitted,
        },
{
    lemma_frame_defs_are_defs(frames, m.frames_emitted, m.chain_of(event));
    let names = m.name_defs(event);
    let fdefs = frame_defs(frames, m.frames_emitted, m.chain_of(event));
    assert forall|i: int| 0 <= i < fdefs.len() implies m.defs(event, frames)[names.len() + i]
        == #[trigger] fdefs[i] by {}
    match event {
        RawEvent::CpuSample(data) => {
            if data.worker_id.0 != UNKNOWN_WORKER {
                assert(names.len() == 0);
                assert(m.defs(event, frames) =~= fdefs);
            }
        },
        _ => {
            assert(m.chain_of(event) =~= Seq::empty());
        },
    }
}

/// A new state knows no name and no symbol; a new file owes every definition, and
/// what is known stays known.
pub proof fn lemma_new_file_owes_every_definition(m: CpuModel, inline: bool)
    ensures
        CpuModel::fresh(inline).inline == inline,
        CpuModel::fresh(inline).frames.dom().is_empty(),
        CpuModel::fresh(inline).frames_emitted.is_empty(),
        CpuModel::fresh(inline).names.dom().is_empty(),
        CpuModel::fresh(inline).names_emitted.is_empty(),
        m.rotated().inline == m.inline,
        m.rotated().frames == m.frames,
        m.rotated().frames_emitted.is_empty(),
        m.rotated().names == m.names,
        m.rotated().names_emitted.is_empty(),
{
}

} // verus!
