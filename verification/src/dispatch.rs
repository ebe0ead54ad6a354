use crate::error::ErrorKind;
use crate::icd::Endpoint;
use crate::pool::{empty_pool, in_flight, spec_acquire, spec_release, TaskPool};
use crate::registry::{EndpointRegistry, HandlerKind, RegistryView};
use vstd::prelude::*;

verus! {

/// One request as it comes off the transport.
#[derive(Debug, Clone, PartialEq, Eq)]
pub struct Frame {
    /// Chosen by the caller, and sent back with the reply as it is.
    pub sequence_no: u32,
    /// Says which endpoint is meant.
    pub endpoint_key: Vec<u8>,
    /// The request itself, encoded.
    pub payload: Vec<u8>,
}

/// A frame with its bytes as sequences.
pub struct FrameView {
    pub sequence_no: u32,
    pub endpoint_key: Seq<u8>,
    pub payload: Seq<u8>,
}

impl View for Frame {
    type V = FrameView;

    open spec fn view(&self) -> FrameView {
        FrameView {
            sequence_no: self.sequence_no,
            endpoint_key: self.endpoint_key@,
            payload: self.payload@,
        }
    }
}

/// What a handler is told about the request it serves.
#[derive(Debug, Clone, PartialEq, Eq)]
pub struct Header {
    pub endpoint_key: Vec<u8>,
    pub sequence_no: u32,
}

impl Frame {
    /// The part of the frame that goes to the handler beside the request.
    pub fn header(&self) -> (h: Header)
        ensures
            h.endpoint_key@ == self.endpoint_key@,
            h.sequence_no == self.sequence_no,
    {
        Header { endpoint_key: self.endpoint_key.clone(), sequence_no: self.sequence_no }
    }
}

/// What is to be done about a frame. There is one effect for each frame, and
/// each leads to one reply under the frame's sequence number.
#[derive(Debug, Clone, Copy, PartialEq, Eq, Structural)]
pub enum Effect {
    /// Run the handler at once and send what it returns.
    RunBlocking { handler_ref: Endpoint, sequence_no: u32 },
    /// Run the handler, let it suspend where it has to, and take no further
    /// frame until it is done; then send what it returns.
    RunInline { handler_ref: Endpoint, sequence_no: u32 },
    /// Start the handler as a task of its own in the given slot of the pool
    /// of the given row, and go on to the next frame. The task sends its own
    /// reply.
    Spawn { handler_ref: Endpoint, sequence_no: u32, entry: usize, slot: usize },
    /// Send an error in place of a result.
    ErrorReply { sequence_no: u32, kind: ErrorKind },
}

impl Effect {
    /// The sequence number that the reply carries.
    pub open spec fn spec_sequence_no(self) -> u32 {
        match self {
            Effect::RunBlocking { sequence_no, .. } => sequence_no,
            Effect::RunInline { sequence_no, .. } => sequence_no,
            Effect::Spawn { sequence_no, .. } => sequence_no,
            Effect::ErrorReply { sequence_no, .. } => sequence_no,
        }
    }

    /// The sequence number that the reply carries.
    #[verifier::when_used_as_spec(spec_sequence_no)]
    pub fn sequence_no(self) -> (n: u32)
        ensures
            n == self.spec_sequence_no(),
    {
        match self {
            Effect::RunBlocking { sequence_no, .. } => sequence_no,
            Effect::RunInline { sequence_no, .. } => sequence_no,
            Effect::Spawn { sequence_no, .. } => sequence_no,
            Effect::ErrorReply { sequence_no, .. } => sequence_no,
        }
    }
}

/// Number of slots that a handler of this kind has.
pub open spec fn slots_of(kind: HandlerKind) -> nat {
    match kind {
        HandlerKind::Pooled { pool_size } => pool_size as nat,
        _ => 0,
    }
}

/// The dispatch engine as a value: the registry, and for each of its rows the
/// slots of that row's pool.
pub struct EngineView {
    pub registry: RegistryView,
    pub pools: Seq<Seq<Option<u32>>>,
}

impl EngineView {
    /// The registry is well formed, and each row has a pool of as many slots
    /// as its kind says: none unless it is pooled.
    pub open spec fn wf(self) -> bool {
        &&& self.registry.wf()
        &&& self.pools.len() == self.registry.entries.len()
        &&& forall|i: int|
            0 <= i < self.pools.len() ==> (#[trigger] self.pools[i]).len() == slots_of(
                self.registry.entries[i].handler_kind,
            )
    }
}

/// A step of the engine: the engine afterwards and the effect.
pub struct Dispatched {
    pub engine: EngineView,
    pub effect: Effect,
}

/// What the engine does about a frame. `payload_ok` says whether the payload
/// is a value of the type that the endpoint takes.
pub open spec fn spec_dispatch(engine: EngineView, frame: FrameView, payload_ok: bool)
    -> Dispatched {
    let sequence_no = frame.sequence_no;
    let refuse = |kind: ErrorKind|
        Dispatched { engine, effect: Effect::ErrorReply { sequence_no, kind } };
    match engine.registry.resolve(frame.endpoint_key) {
        None => refuse(ErrorKind::UnknownEndpoint),
        Some(i) => {
            let row = engine.registry.entries[i];
            let handler_ref = row.handler_ref;
            if !payload_ok {
                refuse(ErrorKind::SchemaMismatch)
            } else {
                match row.handler_kind {
                    HandlerKind::Blocking => Dispatched {
                        engine,
                        effect: Effect::RunBlocking { handler_ref, sequence_no },
                    },
                    HandlerKind::InlineAsync => Dispatched {
                        engine,
                        effect: Effect::RunInline { handler_ref, sequence_no },
                    },
                    HandlerKind::Pooled { .. } => {
                        let admission = spec_acquire(engine.pools[i], sequence_no);
                        match admission.slot {
                            Some(slot) => Dispatched {
                                engine: EngineView {
                                    pools: engine.pools.update(i, admission.slots),
                                    ..engine
                                },
                                effect: Effect::Spawn {
                                    handler_ref,
                                    sequence_no,
                                    entry: i as usize,
                                    slot: slot as usize,
                                },
                            },
                            None => refuse(ErrorKind::PoolExhausted),
                        }
                    },
                }
            }
        },
    }
}

/// The engine after the task in the given slot of the given row has run to
/// its end. Numbers that name no slot change nothing.
pub open spec fn spec_complete(engine: EngineView, entry: int, slot: int) -> EngineView {
    if 0 <= entry < engine.pools.len() {
        EngineView {
            pools: engine.pools.update(entry, spec_release(engine.pools[entry], slot)),
            ..engine
        }
    } else {
        engine
    }
}

/// The reply to a request carries the sequence number of that request,
/// whatever becomes of the request.
pub proof fn lemma_reply_echoes_sequence_no(engine: EngineView, frame: FrameView, payload_ok: bool)
    ensures
        spec_dispatch(engine, frame, payload_ok).effect.spec_sequence_no() == frame.sequence_no,
{
}

/// A request is answered with an error in three cases and no others: its key
/// selects no endpoint, its payload is no request of the endpoint, or the
/// endpoint is pooled and has as many calls in flight as it has slots. An
/// error leaves the engine as it was, so what follows is served as if the
/// failed request had never come.
pub proof fn lemma_error_replies(engine: EngineView, frame: FrameView, payload_ok: bool)
    requires
        engine.wf(),
    ensures
        match spec_dispatch(engine, frame, payload_ok).effect {
            Effect::ErrorReply { sequence_no, kind } => {
                &&& sequence_no == frame.sequence_no
                &&& spec_dispatch(engine, frame, payload_ok).engine == engine
                &&& match engine.registry.resolve(frame.endpoint_key) {
                    None => kind == ErrorKind::UnknownEndpoint,
                    Some(i) => if !payload_ok {
                        kind == ErrorKind::SchemaMismatch
                    } else {
                        &&& kind == ErrorKind::PoolExhausted
                        &&& engine.registry.entries[i].handler_kind is Pooled
                        &&& in_flight(engine.pools[i]) == slots_of(
                            engine.registry.entries[i].handler_kind,
                        )
                    },
                }
            },
            _ => {
                &&& payload_ok
                &&& engine.registry.resolve(frame.endpoint_key) is Some
            },
        },
{
    crate::registry::lemma_resolve(engine.registry, frame.endpoint_key);
    match engine.registry.resolve(frame.endpoint_key) {
        Some(i) => {
            crate::pool::lemma_acquire(engine.pools[i], frame.sequence_no);
        },
        None => {},
    }
}

/// A frame with a key that no endpoint answers to gets one error reply and
/// changes nothing: any frame after it is served as it would have been
/// without it.
pub proof fn lemma_unknown_endpoint(
    engine: EngineView,
    unknown: FrameView,
    payload_ok: bool,
    next: FrameView,
    next_ok: bool,
)
    requires
        engine.registry.resolve(unknown.endpoint_key) is None,
    ensures
        spec_dispatch(engine, unknown, payload_ok) == (Dispatched {
            engine,
            effect: Effect::ErrorReply {
                sequence_no: unknown.sequence_no,
                kind: ErrorKind::UnknownEndpoint,
            },
        }),
        spec_dispatch(spec_dispatch(engine, unknown, payload_ok).engine, next, next_ok)
            == spec_dispatch(engine, next, next_ok),
{
}

/// Dispatching keeps the engine well formed and the registry as it is, touches
/// no pool but that of the endpoint meant, and never leaves more calls in
/// flight at an endpoint than that endpoint has slots.
pub proof fn lemma_dispatch_keeps_bounds(engine: EngineView, frame: FrameView, payload_ok: bool)
    requires
        engine.wf(),
    ensures
        spec_dispatch(engine, frame, payload_ok).engine.wf(),
        spec_dispatch(engine, frame, payload_ok).engine.registry == engine.registry,
        forall|j: int|
            0 <= j < engine.pools.len() && engine.registry.resolve(frame.endpoint_key) != Some(j)
                ==> spec_dispatch(engine, frame, payload_ok).engine.pools[j] == engine.pools[j],
        forall|j: int|
            0 <= j < engine.pools.len() ==> in_flight(
                #[trigger] spec_dispatch(engine, frame, payload_ok).engine.pools[j],
            ) <= slots_of(engine.registry.entries[j].handler_kind),
{
    crate::registry::lemma_resolve(engine.registry, frame.endpoint_key);
    let after = spec_dispatch(engine, frame, payload_ok).engine;
    match engine.registry.resolve(frame.endpoint_key) {
        Some(i) => {
            crate::pool::lemma_acquire(engine.pools[i], frame.sequence_no);
        },
        None => {},
    }
    assert forall|j: int| 0 <= j < engine.pools.len() implies in_flight(#[trigger] after.pools[j])
        <= slots_of(engine.registry.entries[j].handler_kind) by {
        crate::pool::lemma_in_flight_bound(after.pools[j]);
    }
}

/// Completion keeps the engine well formed and the registry as it is, and
/// frees one call's slot where the numbers name a taken slot.
pub proof fn lemma_complete_keeps_bounds(engine: EngineView, entry: int, slot: int)
    requires
        engine.wf(),
    ensures
        spec_complete(engine, entry, slot).wf(),
        spec_complete(engine, entry, slot).registry == engine.registry,
        0 <= entry < engine.pools.len() && 0 <= slot < engine.pools[entry].len()
            && engine.pools[entry][slot] is Some ==> in_flight(
            spec_complete(engine, entry, slot).pools[entry],
        ) + 1 == in_flight(engine.pools[entry]),
{
    if 0 <= entry < engine.pools.len() && 0 <= slot < engine.pools[entry].len()
        && engine.pools[entry][slot] is Some {
        crate::pool::lemma_release(engine.pools[entry], slot);
    }
}

/// What a run of frames gives when each payload is a request of its endpoint
/// and no pooled call finishes in between.
pub struct DispatchedAll {
    pub engine: EngineView,
    pub effects: Seq<Effect>,
}

/// Dispatching each of `frames` in turn.
pub open spec fn spec_dispatch_all(engine: EngineView, frames: Seq<FrameView>) -> DispatchedAll
    decreases frames.len(),
{
    if frames.len() == 0 {
        DispatchedAll { engine, effects: Seq::empty() }
    } else {
        let before = spec_dispatch_all(engine, frames.drop_last());
        let last = spec_dispatch(before.engine, frames.last(), true);
        DispatchedAll { engine: last.engine, effects: before.effects.push(last.effect) }
    }
}

/// The sequence numbers of a run of frames.
pub open spec fn sequence_numbers(frames: Seq<FrameView>) -> Seq<u32> {
    Seq::new(frames.len(), |k: int| frames[k].sequence_no)
}

proof fn lemma_dispatch_all_one_endpoint(engine: EngineView, frames: Seq<FrameView>, i: int)
    requires
        engine.wf(),
        0 <= i < engine.registry.entries.len(),
        engine.registry.entries[i].handler_kind is Pooled,
        forall|k: int|
            0 <= k < frames.len() ==> engine.registry.resolve(
                (#[trigger] frames[k]).endpoint_key,
            ) == Some(i),
    ensures
        spec_dispatch_all(engine, frames).engine == (EngineView {
            pools: engine.pools.update(
                i,
                crate::pool::spec_acquire_all(engine.pools[i], sequence_numbers(frames)).slots,
            ),
            ..engine
        }),
        spec_dispatch_all(engine, frames).effects.len() == frames.len(),
        forall|k: int|
            0 <= k < frames.len() ==> (#[trigger] spec_dispatch_all(engine, frames).effects[k])
                == match crate::pool::spec_acquire_all(
                engine.pools[i],
                sequence_numbers(frames),
            ).outcomes[k] {
                Some(slot) => Effect::Spawn {
                    handler_ref: engine.registry.entries[i].handler_ref,
                    sequence_no: frames[k].sequence_no,
                    entry: i as usize,
                    slot: slot as usize,
                },
                None => Effect::ErrorReply {
                    sequence_no: frames[k].sequence_no,
                    kind: ErrorKind::PoolExhausted,
                },
            },
        crate::pool::spec_acquire_all(engine.pools[i], sequence_numbers(frames)).outcomes.len()
            == frames.len(),
    decreases frames.len(),
{
    let numbers = sequence_numbers(frames);
    let all = spec_dispatch_all(engine, frames);
    let admitted = crate::pool::spec_acquire_all(engine.pools[i], numbers);
    if frames.len() == 0 {
        assert(engine.pools.update(i, engine.pools[i]) =~= engine.pools);
    } else {
        let front = frames.drop_last();
        lemma_dispatch_all_one_endpoint(engine, front, i);
        assert(sequence_numbers(front) =~= numbers.drop_last());
        let before = spec_dispatch_all(engine, front);
        let admitted_before = crate::pool::spec_acquire_all(engine.pools[i], numbers.drop_last());
        let last = spec_dispatch(before.engine, frames.last(), true);
        assert(all.engine.pools =~= engine.pools.update(i, admitted.slots));
        assert forall|k: int| 0 <= k < frames.len() implies (#[trigger] all.effects[k])
            == match admitted.outcomes[k] {
            Some(slot) => Effect::Spawn {
                handler_ref: engine.registry.entries[i].handler_ref,
                sequence_no: frames[k].sequence_no,
                entry: i as usize,
                slot: slot as usize,
            },
            None => Effect::ErrorReply {
                sequence_no: frames[k].sequence_no,
                kind: ErrorKind::PoolExhausted,
            },
        } by {
            if k < front.len() {
                assert(all.effects[k] == before.effects[k]);
                assert(admitted.outcomes[k] == admitted_before.outcomes[k]);
                assert(front[k] == frames[k]);
            }
        }
    }
}

/// Of one call more than a pooled endpoint has slots, made while nothing is in
/// flight there and none of them finishes, exactly the last is refused, as
/// `PoolExhausted`. Each of the others is started in a slot of its own under
/// its own sequence number, so that their replies carry numbers as distinct as
/// their requests did.
pub proof fn lemma_pool_overflow(engine: EngineView, frames: Seq<FrameView>, i: int)
    requires
        engine.wf(),
        0 <= i < engine.registry.entries.len(),
        engine.registry.entries[i].handler_kind is Pooled,
        engine.pools[i] == empty_pool(slots_of(engine.registry.entries[i].handler_kind)),
        frames.len() == slots_of(engine.registry.entries[i].handler_kind) + 1,
        forall|k: int|
            0 <= k < frames.len() ==> engine.registry.resolve(
                (#[trigger] frames[k]).endpoint_key,
            ) == Some(i),
    ensures
        spec_dispatch_all(engine, frames).effects.len() == frames.len(),
        forall|k: int|
            0 <= k < frames.len() - 1 ==> (#[trigger] spec_dispatch_all(engine, frames).effects[k])
                == (Effect::Spawn {
                handler_ref: engine.registry.entries[i].handler_ref,
                sequence_no: frames[k].sequence_no,
                entry: i as usize,
                slot: k as usize,
            }),
        spec_dispatch_all(engine, frames).effects[frames.len() - 1] == (Effect::ErrorReply {
            sequence_no: frames[frames.len() - 1].sequence_no,
            kind: ErrorKind::PoolExhausted,
        }),
        forall|a: int, b: int|
            0 <= a < b < frames.len() - 1 && frames[a].sequence_no != frames[b].sequence_no
                ==> spec_dispatch_all(engine, frames).effects[a].spec_sequence_no()
                != spec_dispatch_all(engine, frames).effects[b].spec_sequence_no(),
{
    let size = slots_of(engine.registry.entries[i].handler_kind);
    lemma_dispatch_all_one_endpoint(engine, frames, i);
    crate::pool::lemma_one_more_than_slots(size, sequence_numbers(frames));
}

/// The dispatch engine: it finds the endpoint that a frame means and says
/// under which discipline its handler is to run.
#[derive(Debug, PartialEq, Eq)]
pub struct DispatchEngine {
    registry: EndpointRegistry,
    pools: Vec<TaskPool>,
}

/// The pools of an engine, each by its slots.
pub open spec fn pool_views(pools: Seq<TaskPool>) -> Seq<Seq<Option<u32>>> {
    Seq::new(pools.len(), |i: int| pools[i]@)
}

impl View for DispatchEngine {
    type V = EngineView;

    closed spec fn view(&self) -> EngineView {
        EngineView { registry: self.registry@, pools: pool_views(self.pools@) }
    }
}

impl DispatchEngine {
    /// An engine over the given registry, with nothing in flight.
    pub fn new(registry: EndpointRegistry) -> (engine: DispatchEngine)
        ensures
            engine@.registry == registry@,
            engine@.pools == Seq::new(
                registry@.entries.len(),
                |i: int| empty_pool(slots_of(registry@.entries[i].handler_kind)),
            ),
            engine@.wf(),
    {
        let n: usize = registry.len();
        let mut pools: Vec<TaskPool> = Vec::new();
        let mut i: usize = 0;
        while i < n
            invariant
                i <= n,
                n == registry@.entries.len(),
                pools@.len() == i,
                forall|k: int|
                    0 <= k < i ==> (#[trigger] pools@[k])@ == empty_pool(
                        slots_of(registry@.entries[k].handler_kind),
                    ),
            decreases n - i,
        {
            let size: u8 = match registry.entry(i).handler_kind {
                HandlerKind::Pooled { pool_size } => pool_size,
                _ => 0,
            };
            pools.push(TaskPool::new(size));
            i += 1;
        }
        let engine = DispatchEngine { registry, pools };
        assert(engine@.pools =~= Seq::new(
            registry@.entries.len(),
            |i: int| empty_pool(slots_of(registry@.entries[i].handler_kind)),
        ));
        engine
    }

    /// The registry that the engine looks frames up in.
    pub fn registry(&self) -> (r: &EndpointRegistry)
        ensures
            r@ == self@.registry,
    {
        &self.registry
    }

    /// The endpoint that a frame means, if its key is known. The caller needs
    /// it to tell whether the payload is a request of that endpoint.
    pub fn route(&self, frame: &Frame) -> (handler: Option<Endpoint>)
        ensures
            handler == match self@.registry.resolve(frame@.endpoint_key) {
                Some(i) => Some(self@.registry.entries[i].handler_ref),
                None => None,
            },
    {
        match self.registry.resolve(&frame.endpoint_key) {
            Some(row) => Some(row.handler_ref),
            None => None,
        }
    }

    /// Number of calls in flight at the given row.
    pub fn in_flight(&self, entry: usize) -> (n: usize)
        ensures
            n == if entry < self@.pools.len() {
                in_flight(self@.pools[entry as int])
            } else {
                0
            },
    {
        if entry < self.pools.len() {
            self.pools[entry].in_flight()
        } else {
            0
        }
    }

    /// Decides what to do about a frame: an error reply for a key that no
    /// endpoint answers to, for a payload that is no request of the endpoint,
    /// and for a pooled endpoint with every slot taken; otherwise a run of the
    /// handler under its discipline. Only the admission of a pooled call
    /// changes the engine.
    pub fn dispatch(&mut self, frame: &Frame, payload_ok: bool) -> (effect: Effect)
        requires
            old(self)@.wf(),
        ensures
            effect == spec_dispatch(old(self)@, frame@, payload_ok).effect,
            final(self)@ == spec_dispatch(old(self)@, frame@, payload_ok).engine,
            final(self)@.wf(),
            effect.sequence_no() == frame.sequence_no,
    {
        let sequence_no: u32 = frame.sequence_no;
        match self.registry.lookup(&frame.endpoint_key) {
            None => Effect::ErrorReply { sequence_no, kind: ErrorKind::UnknownEndpoint },
            Some(i) => {
                let row = self.registry.entry(i);
                let handler_ref = row.handler_ref;
                if !payload_ok {
                    Effect::ErrorReply { sequence_no, kind: ErrorKind::SchemaMismatch }
                } else {
                    match row.handler_kind {
                        HandlerKind::Blocking => Effect::RunBlocking { handler_ref, sequence_no },
                        HandlerKind::InlineAsync => Effect::RunInline { handler_ref, sequence_no },
                        HandlerKind::Pooled { .. } => {
                            let ghost before = self.pools@;
                            let taken = self.pools[i].acquire(sequence_no);
                            proof {
                                assert(self.pools@ == before.update(i as int, self.pools@[i as int]));
                                assert(pool_views(self.pools@) =~= pool_views(before).update(
                                    i as int,
                                    self.pools@[i as int]@,
                                ));
                                crate::pool::lemma_acquire(before[i as int]@, sequence_no);
                                assert(self@.pools =~= spec_dispatch(
                                    old(self)@,
                                    frame@,
                                    payload_ok,
                                ).engine.pools);
                            }
                            match taken {
                                Ok(slot) => Effect::Spawn {
                                    handler_ref,
                                    sequence_no,
                                    entry: i,
                                    slot,
                                },
                                Err(kind) => Effect::ErrorReply { sequence_no, kind },
                            }
                        },
                    }
                }
            },
        }
    }

    /// Frees the slot of a pooled call that has run to its end, whatever came
    /// of it, and says which call it was.
    pub fn complete(&mut self, entry: usize, slot: usize) -> (finished: Option<u32>)
        requires
            old(self)@.wf(),
        ensures
            final(self)@ == spec_complete(old(self)@, entry as int, slot as int),
            final(self)@.wf(),
            finished == if entry < old(self)@.pools.len() && slot < old(self)@.pools[entry as int].len() {
                old(self)@.pools[entry as int][slot as int]
            } else {
                None
            },
    {
        if entry < self.pools.len() {
            let ghost before = self.pools@;
            let finished = self.pools[entry].release(slot);
            proof {
                assert(self.pools@ == before.update(entry as int, self.pools@[entry as int]));
                assert(pool_views(self.pools@) =~= pool_views(before).update(
                    entry as int,
                    self.pools@[entry as int]@,
                ));
            }
            finished
        } else {
            None
        }
    }
}

} // verus!
