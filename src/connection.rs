//! The connection engine. It owns the handshake state, the invocation-ID
//! counter, the correlation table of pending invocations and the dispatch
//! table, and decides what each piece of transport input means. The
//! transport itself, and the waiting callers, live outside: this engine
//! takes text and returns frames to send and events to deliver.
use vstd::prelude::*;
use crate::dispatch::{target_index, DispatchTable};
use crate::frame::{frames_of, split_records, texts, FrameBuffer};
use crate::handshake::{
    handshake_outcome, handshake_request, handshake_request_text, read_handshake_response,
    ConnectError, ConnectErrorModel, HandshakeState, StateModel,
};
use crate::json::{check_json, is_json};
use crate::message::{
    decode_message, decode_spec, invocation_frame, opt_view, write_invocation, MessageModel,
    ProtocolError, SignalRMessage,
};
use crate::text::{decimal, same_text, write_decimal};

verus! {

/// How a completed invocation ended.
#[derive(Debug, Clone, PartialEq, Eq)]
pub enum InvokeOutcome {
    /// The server returned this result (raw JSON text), if it sent one.
    Returned(Option<String>),
    /// The server reported this application error.
    ServerError(String),
}

/// What one frame, read by the reader loop, comes to.
#[derive(Debug, Clone, PartialEq, Eq)]
pub enum ReaderEvent {
    /// A pending invocation was resolved and removed from the table.
    Completed { invocation_id: u64, outcome: InvokeOutcome },
    /// A server invocation is to be handed to the handler at this index.
    Dispatched { handler: usize, arguments: Vec<String> },
    /// A server invocation named a target with no handler; it is dropped.
    Unhandled { target: String },
    /// A completion named an invocation ID that is not pending; it is dropped.
    UnknownInvocation { invocation_id: String },
    /// The frame could not be decoded; it is skipped.
    Undecodable(ProtocolError),
    /// A keep-alive ping.
    Ping,
}

/// What a call of `receive` produced.
#[derive(Debug, Clone, PartialEq, Eq)]
pub struct Receipt {
    /// The handshake's outcome, where this input decided it.
    pub handshake: Option<Result<(), ConnectError>>,
    /// The events of the hub frames read, in order.
    pub events: Vec<ReaderEvent>,
}

/// Why an invocation could not be started.
#[derive(PartialEq, Eq, Structural, Clone, Copy, Debug)]
pub enum InvokeError {
    /// The handshake has not completed yet.
    NotConnected,
    /// The connection failed or was closed.
    ConnectionClosed,
    /// An argument is not one JSON value.
    InvalidArgument,
    /// Every invocation ID has been issued.
    IdsExhausted,
}

/// A started invocation: its ID, and the frame to write to the transport.
#[derive(Debug, Clone, PartialEq, Eq)]
pub struct Invocation {
    pub invocation_id: u64,
    pub frame: String,
}

pub enum OutcomeModel {
    Returned(Option<Seq<char>>),
    ServerError(Seq<char>),
}

pub enum EventModel {
    Completed { invocation_id: u64, outcome: OutcomeModel },
    Dispatched { handler: int, arguments: Seq<Seq<char>> },
    Unhandled { target: Seq<char> },
    UnknownInvocation { invocation_id: Seq<char> },
    Undecodable(ProtocolError),
    Ping,
}

impl InvokeOutcome {
    pub open spec fn model(&self) -> OutcomeModel {
        match self {
            InvokeOutcome::Returned(r) => OutcomeModel::Returned(opt_view(*r)),
            InvokeOutcome::ServerError(e) => OutcomeModel::ServerError(e@),
        }
    }
}

impl ReaderEvent {
    pub open spec fn model(&self) -> EventModel {
        match self {
            ReaderEvent::Completed { invocation_id, outcome } => EventModel::Completed {
                invocation_id: *invocation_id,
                outcome: outcome.model(),
            },
            ReaderEvent::Dispatched { handler, arguments } => EventModel::Dispatched {
                handler: *handler as int,
                arguments: texts(arguments@),
            },
            ReaderEvent::Unhandled { target } => EventModel::Unhandled { target: target@ },
            ReaderEvent::UnknownInvocation { invocation_id } => EventModel::UnknownInvocation {
                invocation_id: invocation_id@,
            },
            ReaderEvent::Undecodable(e) => EventModel::Undecodable(*e),
            ReaderEvent::Ping => EventModel::Ping,
        }
    }
}

pub open spec fn events_model(v: Seq<ReaderEvent>) -> Seq<EventModel> {
    v.map_values(|e: ReaderEvent| e.model())
}

/// The outcome that a completion with this result and error reports.
pub open spec fn outcome_of(result: Option<Seq<char>>, error: Option<Seq<char>>) -> OutcomeModel {
    match error {
        Some(e) => OutcomeModel::ServerError(e),
        None => OutcomeModel::Returned(result),
    }
}

/// The index of the first pending invocation whose ID is written `id_text`.
pub open spec fn pending_index(pending: Seq<u64>, id_text: Seq<char>) -> Option<int>
    decreases pending.len(),
{
    if pending.len() == 0 {
        None
    } else if decimal(pending.last() as nat) == id_text {
        match pending_index(pending.drop_last(), id_text) {
            Some(i) => Some(i),
            None => Some(pending.len() - 1),
        }
    } else {
        pending_index(pending.drop_last(), id_text)
    }
}

/// What reading one frame yields, and the pending invocations after it.
pub open spec fn frame_effect(pending: Seq<u64>, targets: Seq<Seq<char>>, frame: Seq<char>) -> (
    EventModel,
    Seq<u64>,
) {
    match decode_spec(frame) {
        Err(e) => (EventModel::Undecodable(e), pending),
        Ok(MessageModel::Ping) => (EventModel::Ping, pending),
        Ok(MessageModel::Invocation { invocation_id, target, arguments }) => match target_index(
            targets,
            target,
        ) {
            Some(i) => (EventModel::Dispatched { handler: i, arguments }, pending),
            None => (EventModel::Unhandled { target }, pending),
        },
        Ok(MessageModel::Completion { invocation_id, result, error }) => match pending_index(
            pending,
            invocation_id,
        ) {
            Some(i) => (
                EventModel::Completed {
                    invocation_id: pending[i],
                    outcome: outcome_of(result, error),
                },
                pending.remove(i),
            ),
            None => (EventModel::UnknownInvocation { invocation_id }, pending),
        },
    }
}

/// What reading `frames` in order yields, and the pending invocations after.
pub open spec fn frames_effect(
    pending: Seq<u64>,
    targets: Seq<Seq<char>>,
    frames: Seq<Seq<char>>,
) -> (Seq<EventModel>, Seq<u64>)
    decreases frames.len(),
{
    if frames.len() == 0 {
        (Seq::empty(), pending)
    } else {
        let prev = frames_effect(pending, targets, frames.drop_last());
        let step = frame_effect(prev.1, targets, frames.last());
        (prev.0.push(step.0), step.1)
    }
}

/// Strictly increasing, and none above `last`.
pub open spec fn issued_in_order(pending: Seq<u64>, last: u64) -> bool {
    &&& forall|i: int, j: int| 0 <= i < j < pending.len() ==> pending[i] < pending[j]
    &&& forall|i: int| 0 <= i < pending.len() ==> 1 <= #[trigger] pending[i] <= last
}

/// What `receive` yields and leaves behind.
pub struct ReceiveModel {
    pub handshake: Option<Result<(), ConnectErrorModel>>,
    pub events: Seq<EventModel>,
    pub state: StateModel,
    pub pending: Seq<u64>,
    pub buffered: Seq<char>,
}

/// Receiving `chunk`: while the handshake is awaited, the first complete
/// frame is its response, and on success the frames after it are hub
/// messages; once ready, every complete frame is a hub message. In any
/// other state the input is ignored.
pub open spec fn receive_spec(
    state: StateModel,
    pending: Seq<u64>,
    targets: Seq<Seq<char>>,
    buffered: Seq<char>,
    chunk: Seq<char>,
) -> ReceiveModel {
    let text = buffered + chunk;
    let frames = frames_of(text);
    let rest = split_records(text).1;
    match state {
        StateModel::Ready => {
            let e = frames_effect(pending, targets, frames);
            ReceiveModel {
                handshake: None,
                events: e.0,
                state: StateModel::Ready,
                pending: e.1,
                buffered: rest,
            }
        },
        StateModel::AwaitingHandshakeAck => {
            if frames.len() == 0 {
                ReceiveModel {
                    handshake: None,
                    events: Seq::empty(),
                    state,
                    pending,
                    buffered: rest,
                }
            } else {
                match handshake_outcome(frames[0]) {
                    Ok(()) => {
                        let e = frames_effect(pending, targets, frames.drop_first());
                        ReceiveModel {
                            handshake: Some(Ok(())),
                            events: e.0,
                            state: StateModel::Ready,
                            pending: e.1,
                            buffered: rest,
                        }
                    },
                    Err(err) => ReceiveModel {
                        handshake: Some(Err(err)),
                        events: Seq::empty(),
                        state: StateModel::Failed(err),
                        pending,
                        buffered: rest,
                    },
                }
            }
        },
        _ => ReceiveModel { handshake: None, events: Seq::empty(), state, pending, buffered },
    }
}

pub open spec fn handshake_model(h: Option<Result<(), ConnectError>>) -> Option<
    Result<(), ConnectErrorModel>,
> {
    match h {
        None => None,
        Some(Ok(())) => Some(Ok(())),
        Some(Err(e)) => Some(Err(e.model())),
    }
}

pub struct SignalRConnection<H> {
    url: String,
    state: HandshakeState,
    last_id: u64,
    pending: Vec<u64>,
    handlers: DispatchTable<H>,
    buffer: FrameBuffer,
}

/// Every argument holds one JSON value.
pub open spec fn all_json(arguments: Seq<Seq<char>>) -> bool {
    forall|i: int| 0 <= i < arguments.len() ==> is_json(#[trigger] arguments[i])
}

/// A found index lies within `pending` and names an ID written `id_text`.
pub proof fn lemma_pending_index_bounds(pending: Seq<u64>, id_text: Seq<char>)
    ensures
        pending_index(pending, id_text) is Some ==> 0 <= pending_index(pending, id_text)->0
            < pending.len() && decimal(pending[pending_index(pending, id_text)->0] as nat)
            == id_text,
    decreases pending.len(),
{
    if pending.len() > 0 {
        lemma_pending_index_bounds(pending.drop_last(), id_text);
    }
}

/// Taking one entry out keeps the table in issue order.
pub proof fn lemma_remove_keeps_order(pending: Seq<u64>, last: u64, i: int)
    requires
        issued_in_order(pending, last),
        0 <= i < pending.len(),
    ensures
        issued_in_order(pending.remove(i), last),
{
    let r = pending.remove(i);
    assert forall|a: int, b: int| 0 <= a < b < r.len() implies r[a] < r[b] by {
        let a0 = if a < i { a } else { a + 1 };
        let b0 = if b < i { b } else { b + 1 };
        assert(r[a] == pending[a0] && r[b] == pending[b0]);
    }
    assert forall|a: int| 0 <= a < r.len() implies r[a] <= last by {
        let a0 = if a < i { a } else { a + 1 };
        assert(r[a] == pending[a0]);
    }
}

impl<H> SignalRConnection<H> {
    /// What `send_invocation` of `target` with `arguments` does: on success it
    /// issues the next ID, records it as pending and writes its frame; each
    /// error comes on exactly the inputs named, and changes nothing.
    pub open spec fn invoke_effect(
        before: Self,
        after: Self,
        target: Seq<char>,
        arguments: Seq<Seq<char>>,
        r: Result<Invocation, InvokeError>,
    ) -> bool {
        &&& after.url() == before.url()
        &&& after.state() == before.state()
        &&& after.targets() == before.targets()
        &&& after.handlers() == before.handlers()
        &&& after.buffered() == before.buffered()
        &&& r is Ok == (before.state() is Ready && all_json(arguments) && before.last_issued()
            < u64::MAX)
        &&& match r {
            Ok(inv) => {
                &&& inv.invocation_id == before.last_issued() + 1
                &&& after.last_issued() == inv.invocation_id
                &&& after.pending() == before.pending().push(inv.invocation_id)
                &&& inv.frame@ == invocation_frame(
                    decimal(inv.invocation_id as nat),
                    target,
                    arguments,
                )
            },
            Err(e) => {
                &&& after.last_issued() == before.last_issued()
                &&& after.pending() == before.pending()
                &&& (e == InvokeError::ConnectionClosed) == (before.state() is Failed
                    || before.state() is Closed)
                &&& (e == InvokeError::NotConnected) == (before.state() is Idle
                    || before.state() is AwaitingTransportOpen
                    || before.state() is AwaitingHandshakeAck)
                &&& (e == InvokeError::InvalidArgument) == (before.state() is Ready && !all_json(
                    arguments,
                ))
                &&& (e == InvokeError::IdsExhausted) == (before.state() is Ready && all_json(
                    arguments,
                ) && before.last_issued() == u64::MAX)
            },
        }
    }
}

impl<H> SignalRConnection<H> {
    pub closed spec fn state(&self) -> StateModel {
        self.state.model()
    }

    /// The address that the transport is to be opened on.
    pub closed spec fn url(&self) -> Seq<char> {
        self.url@
    }

    /// The last invocation ID issued; 0 before the first.
    pub closed spec fn last_issued(&self) -> u64 {
        self.last_id
    }

    /// The IDs of the invocations awaiting a completion, in issue order.
    pub closed spec fn pending(&self) -> Seq<u64> {
        self.pending@
    }

    /// The targets that have a registered handler.
    pub closed spec fn targets(&self) -> Seq<Seq<char>> {
        self.handlers.targets()
    }

    /// The registered handlers, at the indexes of their targets.
    pub closed spec fn handlers(&self) -> Seq<H> {
        self.handlers.handlers()
    }

    /// Received text that no record separator has closed yet.
    pub closed spec fn buffered(&self) -> Seq<char> {
        self.buffer.pending()
    }

    /// The pending IDs were issued by this connection, once each, in order.
    pub closed spec fn wf(&self) -> bool {
        self.handlers.wf() && issued_in_order(self.pending@, self.last_id)
    }

    /// The parts that reading input and handshake steps leave alone.
    pub open spec fn same_setup(&self, other: &Self) -> bool {
        &&& self.url() == other.url()
        &&& self.last_issued() == other.last_issued()
        &&& self.targets() == other.targets()
        &&& self.handlers() == other.handlers()
    }

    pub fn new(url: &str) -> (r: Self)
        ensures
            r.wf(),
            r.state() == StateModel::Idle,
            r.url() == url@,
            r.last_issued() == 0,
            r.pending() == Seq::<u64>::empty(),
            r.targets() == Seq::<Seq<char>>::empty(),
            r.buffered() == Seq::<char>::empty(),
    {
        SignalRConnection {
            url: url.to_owned(),
            state: HandshakeState::Idle,
            last_id: 0,
            pending: Vec::new(),
            handlers: DispatchTable::new(),
            buffer: FrameBuffer::new(),
        }
    }

    /// The address that the transport is to be opened on.
    pub fn url_text(&self) -> (r: &str)
        ensures
            r@ == self.url(),
    {
        self.url.as_str()
    }

    /// The current handshake state.
    pub fn current_state(&self) -> (r: HandshakeState)
        ensures
            r.model() == self.state(),
    {
        self.state.duplicate()
    }

    /// Starts a connection attempt; only an idle connection can start one.
    pub fn connect(&mut self) -> (r: bool)
        requires
            old(self).wf(),
        ensures
            final(self).wf(),
            final(self).same_setup(old(self)),
            final(self).pending() == old(self).pending(),
            final(self).buffered() == old(self).buffered(),
            r == (old(self).state() is Idle),
            final(self).state() == (if r {
                StateModel::AwaitingTransportOpen
            } else {
                old(self).state()
            }),
    {
        match self.state {
            HandshakeState::Idle => {
                self.state = HandshakeState::AwaitingTransportOpen;
                true
            },
            _ => false,
        }
    }

    /// The transport has opened: returns the handshake request to send.
    pub fn transport_opened(&mut self) -> (r: Option<String>)
        requires
            old(self).wf(),
        ensures
            final(self).wf(),
            final(self).same_setup(old(self)),
            final(self).pending() == old(self).pending(),
            final(self).buffered() == old(self).buffered(),
            r is Some == (old(self).state() is AwaitingTransportOpen),
            r is Some ==> r->0@ == handshake_request_text(),
            final(self).state() == (if r is Some {
                StateModel::AwaitingHandshakeAck
            } else {
                old(self).state()
            }),
    {
        match self.state {
            HandshakeState::AwaitingTransportOpen => {
                self.state = HandshakeState::AwaitingHandshakeAck;
                Some(handshake_request())
            },
            _ => None,
        }
    }

    /// The transport has closed or failed. A connection attempt in progress
    /// fails with `reason`; a ready connection becomes closed. Every pending
    /// invocation is taken out of the table and returned, to be resolved as
    /// closed.
    pub fn transport_closed(&mut self, reason: String) -> (r: Vec<u64>)
        requires
            old(self).wf(),
        ensures
            final(self).wf(),
            final(self).same_setup(old(self)),
            r@ == old(self).pending(),
            final(self).pending() == Seq::<u64>::empty(),
            final(self).buffered() == old(self).buffered(),
            final(self).state() == (match old(self).state() {
                StateModel::AwaitingTransportOpen => StateModel::Failed(
                    ConnectErrorModel::TransportError(reason@),
                ),
                StateModel::AwaitingHandshakeAck => StateModel::Failed(
                    ConnectErrorModel::TransportError(reason@),
                ),
                StateModel::Ready => StateModel::Closed,
                other => other,
            }),
    {
        match self.state {
            HandshakeState::AwaitingTransportOpen | HandshakeState::AwaitingHandshakeAck => {
                self.state = HandshakeState::Failed(ConnectError::TransportError(reason));
            },
            HandshakeState::Ready => {
                self.state = HandshakeState::Closed;
            },
            _ => {},
        }
        let mut drained: Vec<u64> = Vec::new();
        std::mem::swap(&mut self.pending, &mut drained);
        drained
    }

    /// Closes the connection. Every pending invocation is taken out of the
    /// table and returned, to be resolved as closed.
    pub fn close(&mut self) -> (r: Vec<u64>)
        requires
            old(self).wf(),
        ensures
            final(self).wf(),
            final(self).same_setup(old(self)),
            r@ == old(self).pending(),
            final(self).pending() == Seq::<u64>::empty(),
            final(self).buffered() == old(self).buffered(),
            final(self).state() == StateModel::Closed,
    {
        self.state = HandshakeState::Closed;
        let mut drained: Vec<u64> = Vec::new();
        std::mem::swap(&mut self.pending, &mut drained);
        drained
    }

    /// Starts an invocation of `target` with the given JSON-encoded
    /// arguments: issues the next invocation ID, records it as pending and
    /// returns the frame to send.
    #[verifier::loop_isolation(false)]
    pub fn send_invocation(&mut self, target: &str, arguments: &Vec<String>) -> (r: Result<
        Invocation,
        InvokeError,
    >)
        requires
            old(self).wf(),
        ensures
            final(self).wf(),
            Self::invoke_effect(*old(self), *final(self), target@, texts(arguments@), r),
    {
        match self.state {
            HandshakeState::Ready => {},
            HandshakeState::Failed(_) | HandshakeState::Closed => {
                return Err(InvokeError::ConnectionClosed);
            },
            _ => {
                return Err(InvokeError::NotConnected);
            },
        }
        let mut k: usize = 0;
        while k < arguments.len()
            invariant
                k <= arguments@.len(),
                forall|j: int| 0 <= j < k ==> is_json(#[trigger] texts(arguments@)[j]),
            decreases arguments.len() - k,
        {
            if !check_json(arguments[k].as_str()) {
                assert(!is_json(texts(arguments@)[k as int]));
                return Err(InvokeError::InvalidArgument);
            }
            k = k + 1;
        }
        if self.last_id == u64::MAX {
            return Err(InvokeError::IdsExhausted);
        }
        self.last_id = self.last_id + 1;
        let id = self.last_id;
        let id_text = write_decimal(id);
        let frame = write_invocation(id_text.as_str(), target, arguments);
        self.pending.push(id);
        Ok(Invocation { invocation_id: id, frame })
    }

    /// Gives up on a pending invocation, as its caller does when sending
    /// its frame failed or it stops waiting. Its ID is not issued again.
    pub fn abandon(&mut self, invocation_id: u64) -> (r: bool)
        requires
            old(self).wf(),
        ensures
            final(self).wf(),
            final(self).same_setup(old(self)),
            final(self).state() == old(self).state(),
            final(self).buffered() == old(self).buffered(),
            r == old(self).pending().contains(invocation_id),
            r ==> exists|i: int|
                0 <= i < old(self).pending().len() && old(self).pending()[i] == invocation_id
                    && final(self).pending() == old(self).pending().remove(i),
            !r ==> final(self).pending() == old(self).pending(),
    {
        let mut i: usize = 0;
        while i < self.pending.len()
            invariant
                i <= self.pending@.len(),
                *self == *old(self),
                old(self).wf(),
                forall|j: int| 0 <= j < i ==> self.pending@[j] != invocation_id,
            decreases self.pending.len() - i,
        {
            if self.pending[i] == invocation_id {
                proof {
                    lemma_remove_keeps_order(self.pending@, self.last_id, i as int);
                }
                self.pending.remove(i);
                return true;
            }
            i = i + 1;
        }
        false
    }

    /// Registers `handler` for server invocations of `method_name`,
    /// replacing any handler registered for it before.
    pub fn on(&mut self, method_name: &str, handler: H)
        requires
            old(self).wf(),
        ensures
            final(self).wf(),
            final(self).url() == old(self).url(),
            final(self).state() == old(self).state(),
            final(self).last_issued() == old(self).last_issued(),
            final(self).pending() == old(self).pending(),
            final(self).buffered() == old(self).buffered(),
            match target_index(old(self).targets(), method_name@) {
                Some(i) => final(self).targets() == old(self).targets() && final(self).handlers()
                    == old(self).handlers().update(i, handler),
                None => final(self).targets() == old(self).targets().push(method_name@)
                    && final(self).handlers() == old(self).handlers().push(handler),
            },
    {
        self.handlers.register(method_name.to_owned(), handler);
    }

    /// The number of registered handlers.
    pub fn handler_count(&self) -> (r: usize)
        requires
            self.wf(),
        ensures
            r == self.targets().len(),
    {
        self.handlers.len()
    }

    /// The handler at `index`, as a `Dispatched` event names it.
    pub fn handler(&self, index: usize) -> (r: &H)
        requires
            self.wf(),
            index < self.targets().len(),
        ensures
            *r == self.handlers()[index as int],
    {
        self.handlers.handler(index)
    }

    /// Finds the pending invocation whose ID is written `id_text`.
    fn find_pending(&self, id_text: &str) -> (r: Option<usize>)
        ensures
            match pending_index(self.pending(), id_text@) {
                Some(i) => r is Some && r->0 as int == i,
                None => r is None,
            },
    {
        proof {
            lemma_pending_index_bounds(self.pending@, id_text@);
        }
        let ghost all = self.pending@;
        let mut i: usize = 0;
        let mut found: Option<usize> = None;
        while i < self.pending.len()
            invariant
                i <= self.pending@.len(),
                all == self.pending@,
                match pending_index(all.subrange(0, i as int), id_text@) {
                    Some(j) => found is Some && found->0 as int == j,
                    None => found is None,
                },
                found is Some ==> found->0 < i,
            decreases self.pending.len() - i,
        {
            assert(all.subrange(0, i + 1).drop_last() == all.subrange(0, i as int));
            if found.is_none() {
                let text = write_decimal(self.pending[i]);
                if same_text(text.as_str(), id_text) {
                    found = Some(i);
                }
            }
            i = i + 1;
        }
        assert(all.subrange(0, all.len() as int) == all);
        found
    }

    /// Reads one hub frame: a completion resolves its pending invocation, an
    /// invocation is routed to its handler, anything else is reported.
    fn handle_frame(&mut self, frame: &str) -> (r: ReaderEvent)
        requires
            old(self).wf(),
        ensures
            final(self).wf(),
            final(self).same_setup(old(self)),
            final(self).state() == old(self).state(),
            final(self).buffered() == old(self).buffered(),
            (r.model(), final(self).pending()) == frame_effect(
                old(self).pending(),
                old(self).targets(),
                frame@,
            ),
    {
        match decode_message(frame) {
            Err(e) => ReaderEvent::Undecodable(e),
            Ok(SignalRMessage::Ping) => ReaderEvent::Ping,
            Ok(SignalRMessage::Invocation(m)) => {
                proof {
                    crate::dispatch::lemma_target_index_bounds(self.targets(), m.target@);
                }
                match self.handlers.lookup(m.target.as_str()) {
                    Some(i) => {
                        assert(texts(m.arguments@) == m.arguments@.map_values(|t: String| t@));
                        ReaderEvent::Dispatched { handler: i, arguments: m.arguments }
                    },
                    None => ReaderEvent::Unhandled { target: m.target },
                }
            },
            Ok(SignalRMessage::Completion(m)) => {
                proof {
                    lemma_pending_index_bounds(self.pending@, m.invocation_id@);
                }
                match self.find_pending(m.invocation_id.as_str()) {
                    Some(i) => {
                        proof {
                            lemma_remove_keeps_order(self.pending@, self.last_id, i as int);
                        }
                        let id = self.pending.remove(i);
                        let outcome = match m.error {
                            Some(e) => InvokeOutcome::ServerError(e),
                            None => InvokeOutcome::Returned(m.result),
                        };
                        ReaderEvent::Completed { invocation_id: id, outcome }
                    },
                    None => ReaderEvent::UnknownInvocation { invocation_id: m.invocation_id },
                }
            },
        }
    }

    /// Takes the next chunk of text from the transport; see `receive_spec`.
    pub fn receive(&mut self, chunk: &str) -> (r: Receipt)
        requires
            old(self).wf(),
        ensures
            final(self).wf(),
            final(self).same_setup(old(self)),
            receive_spec(
                old(self).state(),
                old(self).pending(),
                old(self).targets(),
                old(self).buffered(),
                chunk@,
            ) == (ReceiveModel {
                handshake: handshake_model(r.handshake),
                events: events_model(r.events@),
                state: final(self).state(),
                pending: final(self).pending(),
                buffered: final(self).buffered(),
            }),
    {
        let awaiting = match self.state {
            HandshakeState::Ready => false,
            HandshakeState::AwaitingHandshakeAck => true,
            _ => {
                let events: Vec<ReaderEvent> = Vec::new();
                assert(events_model(events@) =~= Seq::<EventModel>::empty());
                return Receipt { handshake: None, events };
            },
        };
        let frames = self.buffer.push(chunk);
        let ghost fv = texts(frames@);
        let mut handshake: Option<Result<(), ConnectError>> = None;
        let mut start: usize = 0;
        if awaiting {
            if frames.len() == 0 {
                let events: Vec<ReaderEvent> = Vec::new();
                assert(events_model(events@) =~= Seq::<EventModel>::empty());
                return Receipt { handshake: None, events };
            }
            match read_handshake_response(frames[0].as_str()) {
                Ok(()) => {
                    self.state = HandshakeState::Ready;
                    handshake = Some(Ok(()));
                    start = 1;
                },
                Err(e) => {
                    self.state = HandshakeState::Failed(e.duplicate());
                    let events: Vec<ReaderEvent> = Vec::new();
                    assert(events_model(events@) =~= Seq::<EventModel>::empty());
                    return Receipt { handshake: Some(Err(e)), events };
                },
            }
        }
        let ghost p0 = self.pending@;
        let ghost targets = self.targets();
        let mut events: Vec<ReaderEvent> = Vec::new();
        let mut i: usize = start;
        assert(fv.subrange(start as int, start as int) == Seq::<Seq<char>>::empty());
        while i < frames.len()
            invariant
                self.wf(),
                self.same_setup(old(self)),
                self.state() == StateModel::Ready,
                self.buffered() == split_records(old(self).buffered() + chunk@).1,
                fv == texts(frames@),
                targets == self.targets(),
                start <= i <= frames@.len(),
                events_model(events@) == frames_effect(p0, targets, fv.subrange(start as int, i as int)).0,
                self.pending@ == frames_effect(p0, targets, fv.subrange(start as int, i as int)).1,
            decreases frames.len() - i,
        {
            assert(fv.subrange(start as int, i + 1).drop_last() == fv.subrange(start as int, i as int));
            let ghost before = events@;
            let ev = self.handle_frame(frames[i].as_str());
            events.push(ev);
            assert(events@ == before.push(ev));
            assert(events_model(events@) == events_model(before).push(ev.model()));
            i = i + 1;
        }
        if start == 1 {
            assert(fv.subrange(1, fv.len() as int) == fv.drop_first());
        } else {
            assert(fv.subrange(0, fv.len() as int) == fv);
        }
        Receipt { handshake, events }
    }
}

/// No two numbers are written alike in decimal.
pub proof fn lemma_decimal_injective(a: nat, b: nat)
    requires
        decimal(a) == decimal(b),
    ensures
        a == b,
    decreases a,
{
    reveal_strlit("0123456789");
    let digits = "0123456789"@;
    assert(forall|i: int, j: int| 0 <= i < 10 && 0 <= j < 10 && i != j ==> digits[i] != digits[j]);
    lemma_decimal_len(a);
    lemma_decimal_len(b);
    if a < 10 && b < 10 {
        assert(decimal(a)[0] == digits[a as int]);
        assert(decimal(b)[0] == digits[b as int]);
    } else if a >= 10 && b >= 10 {
        let da = decimal(a);
        let db = decimal(b);
        assert(da.last() == digits[(a % 10) as int]);
        assert(db.last() == digits[(b % 10) as int]);
        assert(a % 10 == b % 10);
        assert(da.drop_last() == decimal(a / 10));
        assert(db.drop_last() == decimal(b / 10));
        lemma_decimal_injective(a / 10, b / 10);
        assert(a == (a / 10) * 10 + a % 10);
        assert(b == (b / 10) * 10 + b % 10);
    }
}

/// A number has one decimal digit exactly when it is below ten.
pub proof fn lemma_decimal_len(n: nat)
    ensures
        decimal(n).len() >= 1,
        (decimal(n).len() == 1) == (n < 10),
    decreases n,
{
    if n >= 10 {
        lemma_decimal_len(n / 10);
    }
}

/// Where no pending ID is written `id_text`, nothing is found.
pub proof fn lemma_pending_index_none(pending: Seq<u64>, id_text: Seq<char>)
    requires
        forall|i: int| 0 <= i < pending.len() ==> decimal(#[trigger] pending[i] as nat) != id_text,
    ensures
        pending_index(pending, id_text) is None,
{
    lemma_pending_index_bounds(pending, id_text);
}

/// The ID that `send_invocation` issues is above every pending one, and the table
/// stays in issue order with it: IDs increase and never repeat.
pub proof fn lemma_issued_id_is_fresh(pending: Seq<u64>, last: u64)
    requires
        issued_in_order(pending, last),
        last < u64::MAX,
    ensures
        forall|i: int| 0 <= i < pending.len() ==> pending[i] < last + 1,
        issued_in_order(pending.push((last + 1) as u64), (last + 1) as u64),
{
}

/// An invocation just issued, answered by a completion frame that bears its
/// ID, is resolved by that frame: with the frame's result, or with its error
/// where it carries one, and leaves the table.
pub proof fn lemma_completion_resolves_invocation(
    pending: Seq<u64>,
    last: u64,
    targets: Seq<Seq<char>>,
    frame: Seq<char>,
    result: Option<Seq<char>>,
    error: Option<Seq<char>>,
)
    requires
        issued_in_order(pending, last),
        last < u64::MAX,
        decode_spec(frame) == Ok::<MessageModel, ProtocolError>(
            MessageModel::Completion {
                invocation_id: decimal((last + 1) as nat),
                result,
                error,
            },
        ),
    ensures
        frame_effect(pending.push((last + 1) as u64), targets, frame) == (
            EventModel::Completed { invocation_id: (last + 1) as u64, outcome: outcome_of(result, error) },
            pending,
        ),
        error is None ==> outcome_of(result, error) == OutcomeModel::Returned(result),
        error is Some ==> outcome_of(result, error) == OutcomeModel::ServerError(error->0),
{
    let id = (last + 1) as u64;
    let p = pending.push(id);
    assert forall|i: int| 0 <= i < pending.len() implies decimal(#[trigger] pending[i] as nat)
        != decimal(id as nat) by {
        if decimal(pending[i] as nat) == decimal(id as nat) {
            lemma_decimal_injective(pending[i] as nat, id as nat);
        }
    }
    lemma_pending_index_none(pending, decimal(id as nat));
    assert(p.drop_last() == pending);
    assert(p.remove(pending.len() as int) == pending);
}

/// A completion frame whose ID was never issued is reported and changes no
/// pending invocation.
pub proof fn lemma_unknown_completion_is_dropped(
    pending: Seq<u64>,
    last: u64,
    targets: Seq<Seq<char>>,
    frame: Seq<char>,
    id_text: Seq<char>,
    result: Option<Seq<char>>,
    error: Option<Seq<char>>,
)
    requires
        issued_in_order(pending, last),
        forall|k: nat| 1 <= k <= last ==> decimal(k) != id_text,
        decode_spec(frame) == Ok::<MessageModel, ProtocolError>(
            MessageModel::Completion { invocation_id: id_text, result, error },
        ),
    ensures
        frame_effect(pending, targets, frame) == (
            EventModel::UnknownInvocation { invocation_id: id_text },
            pending,
        ),
{
    assert forall|i: int| 0 <= i < pending.len() implies decimal(#[trigger] pending[i] as nat)
        != id_text by {
        let k = pending[i] as nat;
        assert(1 <= k <= last);
    }
    lemma_pending_index_none(pending, id_text);
}

/// A server invocation of a target with no handler is reported as unhandled
/// and changes no pending invocation.
pub proof fn lemma_unhandled_invocation_is_dropped(
    pending: Seq<u64>,
    targets: Seq<Seq<char>>,
    frame: Seq<char>,
    invocation_id: Option<Seq<char>>,
    target: Seq<char>,
    arguments: Seq<Seq<char>>,
)
    requires
        !targets.contains(target),
        decode_spec(frame) == Ok::<MessageModel, ProtocolError>(
            MessageModel::Invocation { invocation_id, target, arguments },
        ),
    ensures
        frame_effect(pending, targets, frame) == (EventModel::Unhandled { target }, pending),
{
    crate::dispatch::lemma_target_index_bounds(targets, target);
}

/// Once a connection is closed, no invocation can start: every later
/// `send_invocation` fails with `ConnectionClosed` and leaves the table
/// empty, as `close` left it.
pub proof fn lemma_no_invocation_after_close<H>(
    before: SignalRConnection<H>,
    after: SignalRConnection<H>,
    target: Seq<char>,
    arguments: Seq<Seq<char>>,
    r: Result<Invocation, InvokeError>,
)
    requires
        before.state() == StateModel::Closed,
        before.pending() == Seq::<u64>::empty(),
        SignalRConnection::<H>::invoke_effect(before, after, target, arguments, r),
    ensures
        r == Err::<Invocation, InvokeError>(InvokeError::ConnectionClosed),
        after.pending() == Seq::<u64>::empty(),
        after.state() == StateModel::Closed,
{
}

} // verus!
