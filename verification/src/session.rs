//! The life of one client's session: the handshake that opens it, the two
//! loops that serve it, and its end.
//!
//! A session is served by a listener, which reads what the client sends,
//! and a sender, which writes what the client is to receive. Each is given
//! here as a function from the phase of the loop and the event that has
//! happened to the next phase and the action to take; whoever runs the loop
//! waits for events and carries the actions out.
use vstd::prelude::*;
use crate::canvas::is_sync_answer;
use crate::dash::CanvasModel;
use crate::ident::{server_uuid, uuid_text};
use crate::message::{roster_model, Message, MessageModel, MessageType, PayloadModel};
use crate::server::{PeerAddress, ServerState};

verus! {

/// Whether a loop of a session still runs.
#[derive(Clone, Copy, Debug, PartialEq, Eq, Structural)]
pub enum Phase {
    Running,
    Stopped,
}

/// Why a loop of a session stops.
#[derive(Clone, Copy, Debug, PartialEq, Eq, Structural)]
pub enum Termination {
    /// The other loop of the session has raised the shared signal.
    Cancelled,
    /// The stream to the client failed or ended.
    ConnectionLost,
    /// The client sent a frame that is too long or that is no message.
    Malformed,
    /// The client sent a message that only the server may send, or the
    /// session was handed a message that does not belong to it.
    ProtocolViolation,
    /// A queue that the loop needs is closed.
    ChannelClosed,
}

impl Termination {
    /// Whether the loop that stops has to raise the shared signal, so that
    /// the other loop of the session stops too: always, unless the signal
    /// is what stopped it.
    pub fn raises_signal(self) -> (yes: bool)
        ensures
            yes == (self != Termination::Cancelled),
    {
        match self {
            Termination::Cancelled => false,
            _ => true,
        }
    }
}

/// What can happen to a listener.
#[derive(Clone, Debug, PartialEq, Eq)]
pub enum ListenerEvent {
    /// A frame arrived and holds this message.
    Received(Message),
    /// A frame arrived that is too long or that holds no message.
    Undecodable,
    /// The stream from the client failed or ended.
    StreamClosed,
    /// The action taken last could not be carried out.
    DeliveryFailed,
    /// The shared signal was raised.
    Cancelled,
}

/// What a listener does next.
#[derive(Clone, Debug, PartialEq, Eq)]
pub enum ListenerAction {
    /// Publish the message to every session.
    Broadcast(Message),
    /// Hand the message to the canvas writer, then publish it to every
    /// session.
    StoreAndBroadcast(Message),
    /// Hand the message to the sender of this session alone.
    Private(MessageType),
    /// Stop.
    Halt(Termination),
    /// Nothing: the loop has stopped before.
    Nothing,
}

/// What can happen to a sender.
#[derive(Clone, Debug, PartialEq, Eq)]
pub enum SenderEvent {
    /// A message was published to every session.
    Broadcast(Message),
    /// Published messages were lost because this sender fell behind.
    Lagged,
    /// Nothing can be published any more.
    FabricClosed,
    /// The listener of this session handed over a message.
    Exclusive(MessageType),
    /// The listener of this session is gone.
    ExclusiveClosed,
    /// The keep-alive interval has passed without anything to write.
    Idle,
    /// The frame written last did not reach the client.
    WriteFailed,
    /// The shared signal was raised.
    Cancelled,
}

/// What a sender does next.
#[derive(Clone, Debug, PartialEq, Eq)]
pub enum SenderAction {
    /// Write the message to the client.
    Write(Message),
    /// Stop.
    Halt(Termination),
    /// Nothing.
    Nothing,
}

/// What a running listener does with a message of a client.
pub open spec fn dispatch(message: Message) -> (Phase, ListenerAction) {
    if !message.msg_type@.is_well_formed() {
        (Phase::Stopped, ListenerAction::Halt(Termination::Malformed))
    } else {
        dispatch_well_formed(message)
    }
}

/// What a running listener does with a message that can be read off the
/// wire.
pub open spec fn dispatch_well_formed(message: Message) -> (Phase, ListenerAction) {
    match message.msg_type {
        MessageType::ClientList(_)
        | MessageType::CursorPosition(_)
        | MessageType::Connecting(_)
        | MessageType::Disconnecting => (Phase::Running, ListenerAction::Broadcast(message)),
        MessageType::AddLine(_, _) | MessageType::ModifyLine(_, _) => (
            Phase::Running,
            ListenerAction::StoreAndBroadcast(message),
        ),
        MessageType::KeepAlive => (Phase::Running, ListenerAction::Private(MessageType::KeepAlive)),
        MessageType::RequestSyncLine(_) => (
            Phase::Running,
            ListenerAction::Private(message.msg_type),
        ),
        MessageType::SyncLine(_) => (
            Phase::Stopped,
            ListenerAction::Halt(Termination::ProtocolViolation),
        ),
    }
}

/// The next phase and the action of a listener.
pub open spec fn listener_step(phase: Phase, event: ListenerEvent) -> (Phase, ListenerAction) {
    match phase {
        Phase::Stopped => (Phase::Stopped, ListenerAction::Nothing),
        Phase::Running => match event {
            ListenerEvent::Received(message) => dispatch(message),
            ListenerEvent::Undecodable => (
                Phase::Stopped,
                ListenerAction::Halt(Termination::Malformed),
            ),
            ListenerEvent::StreamClosed => (
                Phase::Stopped,
                ListenerAction::Halt(Termination::ConnectionLost),
            ),
            ListenerEvent::DeliveryFailed => (
                Phase::Stopped,
                ListenerAction::Halt(Termination::ChannelClosed),
            ),
            ListenerEvent::Cancelled => (
                Phase::Stopped,
                ListenerAction::Halt(Termination::Cancelled),
            ),
        },
    }
}

/// The message with which the server keeps a connection alive.
pub open spec fn keep_alive() -> Message {
    Message { uuid: 0, msg_type: MessageType::KeepAlive }
}

/// Whether `(next, action)` is a step of a sender over the canvas `canvas`.
///
/// A published message is written as it is, to every session, the one of
/// its author included. A sender that fell behind carries on. A request
/// for synchronisation is answered from the canvas, under the identifier
/// of the server. A stopped sender writes nothing.
pub open spec fn is_sender_step(
    canvas: CanvasModel,
    phase: Phase,
    event: SenderEvent,
    next: Phase,
    action: SenderAction,
) -> bool {
    match phase {
        Phase::Stopped => next == Phase::Stopped && action == SenderAction::Nothing,
        Phase::Running => match event {
            SenderEvent::Broadcast(message) => next == Phase::Running && action
                == SenderAction::Write(message),
            SenderEvent::Lagged => next == Phase::Running && action == SenderAction::Nothing,
            SenderEvent::FabricClosed => next == Phase::Stopped && action == SenderAction::Halt(
                Termination::ChannelClosed,
            ),
            SenderEvent::Exclusive(MessageType::KeepAlive) => next == Phase::Running && action
                == SenderAction::Write(keep_alive()),
            SenderEvent::Exclusive(MessageType::RequestSyncLine(selector)) => {
                &&& next == Phase::Running
                &&& action matches SenderAction::Write(reply)
                &&& reply.uuid == 0
                &&& reply.msg_type matches MessageType::SyncLine(answer)
                &&& is_sync_answer(
                    canvas,
                    match selector {
                        Some(points) => Some(points@),
                        None => None,
                    },
                    answer@,
                )
            },
            SenderEvent::Exclusive(_) => next == Phase::Stopped && action == SenderAction::Halt(
                Termination::ProtocolViolation,
            ),
            SenderEvent::ExclusiveClosed => next == Phase::Stopped && action == SenderAction::Halt(
                Termination::ChannelClosed,
            ),
            SenderEvent::Idle => next == Phase::Running && action == SenderAction::Write(
                keep_alive(),
            ),
            SenderEvent::WriteFailed => next == Phase::Stopped && action == SenderAction::Halt(
                Termination::ConnectionLost,
            ),
            SenderEvent::Cancelled => next == Phase::Stopped && action == SenderAction::Halt(
                Termination::Cancelled,
            ),
        },
    }
}

/// One step of the listener of a session.
///
/// Messages about who is there and where the pointers are go to every
/// session. Line messages go to the canvas writer and to every session. A
/// keep-alive is echoed, and a request for synchronisation is answered, to
/// this client alone. An answer to such a request can only come from the
/// server: a client that sends one is cut off, as is one whose frames
/// cannot be read or whose lines hold something that is no number.
pub fn listen_for_message(phase: Phase, event: ListenerEvent) -> (step: (Phase, ListenerAction))
    ensures
        step == listener_step(phase, event),
{
    match phase {
        Phase::Stopped => (Phase::Stopped, ListenerAction::Nothing),
        Phase::Running => match event {
            ListenerEvent::Received(message) => dispatch_message(message),
            ListenerEvent::Undecodable => (
                Phase::Stopped,
                ListenerAction::Halt(Termination::Malformed),
            ),
            ListenerEvent::StreamClosed => (
                Phase::Stopped,
                ListenerAction::Halt(Termination::ConnectionLost),
            ),
            ListenerEvent::DeliveryFailed => (
                Phase::Stopped,
                ListenerAction::Halt(Termination::ChannelClosed),
            ),
            ListenerEvent::Cancelled => (
                Phase::Stopped,
                ListenerAction::Halt(Termination::Cancelled),
            ),
        },
    }
}

/// What a running listener does with a message of a client.
fn dispatch_message(message: Message) -> (step: (Phase, ListenerAction))
    ensures
        step == dispatch(message),
{
    if !message.msg_type.check() {
        return (Phase::Stopped, ListenerAction::Halt(Termination::Malformed));
    }
    match message.msg_type {
        MessageType::ClientList(_)
        | MessageType::CursorPosition(_)
        | MessageType::Connecting(_)
        | MessageType::Disconnecting => (Phase::Running, ListenerAction::Broadcast(message)),
        MessageType::AddLine(_, _) | MessageType::ModifyLine(_, _) => (
            Phase::Running,
            ListenerAction::StoreAndBroadcast(message),
        ),
        MessageType::KeepAlive => (Phase::Running, ListenerAction::Private(MessageType::KeepAlive)),
        MessageType::RequestSyncLine(_) => (
            Phase::Running,
            ListenerAction::Private(message.msg_type),
        ),
        MessageType::SyncLine(_) => (
            Phase::Stopped,
            ListenerAction::Halt(Termination::ProtocolViolation),
        ),
    }
}

/// One step of the sender of a session, over the state of the server.
pub fn relay_message(state: &ServerState, phase: Phase, event: SenderEvent) -> (step: (
    Phase,
    SenderAction,
))
    requires
        state.wf(),
    ensures
        is_sender_step(state.lines(), phase, event, step.0, step.1),
{
    match phase {
        Phase::Stopped => (Phase::Stopped, SenderAction::Nothing),
        Phase::Running => match event {
            SenderEvent::Broadcast(message) => (Phase::Running, SenderAction::Write(message)),
            SenderEvent::Lagged => (Phase::Running, SenderAction::Nothing),
            SenderEvent::FabricClosed => (
                Phase::Stopped,
                SenderAction::Halt(Termination::ChannelClosed),
            ),
            SenderEvent::Exclusive(MessageType::KeepAlive) => (
                Phase::Running,
                SenderAction::Write(Message::new(server_uuid(), MessageType::KeepAlive)),
            ),
            SenderEvent::Exclusive(MessageType::RequestSyncLine(selector)) => {
                let answer = state.sync(&selector);
                (
                    Phase::Running,
                    SenderAction::Write(
                        Message::new(server_uuid(), MessageType::SyncLine(answer)),
                    ),
                )
            },
            SenderEvent::Exclusive(_) => (
                Phase::Stopped,
                SenderAction::Halt(Termination::ProtocolViolation),
            ),
            SenderEvent::ExclusiveClosed => (
                Phase::Stopped,
                SenderAction::Halt(Termination::ChannelClosed),
            ),
            SenderEvent::Idle => (
                Phase::Running,
                SenderAction::Write(Message::new(server_uuid(), MessageType::KeepAlive)),
            ),
            SenderEvent::WriteFailed => (
                Phase::Stopped,
                SenderAction::Halt(Termination::ConnectionLost),
            ),
            SenderEvent::Cancelled => (
                Phase::Stopped,
                SenderAction::Halt(Termination::Cancelled),
            ),
        },
    }
}

/// A message that one client publishes is written once by the sender of
/// every running session, whoever its author is.
pub proof fn lemma_broadcast_reaches_every_session(
    canvas: CanvasModel,
    message: Message,
    next: Phase,
    action: SenderAction,
)
    requires
        is_sender_step(canvas, Phase::Running, SenderEvent::Broadcast(message), next, action),
    ensures
        next == Phase::Running,
        action == SenderAction::Write(message),
{
}

/// The phase a listener ends in and the actions it takes over a run of
/// events, the first event first.
pub open spec fn listener_run(phase: Phase, events: Seq<ListenerEvent>) -> (
    Phase,
    Seq<ListenerAction>,
)
    decreases events.len(),
{
    if events.len() == 0 {
        (phase, Seq::empty())
    } else {
        let (before, actions) = listener_run(phase, events.drop_last());
        let (after, action) = listener_step(before, events.last());
        (after, actions.push(action))
    }
}

/// Whether a message is one that a listener only publishes: it says who is
/// there or where a pointer is.
pub open spec fn is_presence(message: Message) -> bool {
    message.msg_type is ClientList || message.msg_type is CursorPosition || message.msg_type
        is Connecting || message.msg_type is Disconnecting
}

/// A listener publishes the messages of its client in the order in which
/// they arrive, each once.
pub proof fn lemma_published_in_arrival_order(messages: Seq<Message>)
    requires
        forall|i: int| 0 <= i < messages.len() ==> is_presence(#[trigger] messages[i]),
    ensures
        listener_run(
            Phase::Running,
            Seq::new(messages.len(), |i: int| ListenerEvent::Received(messages[i])),
        ) == (
            Phase::Running,
            Seq::new(messages.len(), |i: int| ListenerAction::Broadcast(messages[i])),
        ),
    decreases messages.len(),
{
    let events = Seq::new(messages.len(), |i: int| ListenerEvent::Received(messages[i]));
    let actions = Seq::new(messages.len(), |i: int| ListenerAction::Broadcast(messages[i]));
    if messages.len() > 0 {
        let earlier = messages.drop_last();
        assert forall|i: int| 0 <= i < earlier.len() implies is_presence(#[trigger] earlier[i]) by {
            assert(earlier[i] == messages[i]);
        }
        lemma_published_in_arrival_order(earlier);
        assert(events.drop_last() =~= Seq::new(
            earlier.len(),
            |i: int| ListenerEvent::Received(earlier[i]),
        ));
        assert(events.last() == ListenerEvent::Received(messages.last()));
        assert(is_presence(messages[messages.len() - 1]));
        assert(actions =~= Seq::new(
            earlier.len(),
            |i: int| ListenerAction::Broadcast(earlier[i]),
        ).push(ListenerAction::Broadcast(messages.last())));
    } else {
        assert(actions =~= Seq::<ListenerAction>::empty());
    }
}

/// Whether `phases` and `actions` are what a sender goes through and does
/// over the run of `events`, when `canvases` are the states of the canvas at
/// each of them.
pub open spec fn is_sender_run(
    canvases: Seq<CanvasModel>,
    phases: Seq<Phase>,
    events: Seq<SenderEvent>,
    actions: Seq<SenderAction>,
) -> bool {
    &&& canvases.len() == events.len()
    &&& actions.len() == events.len()
    &&& phases.len() == events.len() + 1
    &&& forall|i: int|
        0 <= i < events.len() ==> is_sender_step(
            canvases[i],
            phases[i],
            #[trigger] events[i],
            phases[i + 1],
            actions[i],
        )
}

/// After a sender has stopped nothing is written to its stream, whatever
/// is published or handed to it afterwards.
pub proof fn lemma_nothing_is_written_after_stop(
    canvases: Seq<CanvasModel>,
    phases: Seq<Phase>,
    events: Seq<SenderEvent>,
    actions: Seq<SenderAction>,
    stopped: int,
    later: int,
)
    requires
        is_sender_run(canvases, phases, events, actions),
        0 <= stopped <= later < events.len(),
        phases[stopped] == Phase::Stopped,
    ensures
        actions[later] == SenderAction::Nothing,
        phases[later + 1] == Phase::Stopped,
    decreases later - stopped,
{
    if stopped < later {
        lemma_nothing_is_written_after_stop(canvases, phases, events, actions, stopped, later - 1);
    }
    assert(is_sender_step(
        canvases[later],
        phases[later],
        events[later],
        phases[later + 1],
        actions[later],
    ));
}

/// A running sender writes what is published in the order in which it is
/// published, each message once, and keeps running.
pub proof fn lemma_written_in_publish_order(
    canvases: Seq<CanvasModel>,
    phases: Seq<Phase>,
    messages: Seq<Message>,
    actions: Seq<SenderAction>,
    i: int,
)
    requires
        is_sender_run(
            canvases,
            phases,
            Seq::new(messages.len(), |k: int| SenderEvent::Broadcast(messages[k])),
            actions,
        ),
        phases[0] == Phase::Running,
        0 <= i < messages.len(),
    ensures
        phases[i + 1] == Phase::Running,
        actions[i] == SenderAction::Write(messages[i]),
    decreases i,
{
    let events = Seq::new(messages.len(), |k: int| SenderEvent::Broadcast(messages[k]));
    if i > 0 {
        lemma_written_in_publish_order(canvases, phases, messages, actions, i - 1);
    }
    assert(is_sender_step(canvases[i], phases[i], events[i], phases[i + 1], actions[i]));
}

/// Once a loop of a session has stopped it stays stopped, and nothing is
/// published or written on its account any more.
pub proof fn lemma_stopped_session_is_silent(
    canvas: CanvasModel,
    heard: ListenerEvent,
    relayed: SenderEvent,
    next: Phase,
    action: SenderAction,
)
    requires
        is_sender_step(canvas, Phase::Stopped, relayed, next, action),
    ensures
        listener_step(Phase::Stopped, heard) == (Phase::Stopped, ListenerAction::Nothing),
        next == Phase::Stopped,
        action == SenderAction::Nothing,
{
}

/// The clients that have joined, in the order in which they joined.
pub struct Roster {
    entries: Vec<(String, u128)>,
}

impl View for Roster {
    type V = Seq<(Seq<char>, u128)>;

    closed spec fn view(&self) -> Seq<(Seq<char>, u128)> {
        roster_model(self.entries@)
    }
}

/// How a handshake ended.
#[derive(Clone, Debug, PartialEq, Eq)]
pub enum Handshake {
    /// The client has joined; the message is for the client alone.
    Accepted(Message),
    /// The client is turned away.
    Refused(Termination),
}

impl Roster {
    /// A roster without entries.
    pub fn new() -> (roster: Roster)
        ensures
            roster@ == Seq::<(Seq<char>, u128)>::empty(),
    {
        let roster = Roster { entries: Vec::new() };
        assert(roster@ =~= Seq::<(Seq<char>, u128)>::empty());
        roster
    }

    /// The entries of the roster.
    pub fn entries(&self) -> (copy: Vec<(String, u128)>)
        ensures
            roster_model(copy@) == self@,
    {
        let mut copy: Vec<(String, u128)> = Vec::new();
        let mut i: usize = 0;
        while i < self.entries.len()
            invariant
                0 <= i <= self.entries.len(),
                copy@.len() == i,
                forall|j: int|
                    0 <= j < i ==> (#[trigger] copy@[j]).0@ == self.entries@[j].0@ && copy@[j].1
                        == self.entries@[j].1,
            decreases self.entries.len() - i,
        {
            let name = self.entries[i].0.clone();
            copy.push((name, self.entries[i].1));
            i += 1;
        }
        assert(roster_model(copy@) =~= self@);
        copy
    }

    /// The handshake of a client that connects from `address`, whose first
    /// frame has arrived. `first` is the message of that frame, if the frame
    /// holds one.
    ///
    /// A client joins by giving its name. It is entered into the roster and
    /// into the registry, and is answered with the roster as it then stands,
    /// itself last. Any other first message turns the client away and
    /// changes nothing. A first frame that is too long or that holds no
    /// message turns the client away and clears whatever the registry held
    /// for its address. Where no frame arrives at all there is no
    /// handshake, and nothing changes.
    pub fn join(
        &mut self,
        state: &mut ServerState,
        address: PeerAddress,
        first: Option<Message>,
    ) -> (outcome: Handshake)
        ensures
            final(state).lines() == old(state).lines(),
            match first {
                Some(Message { uuid, msg_type: MessageType::Connecting(name) }) => {
                    &&& final(self)@ == old(self)@.push((name@, uuid))
                    &&& final(state).sessions() == old(state).sessions().insert(
                        address,
                        uuid_text(uuid),
                    )
                    &&& outcome matches Handshake::Accepted(reply)
                    &&& reply@ == MessageModel {
                        uuid,
                        payload: PayloadModel::ClientList(final(self)@),
                    }
                },
                Some(_) => {
                    &&& final(self)@ == old(self)@
                    &&& final(state).sessions() == old(state).sessions()
                    &&& outcome == Handshake::Refused(Termination::ProtocolViolation)
                },
                None => {
                    &&& final(self)@ == old(self)@
                    &&& final(state).sessions() == old(state).sessions().remove(address)
                    &&& outcome == Handshake::Refused(Termination::Malformed)
                },
            },
    {
        match first {
            Some(Message { uuid, msg_type: MessageType::Connecting(name) }) => {
                self.entries.push((name, uuid));
                assert(self@ =~= old(self)@.push((name@, uuid)));
                let reply = Message::new(uuid, MessageType::ClientList(self.entries()));
                state.register(address, uuid);
                Handshake::Accepted(reply)
            },
            Some(_) => Handshake::Refused(Termination::ProtocolViolation),
            None => {
                let _ = state.unregister(address);
                Handshake::Refused(Termination::Malformed)
            },
        }
    }
}

/// The registry after a loop of the session at `address` has stopped for
/// the reason `why`: the record is taken out, unless the loop only followed
/// the signal.
pub open spec fn sessions_after_end(
    sessions: Map<PeerAddress, Seq<char>>,
    address: PeerAddress,
    why: Termination,
) -> Map<PeerAddress, Seq<char>> {
    if why == Termination::Cancelled {
        sessions
    } else {
        sessions.remove(address)
    }
}

impl ServerState {
    /// The end of the session at `address`, when one of its loops stops for
    /// the reason `why`.
    ///
    /// A loop that stops of its own takes the record of the session out of
    /// the registry, and the result tells it to raise the shared signal so
    /// that the other loop stops too. A loop that stops because the signal
    /// was raised leaves the registry as it is: the loop that raised the
    /// signal has taken the record out, and what the registry holds for the
    /// address by now may belong to a client that came after.
    pub fn end_session(&mut self, address: PeerAddress, why: Termination) -> (raise_signal: bool)
        ensures
            final(self).sessions() == sessions_after_end(old(self).sessions(), address, why),
            final(self).lines() == old(self).lines(),
            raise_signal == (why != Termination::Cancelled),
    {
        let raise_signal = why.raises_signal();
        if raise_signal {
            let _ = self.unregister(address);
        }
        raise_signal
    }
}

/// The record of a session is taken out by the loop that stops first and
/// by no other: when a client registers from the same address before the
/// second loop has followed the signal, its record is still there after
/// that loop has ended.
pub proof fn lemma_newcomer_survives_the_signal(
    sessions: Map<PeerAddress, Seq<char>>,
    address: PeerAddress,
    why: Termination,
    newcomer: Seq<char>,
)
    requires
        why != Termination::Cancelled,
    ensures
        ({
            let first = sessions_after_end(sessions, address, why);
            let registered = first.insert(address, newcomer);
            let second = sessions_after_end(registered, address, Termination::Cancelled);
            &&& !first.contains_key(address)
            &&& second == registered
            &&& second.contains_pair(address, newcomer)
        }),
{
}

/// The record of a session leaves the registry once: after it is gone, a
/// second removal finds nothing and changes nothing.
pub proof fn lemma_session_is_removed_once(sessions: Map<PeerAddress, Seq<char>>, address: PeerAddress)
    ensures
        !sessions.remove(address).contains_key(address),
        sessions.remove(address).remove(address) == sessions.remove(address),
{
    assert(sessions.remove(address).remove(address) =~= sessions.remove(address));
}

} // verus!
