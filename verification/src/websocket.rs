//! The WebSocket protocol of the presentation server: what each socket event puts on the
//! event queue, and the session that registers, forwards slide updates and unregisters.
use heapless::spsc::{Consumer, Producer};
use vstd::prelude::*;

use crate::config::{CONNECTION_TIMEOUT_MS, MESSAGE_POLL_INTERVAL_MS, POLL_INTERVAL_MS, REGISTER_MESSAGE};
use crate::state::{AppStateDiff, DiffModel, StateMode};

verus! {

/// The producing end of the event queue.
#[verifier::external_type_specification]
#[verifier::external_body]
#[verifier::reject_recursive_types(T)]
pub struct ExProducer<'a, T>(Producer<'a, T>);

/// The consuming end of the event queue.
#[verifier::external_type_specification]
#[verifier::external_body]
#[verifier::reject_recursive_types(T)]
pub struct ExConsumer<'a, T>(Consumer<'a, T>);

/// The id the server assigned this connection.
#[derive(Debug, Clone, Copy, PartialEq, Eq, Structural)]
pub struct ClientId {
    pub idx: u32,
    pub version: u32,
}

/// A message handed from the socket's event handler to the session.
#[derive(Debug)]
pub enum WsMessage {
    Connected,
    Registered { client_id: ClientId, role: Option<String> },
    State { current: usize, current_step: usize, mode: StateMode },
    Blink,
    /// The deck was rebuilt, so the talk data is stale.
    TalkChanged,
    Error { message: String },
    Closed,
}

/// The mathematical model of a [`WsMessage`].
pub enum WsModel {
    Connected,
    Registered { client_id: ClientId, role: Option<Seq<char>> },
    State { current: usize, current_step: usize, mode: StateMode },
    Blink,
    TalkChanged,
    Error { message: Seq<char> },
    Closed,
}

/// The view of an optional string.
pub open spec fn opt_view(s: Option<String>) -> Option<Seq<char>> {
    match s {
        Some(s) => Some(s@),
        None => None,
    }
}

impl View for WsMessage {
    type V = WsModel;

    open spec fn view(&self) -> WsModel {
        match self {
            WsMessage::Connected => WsModel::Connected,
            WsMessage::Registered { client_id, role } => WsModel::Registered {
                client_id: *client_id,
                role: opt_view(*role),
            },
            WsMessage::State { current, current_step, mode } => WsModel::State {
                current: *current,
                current_step: *current_step,
                mode: *mode,
            },
            WsMessage::Blink => WsModel::Blink,
            WsMessage::TalkChanged => WsModel::TalkChanged,
            WsMessage::Error { message } => WsModel::Error { message: message@ },
            WsMessage::Closed => WsModel::Closed,
        }
    }
}

/// The models of a sequence of messages.
pub open spec fn message_views(v: Seq<WsMessage>) -> Seq<WsModel> {
    v.map_values(|m: WsMessage| m@)
}

/// The presentation state the server reports.
#[derive(Debug, Clone, Copy, PartialEq, Eq, Structural)]
pub enum InnerState {
    Init,
    Running { current: usize, current_step: usize },
    Done { current: usize, current_step: usize },
}

/// A text frame of the server, as parsed.
#[derive(Debug)]
pub enum ServerMessage {
    Registered { client_id: ClientId, role: Option<String> },
    Blink,
    State { state: InnerState },
    TalkChange { state: InnerState },
    Error { message: String },
}

/// What the socket reports to its event handler.
#[derive(Debug)]
pub enum WsEvent {
    /// The connection failed.
    Failure,
    BeforeConnect,
    Connected,
    Disconnected,
    Close,
    Closed,
    /// A text frame: the server message it holds, or `None` when it holds none.
    Text { message: Option<ServerMessage> },
    Binary,
    Ping,
    Pong,
}

/// The slide update a server state describes, or none before the deck has started.
pub open spec fn slide_update_spec(state: InnerState) -> Option<WsModel> {
    match state {
        InnerState::Init => None,
        InnerState::Running { current, current_step } => Some(
            WsModel::State { current, current_step, mode: StateMode::Running },
        ),
        InnerState::Done { current, current_step } => Some(
            WsModel::State { current, current_step, mode: StateMode::Done },
        ),
    }
}

/// The model of an optional message.
pub open spec fn opt_message_view(m: Option<WsMessage>) -> Option<WsModel> {
    match m {
        Some(m) => Some(m@),
        None => None,
    }
}

/// The slide update a server state describes, or `None` before the deck has started: there is
/// no slide to show yet.
pub fn slide_update(state: InnerState) -> (msg: Option<WsMessage>)
    ensures
        opt_message_view(msg) == slide_update_spec(state),
{
    match state {
        InnerState::Init => None,
        InnerState::Running { current, current_step } => Some(
            WsMessage::State { current, current_step, mode: StateMode::Running },
        ),
        InnerState::Done { current, current_step } => Some(
            WsMessage::State { current, current_step, mode: StateMode::Done },
        ),
    }
}

/// The messages (none, one or two) as a sequence.
pub open spec fn opt_seq(m: Option<WsModel>) -> Seq<WsModel> {
    match m {
        Some(m) => seq![m],
        None => Seq::empty(),
    }
}

/// The messages an event puts on the queue, in order.
///
/// A rebuilt deck is announced ahead of its state, so that the talk is fetched again even
/// when the deck has not started and the state is dropped.
pub open spec fn event_messages_spec(event: WsEvent) -> Seq<WsModel> {
    match event {
        WsEvent::Connected => seq![WsModel::Connected],
        WsEvent::Disconnected | WsEvent::Close | WsEvent::Closed => seq![WsModel::Closed],
        WsEvent::Text { message: Some(message) } => match message {
            ServerMessage::Registered { client_id, role } => seq![
                WsModel::Registered { client_id, role: opt_view(role) },
            ],
            ServerMessage::Blink => seq![WsModel::Blink],
            ServerMessage::Error { message } => seq![WsModel::Error { message: message@ }],
            ServerMessage::State { state } => opt_seq(slide_update_spec(state)),
            ServerMessage::TalkChange { state } => seq![WsModel::TalkChanged] + opt_seq(
                slide_update_spec(state),
            ),
        },
        _ => Seq::empty(),
    }
}

/// The messages an event puts on the queue, in order.
pub fn event_messages(event: WsEvent) -> (msgs: Vec<WsMessage>)
    ensures
        message_views(msgs@) == event_messages_spec(event),
{
    let ghost spec_event = event;
    let mut msgs: Vec<WsMessage> = Vec::new();
    match event {
        WsEvent::Connected => msgs.push(WsMessage::Connected),
        WsEvent::Disconnected | WsEvent::Close | WsEvent::Closed => msgs.push(WsMessage::Closed),
        WsEvent::Text { message: Some(message) } => match message {
            ServerMessage::Registered { client_id, role } => msgs.push(
                WsMessage::Registered { client_id, role },
            ),
            ServerMessage::Blink => msgs.push(WsMessage::Blink),
            ServerMessage::Error { message } => msgs.push(WsMessage::Error { message }),
            ServerMessage::State { state } => {
                if let Some(msg) = slide_update(state) {
                    msgs.push(msg);
                }
            },
            ServerMessage::TalkChange { state } => {
                msgs.push(WsMessage::TalkChanged);
                if let Some(msg) = slide_update(state) {
                    msgs.push(msg);
                }
            },
        },
        _ => {},
    }
    assert(message_views(msgs@) =~= event_messages_spec(spec_event));
    msgs
}

/// The producing end of the event queue, with the record of every message offered to it.
pub struct EventQueue<'a> {
    producer: Producer<'a, WsMessage>,
    offered: Ghost<Seq<WsModel>>,
}

impl<'a> EventQueue<'a> {
    /// The messages offered to the queue so far, in order. A full queue drops what it is offered;
    /// the consumer, on another thread, takes the rest.
    pub closed spec fn offered(&self) -> Seq<WsModel> {
        self.offered@
    }

    /// The producing end `producer`, with nothing offered yet.
    pub fn new(producer: Producer<'a, WsMessage>) -> (queue: Self)
        ensures
            queue.offered() == Seq::<WsModel>::empty(),
    {
        EventQueue { producer, offered: Ghost(Seq::empty()) }
    }

    /// Offers `msg` to the queue.
    ///
    /// Calls `heapless::spsc::Producer::enqueue`, which hands the item back when the queue is
    /// full. The record of what was offered grows by `msg` either way; whether the queue took
    /// it depends on how far the consumer, on another thread, has drained it, and is not stated.
    #[verifier::external_body]
    fn offer(&mut self, msg: WsMessage)
        ensures
            final(self).offered() == old(self).offered().push(msg@),
    {
        let _ = self.producer.enqueue(msg);
    }
}

/// The consuming end of the event queue, with the record of every poll of it.
pub struct EventSource<'a> {
    consumer: Consumer<'a, WsMessage>,
    taken: Ghost<Seq<Option<WsModel>>>,
}

impl<'a> EventSource<'a> {
    /// What each poll of the queue gave so far, in order (`None`: the queue was empty).
    pub closed spec fn taken(&self) -> Seq<Option<WsModel>> {
        self.taken@
    }

    /// The consuming end `consumer`, not polled yet.
    pub fn new(consumer: Consumer<'a, WsMessage>) -> (source: Self)
        ensures
            source.taken() == Seq::<Option<WsModel>>::empty(),
    {
        EventSource { consumer, taken: Ghost(Seq::empty()) }
    }

    /// Takes the oldest message off the queue, or `None` when it is empty.
    ///
    /// Calls `heapless::spsc::Consumer::dequeue`. The producer fills the queue from another
    /// thread, so which message comes is not stated; the record of polls grows by what came.
    #[verifier::external_body]
    fn take(&mut self) -> (msg: Option<WsMessage>)
        ensures
            final(self).taken() == old(self).taken().push(opt_message_view(msg)),
    {
        self.consumer.dequeue()
    }
}

/// Offers the messages of `event` to the event queue, in order; a full queue drops them.
pub fn handle_event(queue: &mut EventQueue<'_>, event: WsEvent)
    ensures
        final(queue).offered() == old(queue).offered() + event_messages_spec(event),
{
    let ghost spec_event = event;
    let mut msgs = event_messages(event);
    let ghost start = queue.offered();
    while msgs.len() > 0
        invariant
            queue.offered() + message_views(msgs@) == start + event_messages_spec(spec_event),
        decreases msgs.len(),
    {
        let ghost before = msgs@;
        let msg = msgs.remove(0);
        proof {
            assert(before =~= seq![msg] + msgs@);
            assert(message_views(before) =~= seq![msg@] + message_views(msgs@));
        }
        let ghost offered_before = queue.offered();
        queue.offer(msg);
        assert(queue.offered() + message_views(msgs@) =~= offered_before + message_views(before));
    }
    assert(queue.offered() + message_views(msgs@) =~= queue.offered());
}

/// Why a WebSocket session ended in failure.
#[derive(Debug)]
pub enum WsError {
    /// The first event was not the connection.
    UnexpectedFirstEvent(WsMessage),
    /// No connection within the timeout.
    ConnectionTimeout,
    /// A second connection event arrived on an open session.
    UnexpectedConnected,
}

/// What the socket thread does next.
#[derive(Debug)]
pub enum WsStep {
    /// Wait this many milliseconds, then poll again.
    Wait { ms: u64 },
    /// Poll again at once.
    Continue,
    /// Send this text frame, then poll again.
    Send { frame: &'static str },
    /// Hand this diff to the main loop, then poll again.
    Forward(AppStateDiff),
    /// The connection closed: unregister this client, if it registered, and end the session.
    Close { client_id: Option<ClientId> },
    /// End the session with this error.
    Fail(WsError),
}

/// Whether the session still waits for the connection, and how many polls it has left.
#[derive(Debug, Clone, Copy, PartialEq, Eq, Structural)]
pub enum WsPhase {
    Connecting { polls_left: u64 },
    Open,
}

/// One WebSocket session: connection, registration, and message forwarding.
pub struct WsSession {
    phase: WsPhase,
    client_id: Option<ClientId>,
}

/// The polls of the event queue while the session waits for its connection.
pub open spec fn connect_polls() -> u64 {
    (CONNECTION_TIMEOUT_MS / POLL_INTERVAL_MS) as u64
}

/// The mathematical model of a [`WsStep`].
pub enum StepModel {
    Wait { ms: u64 },
    Continue,
    Send { frame: Seq<char> },
    Forward(DiffModel),
    Close { client_id: Option<ClientId> },
    UnexpectedFirstEvent(WsModel),
    ConnectionTimeout,
    UnexpectedConnected,
}

impl View for WsStep {
    type V = StepModel;

    open spec fn view(&self) -> StepModel {
        match self {
            WsStep::Wait { ms } => StepModel::Wait { ms: *ms },
            WsStep::Continue => StepModel::Continue,
            WsStep::Send { frame } => StepModel::Send { frame: frame@ },
            WsStep::Forward(diff) => StepModel::Forward(diff@),
            WsStep::Close { client_id } => StepModel::Close { client_id: *client_id },
            WsStep::Fail(WsError::UnexpectedFirstEvent(m)) => StepModel::UnexpectedFirstEvent(m@),
            WsStep::Fail(WsError::ConnectionTimeout) => StepModel::ConnectionTimeout,
            WsStep::Fail(WsError::UnexpectedConnected) => StepModel::UnexpectedConnected,
        }
    }
}

/// The phase, registered id and next step after the session sees `msg` (`None`: the queue was
/// empty).
///
/// A server error becomes the application's error state only before registration: once
/// registered, the server answers a refused command with an error and carries on, so the
/// session does too.
pub open spec fn session_step(phase: WsPhase, client_id: Option<ClientId>, msg: Option<WsModel>) -> (
    WsPhase,
    Option<ClientId>,
    StepModel,
) {
    match phase {
        WsPhase::Connecting { polls_left } => match msg {
            None => (
                WsPhase::Connecting { polls_left: (polls_left - 1) as u64 },
                client_id,
                StepModel::Wait { ms: POLL_INTERVAL_MS },
            ),
            Some(WsModel::Connected) => (
                WsPhase::Open,
                client_id,
                StepModel::Send { frame: REGISTER_MESSAGE@ },
            ),
            Some(other) => (phase, client_id, StepModel::UnexpectedFirstEvent(other)),
        },
        WsPhase::Open => match msg {
            None => (phase, client_id, StepModel::Wait { ms: MESSAGE_POLL_INTERVAL_MS }),
            Some(m) => match m {
                WsModel::Connected => (phase, client_id, StepModel::UnexpectedConnected),
                WsModel::Registered { client_id: id, .. } => (phase, Some(id), StepModel::Continue),
                WsModel::Closed => (phase, client_id, StepModel::Close { client_id }),
                WsModel::State { current, current_step, mode } => (
                    phase,
                    client_id,
                    StepModel::Forward(DiffModel::UpdateSlide { current, current_step, mode }),
                ),
                WsModel::Blink => (phase, client_id, StepModel::Forward(DiffModel::Blink)),
                WsModel::TalkChanged => (phase, client_id, StepModel::Forward(DiffModel::TalkReload)),
                WsModel::Error { message } => match client_id {
                    None => (phase, client_id, StepModel::Forward(DiffModel::Error { message })),
                    Some(_) => (phase, client_id, StepModel::Continue),
                },
            },
        },
    }
}

impl WsSession {
    /// The phase of the session.
    pub closed spec fn phase(&self) -> WsPhase {
        self.phase
    }

    /// The id the server registered this client under, once it did.
    pub closed spec fn registered_id(&self) -> Option<ClientId> {
        self.client_id
    }

    /// A session that waits for its connection.
    pub fn new() -> (session: Self)
        ensures
            session.phase() == (WsPhase::Connecting { polls_left: connect_polls() }),
            session.registered_id() is None,
    {
        WsSession {
            phase: WsPhase::Connecting { polls_left: CONNECTION_TIMEOUT_MS / POLL_INTERVAL_MS },
            client_id: None,
        }
    }

    /// The id the server registered this client under, once it did.
    pub fn client_id(&self) -> (id: Option<ClientId>)
        ensures
            id == self.registered_id(),
    {
        self.client_id
    }

    /// Whether the session gave up waiting for its connection.
    pub open spec fn expired(&self) -> bool {
        self.phase() == (WsPhase::Connecting { polls_left: 0 })
    }

    /// Decides what follows `msg`, the message taken off the queue (`None`: it was empty).
    pub fn on_message(&mut self, msg: Option<WsMessage>) -> (step: WsStep)
        requires
            !old(self).expired(),
        ensures
            (final(self).phase(), final(self).registered_id(), step@) == session_step(
                old(self).phase(),
                old(self).registered_id(),
                opt_message_view(msg),
            ),
    {
        match self.phase {
            WsPhase::Connecting { polls_left } => match msg {
                None => {
                    self.phase = WsPhase::Connecting { polls_left: polls_left - 1 };
                    WsStep::Wait { ms: POLL_INTERVAL_MS }
                },
                Some(WsMessage::Connected) => {
                    self.phase = WsPhase::Open;
                    WsStep::Send { frame: REGISTER_MESSAGE }
                },
                Some(other) => WsStep::Fail(WsError::UnexpectedFirstEvent(other)),
            },
            WsPhase::Open => match msg {
                None => WsStep::Wait { ms: MESSAGE_POLL_INTERVAL_MS },
                Some(m) => match m {
                    WsMessage::Connected => WsStep::Fail(WsError::UnexpectedConnected),
                    WsMessage::Registered { client_id, .. } => {
                        self.client_id = Some(client_id);
                        WsStep::Continue
                    },
                    WsMessage::Closed => WsStep::Close { client_id: self.client_id },
                    WsMessage::State { current, current_step, mode } => WsStep::Forward(
                        AppStateDiff::UpdateSlide { current, current_step, mode },
                    ),
                    WsMessage::Blink => WsStep::Forward(AppStateDiff::Blink),
                    WsMessage::TalkChanged => WsStep::Forward(AppStateDiff::TalkReload),
                    WsMessage::Error { message } => match self.client_id {
                        None => WsStep::Forward(AppStateDiff::Error { message }),
                        Some(_) => WsStep::Continue,
                    },
                },
            },
        }
    }

    /// Polls the event queue and decides what follows. A session that waited for its connection
    /// through all its polls fails with a timeout without polling.
    pub fn poll(&mut self, events: &mut EventSource<'_>) -> (step: WsStep)
        ensures
            old(self).expired() ==> {
                &&& step@ == StepModel::ConnectionTimeout
                &&& final(self).phase() == old(self).phase()
                &&& final(self).registered_id() == old(self).registered_id()
                &&& final(events).taken() == old(events).taken()
            },
            !old(self).expired() ==> {
                &&& final(events).taken().len() == old(events).taken().len() + 1
                &&& final(events).taken().drop_last() == old(events).taken()
                &&& (final(self).phase(), final(self).registered_id(), step@) == session_step(
                    old(self).phase(),
                    old(self).registered_id(),
                    final(events).taken().last(),
                )
            },
    {
        if self.phase == (WsPhase::Connecting { polls_left: 0 }) {
            return WsStep::Fail(WsError::ConnectionTimeout);
        }
        let msg = events.take();
        assert(events.taken().drop_last() =~= old(events).taken());
        self.on_message(msg)
    }
}

/// The frame that unregisters a client, around its id serialized as JSON.
pub open spec fn unregister_frame_spec(client_json: Seq<char>) -> Seq<char> {
    "{\"command\":\"Unregister\",\"client\":"@ + client_json + "}"@
}

/// The frame that unregisters the client whose id serializes to `client_json`.
pub fn unregister_frame(client_json: &str) -> (frame: String)
    ensures
        frame@ == unregister_frame_spec(client_json@),
{
    let mut frame = String::from_str("{\"command\":\"Unregister\",\"client\":");
    frame.append(client_json);
    frame.append("}");
    frame
}

/// A session registers exactly once it is connected: the connection is answered by the
/// register frame, every later message keeps it open, and a registration is remembered.
pub proof fn lemma_session_registers_once_connected(client_id: Option<ClientId>, polls_left: u64)
    ensures
        session_step(WsPhase::Connecting { polls_left }, client_id, Some(WsModel::Connected))
            == (WsPhase::Open, client_id, StepModel::Send { frame: REGISTER_MESSAGE@ }),
        forall|m: Option<WsModel>| #[trigger] session_step(WsPhase::Open, client_id, m).0
            == WsPhase::Open,
        forall|id: ClientId, role: Option<Seq<char>>| #[trigger] session_step(
            WsPhase::Open,
            client_id,
            Some(WsModel::Registered { client_id: id, role }),
        ).1 == Some(id),
{
}

/// Once registered, a server error keeps the session going and does not reach the main loop;
/// before registration it becomes the application's error state.
pub proof fn lemma_errors_after_registration_are_benign(
    client_id: Option<ClientId>,
    message: Seq<char>,
)
    ensures
        client_id is Some ==> session_step(
            WsPhase::Open,
            client_id,
            Some(WsModel::Error { message }),
        ).2 == StepModel::Continue,
        client_id is None ==> session_step(
            WsPhase::Open,
            client_id,
            Some(WsModel::Error { message }),
        ).2 == StepModel::Forward(DiffModel::Error { message }),
{
}

/// A close unregisters the id the server last registered, so the server forgets this client.
pub proof fn lemma_close_unregisters_registered_id(client_id: Option<ClientId>)
    ensures
        session_step(WsPhase::Open, client_id, Some(WsModel::Closed)).2 == (StepModel::Close {
            client_id,
        }),
{
}

/// A server state frame queues exactly the slide update it announces: nothing before the deck
/// has started, otherwise one state message with the announced slide and step, running or done
/// as the server reports. A deck change queues the talk reload first and then the same messages.
pub proof fn lemma_state_frames_queue_slide_updates(state: InnerState)
    ensures
        state is Init ==> event_messages_spec(
            WsEvent::Text { message: Some(ServerMessage::State { state }) },
        ).len() == 0,
        state matches InnerState::Running { current, current_step } ==> event_messages_spec(
            WsEvent::Text { message: Some(ServerMessage::State { state }) },
        ) == seq![WsModel::State { current, current_step, mode: StateMode::Running }],
        state matches InnerState::Done { current, current_step } ==> event_messages_spec(
            WsEvent::Text { message: Some(ServerMessage::State { state }) },
        ) == seq![WsModel::State { current, current_step, mode: StateMode::Done }],
        event_messages_spec(WsEvent::Text { message: Some(ServerMessage::TalkChange { state }) })
            == seq![WsModel::TalkChanged] + event_messages_spec(
            WsEvent::Text { message: Some(ServerMessage::State { state }) },
        ),
{
}

/// What each socket event queues: a connection queues its announcement, every kind of close
/// queues the close, a registration, blink or server error frame queues itself with its
/// contents, and failures, frames without a server message, binary frames and pings queue
/// nothing.
pub proof fn lemma_events_queue_what_they_report(
    client_id: ClientId,
    role: Option<String>,
    message: String,
)
    ensures
        event_messages_spec(WsEvent::Connected) == seq![WsModel::Connected],
        event_messages_spec(WsEvent::Disconnected) == seq![WsModel::Closed],
        event_messages_spec(WsEvent::Close) == seq![WsModel::Closed],
        event_messages_spec(WsEvent::Closed) == seq![WsModel::Closed],
        event_messages_spec(WsEvent::Text { message: Some(ServerMessage::Registered { client_id, role }) })
            == seq![WsModel::Registered { client_id, role: opt_view(role) }],
        event_messages_spec(WsEvent::Text { message: Some(ServerMessage::Blink) }) == seq![WsModel::Blink],
        event_messages_spec(WsEvent::Text { message: Some(ServerMessage::Error { message }) })
            == seq![WsModel::Error { message: message@ }],
        event_messages_spec(WsEvent::Failure).len() == 0,
        event_messages_spec(WsEvent::BeforeConnect).len() == 0,
        event_messages_spec(WsEvent::Text { message: None }).len() == 0,
        event_messages_spec(WsEvent::Binary).len() == 0,
        event_messages_spec(WsEvent::Ping).len() == 0,
        event_messages_spec(WsEvent::Pong).len() == 0,
{
}

/// An open session answers each message it takes: an empty queue waits for the message poll
/// interval, a blink and a deck change reach the main loop as a blink and a talk reload, a second
/// connection announcement is an error, and none of them changes the phase or the registration.
/// While connecting, an empty queue waits for the connection poll interval and uses up one poll,
/// and any first message but the connection is an error that carries it.
pub proof fn lemma_session_answers_each_message(
    client_id: Option<ClientId>,
    polls_left: u64,
    other: WsModel,
)
    ensures
        !(other is Connected) ==> session_step(
            WsPhase::Connecting { polls_left },
            client_id,
            Some(other),
        ) == (WsPhase::Connecting { polls_left }, client_id, StepModel::UnexpectedFirstEvent(other)),
        session_step(WsPhase::Open, client_id, None) == (WsPhase::Open, client_id, StepModel::Wait {
            ms: MESSAGE_POLL_INTERVAL_MS,
        }),
        session_step(WsPhase::Open, client_id, Some(WsModel::Blink)) == (
            WsPhase::Open,
            client_id,
            StepModel::Forward(DiffModel::Blink),
        ),
        session_step(WsPhase::Open, client_id, Some(WsModel::TalkChanged)) == (
            WsPhase::Open,
            client_id,
            StepModel::Forward(DiffModel::TalkReload),
        ),
        session_step(WsPhase::Open, client_id, Some(WsModel::Connected)) == (
            WsPhase::Open,
            client_id,
            StepModel::UnexpectedConnected,
        ),
        polls_left > 0 ==> session_step(WsPhase::Connecting { polls_left }, client_id, None) == (
            WsPhase::Connecting { polls_left: (polls_left - 1) as u64 },
            client_id,
            StepModel::Wait { ms: POLL_INTERVAL_MS },
        ),
{
}

/// An open session forwards every slide state it takes to the main loop unchanged: the same
/// slide, step and mode, so a paused or finished talk is shown paused or finished. It stays
/// open and keeps its registration.
pub proof fn lemma_open_session_forwards_slide_states(
    client_id: Option<ClientId>,
    current: usize,
    current_step: usize,
    mode: StateMode,
)
    ensures
        session_step(
            WsPhase::Open,
            client_id,
            Some(WsModel::State { current, current_step, mode }),
        ) == (WsPhase::Open, client_id, StepModel::Forward(
            DiffModel::UpdateSlide { current, current_step, mode },
        )),
{
}

} // verus!
