//! The connection session.
//!
//! A session lives through the states `Idle`, `Handshaking`, `Connected`,
//! `ShuttingDown` and `Closed`, in that order. Two workers serve it: one
//! receives datagrams, with a bounded wait, and one sends a keepalive gram at
//! a fixed interval. The session itself does no input or output. Whoever
//! runs the workers tells it what happened, as an [`Event`], and is told what
//! to do next, as an [`Action`].
//!
//! Shutdown is cooperative: once it was asked for, every event that a worker
//! reports is answered with [`Action::Stop`], and the session is closed when
//! both workers have reported their exit.

use vstd::prelude::*;
use crate::gram::{
    decode,
    decode_spec,
    encode,
    encode_spec,
    wire_id,
    wire_payload,
    GramError,
};
use crate::handshake::{
    connect_ack_prefix,
    connect_request_bytes,
    is_connect_ack,
    is_connect_ack_spec,
    TelloConnectRequest,
    CONNECT_ACK_LEN,
};
use crate::telemetry::{dispatch, dispatch_spec, Message, TelemetryError, MSG_VIDEO_REQUEST};

verus! {

/// The vehicle's address on the network that it opens.
pub const TELLO_IP: [u8; 4] = [192, 168, 10, 1];

/// The port on which the vehicle takes commands.
pub const TELLO_CMD_PORT: u16 = 8889;

/// The local port from which commands are sent.
pub const LOCAL_CMD_PORT: u16 = 8800;

/// The local port on which the video stream is expected.
pub const VIDEO_PORT: u16 = 8040;

/// How long the receive worker waits for a datagram, in milliseconds. This
/// bounds the time in which it notices a shutdown.
pub const RECEIVE_TIMEOUT_MILLIS: u64 = 1000;

/// The time between two keepalive grams, in milliseconds.
pub const KEEPALIVE_INTERVAL_MILLIS: u64 = 2000;

/// Packet type of the keepalive gram.
pub const KEEPALIVE_KIND: u8 = 4;

/// Sequence number of every keepalive gram. The vehicle is not known to look
/// at it for this request, so it is not counted up.
pub const KEEPALIVE_SEQUENCE: u16 = 0;

/// What a received datagram turned out to be.
#[derive(Clone, Copy, Debug, PartialEq, Eq, Structural)]
pub enum Inbound {
    /// The vehicle's text answer to a connect request.
    HandshakeAck,
    /// No valid gram. The datagram is dropped.
    Rejected(GramError),
    /// A valid gram of a known message id, decoded.
    Message(Message),
    /// A valid gram that gave no record: its id is unknown, or its payload
    /// has the wrong length.
    Undecoded(TelemetryError),
}

/// What the received part of `buffer` is. The text handshake is looked for
/// first; only what is no handshake message is decoded as a gram.
pub open spec fn classify_spec(buffer: Seq<u8>, received_len: nat) -> Inbound {
    if is_connect_ack_spec(buffer, received_len) {
        Inbound::HandshakeAck
    } else {
        match decode_spec(buffer, received_len) {
            Err(e) => Inbound::Rejected(e),
            Ok(gram) => match dispatch_spec(wire_id(gram), wire_payload(gram)) {
                Ok(message) => Inbound::Message(message),
                Err(e) => Inbound::Undecoded(e),
            },
        }
    }
}

/// Classifies the datagram in `buffer`, of which the first `received_len`
/// bytes were received.
pub fn classify(buffer: &[u8], received_len: usize) -> (inbound: Inbound)
    ensures
        inbound == classify_spec(buffer@, received_len as nat),
        is_connect_ack_spec(buffer@, received_len as nat) ==> inbound == Inbound::HandshakeAck,
{
    if is_connect_ack(buffer, received_len) {
        return Inbound::HandshakeAck;
    }
    match decode(buffer, received_len) {
        Err(e) => Inbound::Rejected(e),
        Ok(gram) => match dispatch(&gram) {
            Ok(message) => Inbound::Message(message),
            Err(e) => Inbound::Undecoded(e),
        },
    }
}

/// Whatever follows the text `conn_ack:`, a datagram that starts with it is a
/// handshake message, and nothing of it is decoded as a gram.
pub proof fn lemma_connect_ack_is_no_gram(rest: Seq<u8>, received_len: nat)
    requires
        received_len >= CONNECT_ACK_LEN,
    ensures
        classify_spec(connect_ack_prefix() + rest, received_len) == Inbound::HandshakeAck,
{
}

/// The gram that keeps the video stream running: packet type 4, the id of the
/// video request, sequence number 0, no payload.
pub open spec fn keepalive_bytes() -> Seq<u8> {
    encode_spec(KEEPALIVE_KIND, MSG_VIDEO_REQUEST, KEEPALIVE_SEQUENCE, Seq::<u8>::empty())
}

/// Builds the keepalive gram.
pub fn keepalive_gram() -> (bytes: Vec<u8>)
    ensures
        bytes@ == keepalive_bytes(),
{
    let payload: Vec<u8> = Vec::new();
    encode(KEEPALIVE_KIND, MSG_VIDEO_REQUEST, KEEPALIVE_SEQUENCE, payload.as_slice())
}

/// Where a session stands in its life.
#[derive(Clone, Copy, Debug, PartialEq, Eq, Structural)]
pub enum SessionState {
    /// Nothing was sent yet.
    Idle,
    /// The connect request is out; no answer was seen.
    Handshaking,
    /// The vehicle has answered. Keepalive grams are sent.
    Connected,
    /// Shutdown was asked for; a worker is still running.
    ShuttingDown,
    /// Both workers have ended and the socket may be released.
    Closed,
}

/// One of the two loops that serve a session.
#[derive(Clone, Copy, Debug, PartialEq, Eq, Structural)]
pub enum Worker {
    Receive,
    Keepalive,
}

/// What happened, as the session is told.
#[derive(Clone, Copy, Debug, PartialEq, Eq, Structural)]
pub enum Event {
    /// The caller asks to connect and expects video on this local port.
    Connect(u16),
    /// The receive worker got a datagram and classified it.
    Received(Inbound),
    /// The receive worker's wait ended without a datagram: the time ran out,
    /// or the transport reported an error.
    ReceiveIdle,
    /// The keepalive worker's interval has passed.
    KeepaliveDue,
    /// The caller asks to shut down.
    Shutdown,
    /// A worker has left its loop.
    WorkerExited(Worker),
}

/// What to do next, as the session answers.
#[derive(Debug, PartialEq, Eq)]
pub enum Action {
    /// Nothing to do; a worker goes on with its loop.
    Continue,
    /// Send these bytes on the control socket.
    Send(Vec<u8>),
    /// Note what was received, and go on.
    Report(Inbound),
    /// The worker that reported the event leaves its loop.
    Stop,
    /// Both workers are gone: release the socket.
    Release,
}

/// The model of an [`Action`].
pub enum ActionView {
    Continue,
    Send(Seq<u8>),
    Report(Inbound),
    Stop,
    Release,
}

impl View for Action {
    type V = ActionView;

    open spec fn view(&self) -> ActionView {
        match self {
            Action::Continue => ActionView::Continue,
            Action::Send(bytes) => ActionView::Send(bytes@),
            Action::Report(inbound) => ActionView::Report(*inbound),
            Action::Stop => ActionView::Stop,
            Action::Release => ActionView::Release,
        }
    }
}

/// The state of a session, and which of its workers have not yet left their
/// loops.
#[derive(Clone, Copy, Debug, PartialEq, Eq, Structural)]
pub struct Session {
    pub state: SessionState,
    pub receive_running: bool,
    pub keepalive_running: bool,
}

/// Whether shutdown was asked for.
pub open spec fn stopping(s: Session) -> bool {
    s.state == SessionState::ShuttingDown || s.state == SessionState::Closed
}

/// Whether an event comes from one of the two worker loops.
pub open spec fn from_worker(e: Event) -> bool {
    e is Received || e is ReceiveIdle || e is KeepaliveDue
}

/// The place of a state in the session's life.
pub open spec fn rank(state: SessionState) -> nat {
    match state {
        SessionState::Idle => 0,
        SessionState::Handshaking => 1,
        SessionState::Connected => 2,
        SessionState::ShuttingDown => 3,
        SessionState::Closed => 4,
    }
}

/// A session that is shutting down is closed exactly when no worker runs.
pub open spec fn consistent(s: Session) -> bool {
    stopping(s) ==> (s.state == SessionState::Closed <==> !s.receive_running
        && !s.keepalive_running)
}

/// The session with `state` replaced.
pub open spec fn in_state(s: Session, state: SessionState) -> Session {
    Session { state, receive_running: s.receive_running, keepalive_running: s.keepalive_running }
}

/// A session that shuts down, with the given workers still running: closed,
/// with the socket released, as soon as none runs.
pub open spec fn wind_down(receive_running: bool, keepalive_running: bool) -> (
    Session,
    ActionView,
) {
    if receive_running || keepalive_running {
        (
            Session { state: SessionState::ShuttingDown, receive_running, keepalive_running },
            ActionView::Continue,
        )
    } else {
        (
            Session { state: SessionState::Closed, receive_running, keepalive_running },
            ActionView::Release,
        )
    }
}

/// The session after an event, and the answer to it.
pub open spec fn step_spec(s: Session, e: Event) -> (Session, ActionView) {
    match e {
        Event::Connect(video_port) => if s.state == SessionState::Idle {
            (
                in_state(s, SessionState::Handshaking),
                ActionView::Send(connect_request_bytes(video_port)),
            )
        } else {
            (s, ActionView::Continue)
        },
        Event::Received(inbound) => if stopping(s) {
            (s, ActionView::Stop)
        } else if inbound == Inbound::HandshakeAck && s.state == SessionState::Handshaking {
            (in_state(s, SessionState::Connected), ActionView::Report(inbound))
        } else {
            (s, ActionView::Report(inbound))
        },
        Event::ReceiveIdle => if stopping(s) {
            (s, ActionView::Stop)
        } else {
            (s, ActionView::Continue)
        },
        Event::KeepaliveDue => if stopping(s) {
            (s, ActionView::Stop)
        } else if s.state == SessionState::Connected {
            (s, ActionView::Send(keepalive_bytes()))
        } else {
            (s, ActionView::Continue)
        },
        Event::Shutdown => if s.state == SessionState::Closed {
            (s, ActionView::Continue)
        } else {
            wind_down(s.receive_running, s.keepalive_running)
        },
        Event::WorkerExited(worker) => {
            let receive_running = s.receive_running && worker != Worker::Receive;
            let keepalive_running = s.keepalive_running && worker != Worker::Keepalive;
            if s.state == SessionState::ShuttingDown {
                wind_down(receive_running, keepalive_running)
            } else {
                (Session { state: s.state, receive_running, keepalive_running }, ActionView::Continue)
            }
        },
    }
}

/// The session after a run of events.
pub open spec fn run(s: Session, events: Seq<Event>) -> Session
    decreases events.len(),
{
    if events.len() == 0 {
        s
    } else {
        step_spec(run(s, events.drop_last()), events.last()).0
    }
}

impl Session {
    /// A session in which nothing has happened yet. Both workers count as
    /// running until they report their exit.
    pub fn new() -> (session: Session)
        ensures
            session == (Session {
                state: SessionState::Idle,
                receive_running: true,
                keepalive_running: true,
            }),
            consistent(session),
    {
        Session { state: SessionState::Idle, receive_running: true, keepalive_running: true }
    }

    /// Where the session stands.
    pub fn state(&self) -> (state: SessionState)
        ensures
            state == self.state,
    {
        self.state
    }

    fn is_stopping(&self) -> (b: bool)
        ensures
            b == stopping(*self),
    {
        match self.state {
            SessionState::ShuttingDown => true,
            SessionState::Closed => true,
            _ => false,
        }
    }

    fn do_wind_down(&mut self) -> (action: Action)
        ensures
            (*final(self), action@) == wind_down(
                old(self).receive_running,
                old(self).keepalive_running,
            ),
    {
        if self.receive_running || self.keepalive_running {
            self.state = SessionState::ShuttingDown;
            Action::Continue
        } else {
            self.state = SessionState::Closed;
            Action::Release
        }
    }

    /// Takes an event, moves the session on and says what to do.
    pub fn step(&mut self, event: Event) -> (action: Action)
        ensures
            (*final(self), action@) == step_spec(*old(self), event),
            rank(final(self).state) >= rank(old(self).state),
            consistent(*old(self)) ==> consistent(*final(self)),
            stopping(*old(self)) && from_worker(event) ==> action@ == ActionView::Stop,
    {
        match event {
            Event::Connect(video_port) => {
                match self.state {
                    SessionState::Idle => {
                        self.state = SessionState::Handshaking;
                        Action::Send(TelloConnectRequest::connect(video_port).as_bytes())
                    },
                    _ => Action::Continue,
                }
            },
            Event::Received(inbound) => {
                if self.is_stopping() {
                    Action::Stop
                } else {
                    match (inbound, self.state) {
                        (Inbound::HandshakeAck, SessionState::Handshaking) => {
                            self.state = SessionState::Connected;
                        },
                        _ => {},
                    }
                    Action::Report(inbound)
                }
            },
            Event::ReceiveIdle => {
                if self.is_stopping() {
                    Action::Stop
                } else {
                    Action::Continue
                }
            },
            Event::KeepaliveDue => {
                if self.is_stopping() {
                    Action::Stop
                } else {
                    match self.state {
                        SessionState::Connected => Action::Send(keepalive_gram()),
                        _ => Action::Continue,
                    }
                }
            },
            Event::Shutdown => {
                match self.state {
                    SessionState::Closed => Action::Continue,
                    _ => self.do_wind_down(),
                }
            },
            Event::WorkerExited(worker) => {
                match worker {
                    Worker::Receive => {
                        self.receive_running = false;
                    },
                    Worker::Keepalive => {
                        self.keepalive_running = false;
                    },
                }
                match self.state {
                    SessionState::ShuttingDown => self.do_wind_down(),
                    _ => Action::Continue,
                }
            },
        }
    }

    /// The body of the receive loop for one datagram: classifies what is in
    /// `buffer`, of which the first `received_len` bytes were received, and
    /// takes it as an event.
    pub fn on_datagram(&mut self, buffer: &[u8], received_len: usize) -> (action: Action)
        ensures
            (*final(self), action@) == step_spec(
                *old(self),
                Event::Received(classify_spec(buffer@, received_len as nat)),
            ),
    {
        let inbound: Inbound = classify(buffer, received_len);
        self.step(Event::Received(inbound))
    }
}

/// A session never moves back in its life, whatever happens.
pub proof fn lemma_state_never_moves_back(s: Session, e: Event)
    ensures
        rank(step_spec(s, e).0.state) >= rank(s.state),
{
}

/// Every event keeps a session consistent.
pub proof fn lemma_step_keeps_consistent(s: Session, e: Event)
    requires
        consistent(s),
    ensures
        consistent(step_spec(s, e).0),
{
}

/// The socket is released exactly when the session becomes closed.
pub proof fn lemma_release_on_closing(s: Session, e: Event)
    ensures
        step_spec(s, e).1 == ActionView::Release <==> (s.state != SessionState::Closed
            && step_spec(s, e).0.state == SessionState::Closed),
{
}

/// Shutdown, once asked for, stays in force through any run of events.
pub proof fn lemma_shutdown_is_permanent(s: Session, events: Seq<Event>)
    requires
        stopping(s),
    ensures
        stopping(run(s, events)),
    decreases events.len(),
{
    if events.len() > 0 {
        lemma_shutdown_is_permanent(s, events.drop_last());
    }
}

/// After shutdown was asked for, whatever happens in between, the next event
/// that a worker reports is answered with `Stop`: each worker leaves its loop
/// in the first iteration that begins after the request.
pub proof fn lemma_workers_stop_after_shutdown(s: Session, between: Seq<Event>, e: Event)
    requires
        from_worker(e),
    ensures
        step_spec(run(step_spec(s, Event::Shutdown).0, between), e).1 == ActionView::Stop,
        step_spec(run(step_spec(s, Event::Shutdown).0, between), e).0 == run(
            step_spec(s, Event::Shutdown).0,
            between,
        ),
{
    lemma_shutdown_is_permanent(step_spec(s, Event::Shutdown).0, between);
}

/// A consistent session that was asked to shut down is closed as soon as both
/// workers have reported their exit, in either order and whatever else
/// happened.
pub proof fn lemma_closed_when_workers_gone(s: Session, events: Seq<Event>)
    requires
        consistent(s),
        events.contains(Event::Shutdown),
        events.contains(Event::WorkerExited(Worker::Receive)),
        events.contains(Event::WorkerExited(Worker::Keepalive)),
    ensures
        run(s, events).state == SessionState::Closed,
{
    lemma_run_facts(s, events);
}

proof fn lemma_run_facts(s: Session, events: Seq<Event>)
    requires
        consistent(s),
    ensures
        consistent(run(s, events)),
        events.contains(Event::Shutdown) ==> stopping(run(s, events)),
        events.contains(Event::WorkerExited(Worker::Receive)) ==> !run(s, events).receive_running,
        events.contains(Event::WorkerExited(Worker::Keepalive)) ==> !run(
            s,
            events,
        ).keepalive_running,
        !s.receive_running ==> !run(s, events).receive_running,
        !s.keepalive_running ==> !run(s, events).keepalive_running,
        stopping(s) ==> stopping(run(s, events)),
    decreases events.len(),
{
    if events.len() > 0 {
        let front = events.drop_last();
        lemma_run_facts(s, front);
        assert forall|e: Event| events.contains(e) implies front.contains(e) || e
            == events.last() by {
            let i = choose|i: int| 0 <= i < events.len() && events[i] == e;
            if i < events.len() - 1 {
                assert(front[i] == e);
            }
        }
    }
}

} // verus!
