//! The client side: one interface bridged to one session. The bridge
//! decides; its owner reads the device and the wire, hands each event in
//! and carries out the action that comes back.

use vstd::prelude::*;
use crate::backoff::{backoff_delay, jittered, lemma_backoff_bounded, Backoff};
use crate::registry::RegistryModel;
use crate::relay::{forwarded, lemma_taught, noted, refusal, route_of};
use crate::frame::{check_length, length_verdict, source_of, Frame, FrameError, FrameModel};
use crate::session::{
    Keepalive, Message, MessageModel, Received, ReceivedModel, SendError, Session, SessionModel,
    SessionState,
};

verus! {

/// What happened outside.
#[derive(Debug, PartialEq, Eq)]
pub enum Event {
    /// The interface handed out a frame.
    FrameRead(Vec<u8>),
    /// The interface failed or was closed.
    DeviceFailed,
    /// The handshake with the relay succeeded.
    Connected,
    /// The relay sent a message.
    MessageReceived(Message),
    /// The connection is gone, or could not be made.
    TransportClosed,
    /// The wait before the next attempt is over.
    RetryDue,
    /// The keepalive timer fired.
    KeepaliveDue,
    /// The user asked the bridge to stop.
    ShutdownRequested,
}

/// What [`Event`] is.
pub enum EventModel {
    FrameRead(Seq<u8>),
    DeviceFailed,
    Connected,
    MessageReceived(MessageModel),
    TransportClosed,
    RetryDue,
    KeepaliveDue,
    ShutdownRequested,
}

impl View for Event {
    type V = EventModel;

    open spec fn view(&self) -> EventModel {
        match *self {
            Event::FrameRead(bytes) => EventModel::FrameRead(bytes@),
            Event::DeviceFailed => EventModel::DeviceFailed,
            Event::Connected => EventModel::Connected,
            Event::MessageReceived(m) => EventModel::MessageReceived(m@),
            Event::TransportClosed => EventModel::TransportClosed,
            Event::RetryDue => EventModel::RetryDue,
            Event::KeepaliveDue => EventModel::KeepaliveDue,
            Event::ShutdownRequested => EventModel::ShutdownRequested,
        }
    }
}

/// What the owner of the bridge is to do.
#[derive(Debug, PartialEq, Eq)]
pub enum Action {
    /// Nothing.
    Nothing,
    /// The frame is queued for the relay.
    Queued,
    /// Write this frame to the interface.
    WriteFrame(Frame),
    /// Put this message on the wire at once.
    Send(Message),
    /// The frame is out of bounds and was dropped; go on with the next.
    DropFrame(FrameError),
    /// The frame was not queued and is lost.
    Lost(SendError),
    /// Flush what is queued, then close the connection.
    Shutdown,
    /// Wait this many milliseconds, then report [`Event::RetryDue`].
    ReconnectAfter(u64),
    /// Open a connection to the relay.
    Connect,
    /// Stop for good.
    Terminate,
}

/// What [`Action`] is.
pub enum ActionModel {
    Nothing,
    Queued,
    WriteFrame(FrameModel),
    Send(MessageModel),
    DropFrame(FrameError),
    Lost(SendError),
    Shutdown,
    ReconnectAfter(u64),
    Connect,
    Terminate,
}

impl View for Action {
    type V = ActionModel;

    open spec fn view(&self) -> ActionModel {
        match *self {
            Action::Nothing => ActionModel::Nothing,
            Action::Queued => ActionModel::Queued,
            Action::WriteFrame(frame) => ActionModel::WriteFrame(frame@),
            Action::Send(m) => ActionModel::Send(m@),
            Action::DropFrame(e) => ActionModel::DropFrame(e),
            Action::Lost(e) => ActionModel::Lost(e),
            Action::Shutdown => ActionModel::Shutdown,
            Action::ReconnectAfter(ms) => ActionModel::ReconnectAfter(ms),
            Action::Connect => ActionModel::Connect,
            Action::Terminate => ActionModel::Terminate,
        }
    }
}

/// One interface bridged to one session.
#[derive(Debug)]
pub struct Bridge {
    session: Session,
    mtu: usize,
    backoff: Backoff,
    attempt: u32,
    stopping: bool,
    failed: bool,
}

/// What a bridge is.
pub struct BridgeModel {
    pub session: SessionModel,
    /// Largest frame that the interface takes.
    pub mtu: usize,
    pub backoff: Backoff,
    /// Attempts to reach the relay that failed since the last success.
    pub attempt: u32,
    /// Whether the user asked the bridge to stop.
    pub stopping: bool,
    /// Whether the interface failed: the bridge is then dead.
    pub failed: bool,
}

impl View for Bridge {
    type V = BridgeModel;

    closed spec fn view(&self) -> BridgeModel {
        BridgeModel {
            session: self.session@,
            mtu: self.mtu,
            backoff: self.backoff,
            attempt: self.attempt,
            stopping: self.stopping,
            failed: self.failed,
        }
    }
}

/// The session once the handshake succeeded.
pub open spec fn ready(s: SessionModel, now: u64) -> SessionModel {
    SessionModel {
        state: SessionState::Active,
        last_activity_at: now,
        last_sent_at: now,
        ping_sent_at: None,
        ..s
    }
}

impl BridgeModel {
    /// The queue of the session is within its capacity, and the session
    /// is one that the client opened.
    pub open spec fn well_formed(self) -> bool {
        self.session.well_formed() && !self.session.accepted
    }

    /// The attempt count after one more failure.
    pub open spec fn next_attempt(self) -> u32 {
        if self.attempt < u32::MAX {
            (self.attempt + 1) as u32
        } else {
            self.attempt
        }
    }

    /// The wait before the next attempt.
    pub open spec fn wait(self, entropy: u64) -> u64 {
        jittered(
            backoff_delay(self.backoff.base, self.backoff.cap, self.attempt as nat) as u64,
            entropy,
        )
    }

    /// The bridge after `event` at `now`.
    pub open spec fn after(self, event: EventModel, now: u64) -> BridgeModel {
        if self.failed {
            self
        } else {
            match event {
                EventModel::FrameRead(bytes) => if length_verdict(bytes.len(), self.mtu as nat)
                    .is_some() {
                    self
                } else {
                    BridgeModel { session: self.session.offered(MessageModel::Data(bytes)), ..self }
                },
                EventModel::DeviceFailed => BridgeModel {
                    session: self.session.shut(),
                    failed: true,
                    ..self
                },
                EventModel::Connected => if self.session.state == SessionState::Connecting {
                    BridgeModel { session: ready(self.session, now), attempt: 0, ..self }
                } else {
                    self
                },
                EventModel::MessageReceived(m) => BridgeModel {
                    session: self.session.received(m, now),
                    ..self
                },
                EventModel::TransportClosed => if self.stopping {
                    BridgeModel { session: self.session.shut(), ..self }
                } else {
                    BridgeModel {
                        session: self.session.shut(),
                        attempt: self.next_attempt(),
                        ..self
                    }
                },
                EventModel::RetryDue => if self.session.state == SessionState::Closed
                    && !self.stopping {
                    BridgeModel {
                        session: SessionModel { state: SessionState::Connecting, ..self.session },
                        ..self
                    }
                } else {
                    self
                },
                EventModel::KeepaliveDue => BridgeModel {
                    session: self.session.after_keepalive(now),
                    ..self
                },
                EventModel::ShutdownRequested => BridgeModel {
                    session: if self.session.state == SessionState::Active {
                        SessionModel { state: SessionState::Draining, ..self.session }
                    } else {
                        self.session
                    },
                    stopping: true,
                    ..self
                },
            }
        }
    }

    /// What the owner is to do on `event` at `now`.
    pub open spec fn action(self, event: EventModel, now: u64, entropy: u64) -> ActionModel {
        if self.failed {
            ActionModel::Nothing
        } else {
            match event {
                EventModel::FrameRead(bytes) => match length_verdict(
                    bytes.len(),
                    self.mtu as nat,
                ) {
                    Some(e) => ActionModel::DropFrame(e),
                    None => match self.session.send_verdict() {
                        Some(e) => ActionModel::Lost(e),
                        None => ActionModel::Queued,
                    },
                },
                EventModel::DeviceFailed => ActionModel::Terminate,
                EventModel::Connected => ActionModel::Nothing,
                EventModel::MessageReceived(m) => match self.session.reaction(m) {
                    ReceivedModel::Frame(bytes) => match length_verdict(
                        bytes.len(),
                        self.mtu as nat,
                    ) {
                        Some(e) => ActionModel::DropFrame(e),
                        None => ActionModel::WriteFrame(
                            FrameModel { payload: bytes, received_at: now },
                        ),
                    },
                    ReceivedModel::Reply(reply) => ActionModel::Send(reply),
                    ReceivedModel::Close => ActionModel::Shutdown,
                    ReceivedModel::Nothing => ActionModel::Nothing,
                },
                EventModel::TransportClosed => if self.stopping {
                    ActionModel::Terminate
                } else {
                    ActionModel::ReconnectAfter(self.wait(entropy))
                },
                EventModel::RetryDue => if self.session.state == SessionState::Closed
                    && !self.stopping {
                    ActionModel::Connect
                } else {
                    ActionModel::Nothing
                },
                EventModel::KeepaliveDue => match self.session.keepalive_verdict(now) {
                    Keepalive::SendPing => ActionModel::Send(MessageModel::Ping),
                    Keepalive::TimedOut => ActionModel::Shutdown,
                    Keepalive::Nothing => ActionModel::Nothing,
                },
                EventModel::ShutdownRequested => if self.session.state == SessionState::Active {
                    ActionModel::Send(MessageModel::Close)
                } else {
                    ActionModel::Nothing
                },
            }
        }
    }
}

impl Bridge {
    /// A bridge whose session is connecting: the owner opens the connection
    /// and reports [`Event::Connected`] or [`Event::TransportClosed`].
    pub fn new(
        session_id: u64,
        relay_address: String,
        mtu: usize,
        queue_capacity: usize,
        keepalive_interval: u64,
        backoff: Backoff,
        now: u64,
    ) -> (r: Bridge)
        ensures
            r@ == (BridgeModel {
                session: SessionModel {
                    id: session_id,
                    peer_address: relay_address@,
                    state: SessionState::Connecting,
                    accepted: false,
                    queue: Seq::empty(),
                    capacity: queue_capacity as nat,
                    keepalive_interval,
                    last_activity_at: now,
                    last_sent_at: now,
                    ping_sent_at: None,
                },
                mtu,
                backoff,
                attempt: 0,
                stopping: false,
                failed: false,
            }),
            r@.well_formed(),
    {
        Bridge {
            session: Session::connect(
                session_id,
                relay_address,
                queue_capacity,
                keepalive_interval,
                now,
            ),
            mtu,
            backoff,
            attempt: 0,
            stopping: false,
            failed: false,
        }
    }

    /// The state of the session.
    pub fn state(&self) -> (r: SessionState)
        ensures
            r == self@.session.state,
    {
        self.session.state()
    }

    /// Attempts to reach the relay that failed since the last success.
    pub fn attempt(&self) -> (r: u32)
        ensures
            r == self@.attempt,
    {
        self.attempt
    }

    /// Whether the interface failed.
    pub fn has_failed(&self) -> (r: bool)
        ensures
            r == self@.failed,
    {
        self.failed
    }

    /// Whether a frame read now would be queued. While this is false the
    /// owner leaves the frames with the interface.
    pub fn wants_frame(&self) -> (r: bool)
        ensures
            r == (!self@.failed && self@.session.accepts()),
    {
        !self.failed && self.session.has_room()
    }

    /// Takes the oldest queued message for the wire.
    pub fn next_outbound(&mut self, now: u64) -> (r: Option<Message>)
        requires
            old(self)@.well_formed(),
        ensures
            final(self)@ == (BridgeModel { session: old(self)@.session.flushed(now), ..old(self)@ }),
            final(self)@.well_formed(),
            r.is_some() == old(self)@.session.flushes(),
            r.is_some() ==> r.unwrap()@ == old(self)@.session.queue[0],
    {
        self.session.next_outbound(now)
    }

    /// Takes one event and says what to do. `entropy` is any number: it
    /// spreads the wait before a new attempt.
    pub fn step(&mut self, event: Event, now: u64, entropy: u64) -> (r: Action)
        requires
            old(self)@.well_formed(),
        ensures
            final(self)@ == old(self)@.after(event@, now),
            final(self)@.well_formed(),
            r@ == old(self)@.action(event@, now, entropy),
    {
        if self.failed {
            return Action::Nothing;
        }
        match event {
            Event::FrameRead(bytes) => match check_length(bytes.len(), self.mtu) {
                Err(e) => Action::DropFrame(e),
                Ok(()) => match self.session.send(Message::Data(bytes)) {
                    Ok(()) => Action::Queued,
                    Err(e) => Action::Lost(e),
                },
            },
            Event::DeviceFailed => {
                self.session.closed();
                self.failed = true;
                Action::Terminate
            },
            Event::Connected => {
                if self.session.established(now) {
                    self.attempt = 0;
                }
                Action::Nothing
            },
            Event::MessageReceived(m) => match self.session.receive(m, now) {
                Received::Frame(bytes) => match Frame::new(bytes, self.mtu, now) {
                    Err(e) => Action::DropFrame(e),
                    Ok(frame) => Action::WriteFrame(frame),
                },
                Received::Reply(reply) => Action::Send(reply),
                Received::Close => Action::Shutdown,
                Received::Nothing => Action::Nothing,
            },
            Event::TransportClosed => {
                self.session.closed();
                if self.stopping {
                    Action::Terminate
                } else {
                    let wait: u64 = self.backoff.jittered_delay(self.attempt, entropy);
                    if self.attempt < u32::MAX {
                        self.attempt = self.attempt + 1;
                    }
                    Action::ReconnectAfter(wait)
                }
            },
            Event::RetryDue => {
                if !self.stopping && self.session.retry() {
                    Action::Connect
                } else {
                    Action::Nothing
                }
            },
            Event::KeepaliveDue => match self.session.poll_keepalive(now) {
                Keepalive::SendPing => Action::Send(Message::Ping),
                Keepalive::TimedOut => Action::Shutdown,
                Keepalive::Nothing => Action::Nothing,
            },
            Event::ShutdownRequested => {
                self.stopping = true;
                if self.session.begin_close() {
                    Action::Send(Message::Close)
                } else {
                    Action::Nothing
                }
            },
        }
    }
}

/// Round trip: a frame within the bounds that one client reads from its
/// interface is queued for the relay byte for byte; the relay queues the
/// same bytes, behind what was queued before, for each session on the
/// frame's route that takes it; and the client at the other end is told to
/// write the same bytes to its interface.
pub proof fn lemma_round_trip(
    sender: BridgeModel,
    relay: RegistryModel,
    from: u64,
    receiver: BridgeModel,
    bytes: Seq<u8>,
    now: u64,
    entropy: u64,
    i: int,
)
    requires
        0 < bytes.len() <= sender.mtu,
        bytes.len() <= receiver.mtu,
        !sender.failed,
        sender.session.accepts(),
        relay.well_formed(),
        refusal(relay, from, bytes).is_none(),
        0 <= i < relay.sessions.len(),
        route_of(relay, from, bytes, now).reaches(from, relay.sessions[i].id),
        relay.sessions[i].accepts(),
        !receiver.failed,
        receiver.session.reads(),
    ensures
        sender.action(EventModel::FrameRead(bytes), now, entropy) == ActionModel::Queued,
        sender.after(EventModel::FrameRead(bytes), now).session.queue
            == sender.session.queue.push(MessageModel::Data(bytes)),
        forwarded(relay, from, bytes, now).sessions[i].queue == relay.sessions[i].queue.push(
            MessageModel::Data(bytes),
        ),
        receiver.action(EventModel::MessageReceived(MessageModel::Data(bytes)), now, entropy)
            == ActionModel::WriteFrame(FrameModel { payload: bytes, received_at: now }),
{
    lemma_taught(relay, source_of(bytes), from, now);
    assert(noted(relay, from, bytes, now).sessions[i] == relay.sessions[i]);
}

/// Reconnection: when the connection drops and the user did not ask to
/// stop, the bridge asks for a new attempt after a wait that is never
/// longer than the cap; when that wait is over it connects; and once the
/// handshake succeeds the session is active again with an empty queue, so
/// that the next frame within the bounds is queued.
pub proof fn lemma_reconnection(
    b: BridgeModel,
    dropped_at: u64,
    entropy: u64,
    retried_at: u64,
    connected_at: u64,
    bytes: Seq<u8>,
)
    requires
        b.well_formed(),
        !b.failed,
        !b.stopping,
        b.session.capacity > 0,
        0 < bytes.len() <= b.mtu,
    ensures
        b.action(EventModel::TransportClosed, dropped_at, entropy) == ActionModel::ReconnectAfter(
            b.wait(entropy),
        ),
        b.wait(entropy) <= b.backoff.cap,
        b.after(EventModel::TransportClosed, dropped_at).session.state == SessionState::Closed,
        b.after(EventModel::TransportClosed, dropped_at).action(
            EventModel::RetryDue,
            retried_at,
            entropy,
        ) == ActionModel::Connect,
        b.after(EventModel::TransportClosed, dropped_at).after(
            EventModel::RetryDue,
            retried_at,
        ).after(EventModel::Connected, connected_at).session.state == SessionState::Active,
        b.after(EventModel::TransportClosed, dropped_at).after(
            EventModel::RetryDue,
            retried_at,
        ).after(EventModel::Connected, connected_at).attempt == 0,
        b.after(EventModel::TransportClosed, dropped_at).after(
            EventModel::RetryDue,
            retried_at,
        ).after(EventModel::Connected, connected_at).action(
            EventModel::FrameRead(bytes),
            connected_at,
            entropy,
        ) == ActionModel::Queued,
{
    lemma_backoff_bounded(b.backoff.base, b.backoff.cap, b.attempt as nat);
}

} // verus!
