//! One transport session: its state machine, its bounded outbound queue and
//! its keepalive.

use vstd::prelude::*;
use crate::frame::copy_bytes;

verus! {

/// Outbound messages that a session holds at most, unless configured otherwise.
pub const DEFAULT_QUEUE_CAPACITY: usize = 256;

/// Milliseconds without a sent message after which an active session pings.
pub const DEFAULT_KEEPALIVE_INTERVAL_MS: u64 = 15_000;

/// A message on the wire.
#[derive(Debug, PartialEq, Eq)]
pub enum Message {
    /// The bytes of exactly one frame, unmodified and unpadded.
    Data(Vec<u8>),
    /// Keepalive probe.
    Ping,
    /// Answer to a probe.
    Pong,
    /// The peer intends to shut down gracefully.
    Close,
}

/// What a message is.
pub enum MessageModel {
    Data(Seq<u8>),
    Ping,
    Pong,
    Close,
}

impl View for Message {
    type V = MessageModel;

    open spec fn view(&self) -> MessageModel {
        match *self {
            Message::Data(bytes) => MessageModel::Data(bytes@),
            Message::Ping => MessageModel::Ping,
            Message::Pong => MessageModel::Pong,
            Message::Close => MessageModel::Close,
        }
    }
}

impl Message {
    /// A copy of the message.
    pub fn duplicate(&self) -> (r: Message)
        ensures
            r@ == self@,
    {
        match self {
            Message::Data(bytes) => Message::Data(copy_bytes(bytes)),
            Message::Ping => Message::Ping,
            Message::Pong => Message::Pong,
            Message::Close => Message::Close,
        }
    }
}

/// Where a session is in its life.
#[derive(Clone, Copy, Debug, PartialEq, Eq, Structural)]
pub enum SessionState {
    /// Handshake in progress; no traffic.
    Connecting,
    /// Messages flow both ways.
    Active,
    /// Closing: nothing new is queued, what is queued is still flushed,
    /// inbound messages are still read.
    Draining,
    /// Terminal.
    Closed,
}

/// Whether a session may go from state `from` to state `to` in one step:
/// from connecting to active, from active to draining, from any state to
/// closed, and, for a session that a client opened, from closed back to
/// connecting. Staying in a state is a step too.
pub open spec fn legal_step(from: SessionState, to: SessionState, accepted: bool) -> bool {
    from == to || to == SessionState::Closed || (from == SessionState::Connecting && to
        == SessionState::Active) || (from == SessionState::Active && to == SessionState::Draining)
        || (from == SessionState::Closed && to == SessionState::Connecting && !accepted)
}

/// Why a message was not queued.
#[derive(Clone, Copy, Debug, PartialEq, Eq, Structural)]
pub enum SendError {
    /// The queue is at capacity: the caller waits and offers the message again.
    QueueSaturated,
    /// The session is not active.
    NotActive,
}

/// What an inbound message asks of the owner of the session.
#[derive(Debug, PartialEq, Eq)]
pub enum Received {
    /// A frame's bytes, to be forwarded.
    Frame(Vec<u8>),
    /// A message to put on the wire at once, ahead of the queue.
    Reply(Message),
    /// The peer asked to close: shut both directions down.
    Close,
    /// Nothing to do.
    Nothing,
}

/// What [`Received`] is.
pub enum ReceivedModel {
    Frame(Seq<u8>),
    Reply(MessageModel),
    Close,
    Nothing,
}

impl View for Received {
    type V = ReceivedModel;

    open spec fn view(&self) -> ReceivedModel {
        match *self {
            Received::Frame(bytes) => ReceivedModel::Frame(bytes@),
            Received::Reply(m) => ReceivedModel::Reply(m@),
            Received::Close => ReceivedModel::Close,
            Received::Nothing => ReceivedModel::Nothing,
        }
    }
}

/// What the keepalive timer asks for.
#[derive(Clone, Copy, Debug, PartialEq, Eq, Structural)]
pub enum Keepalive {
    /// Nothing is due.
    Nothing,
    /// Put a `Ping` on the wire.
    SendPing,
    /// The peer did not answer in time; the session is now draining.
    TimedOut,
}

/// One logical connection to a peer.
#[derive(Debug)]
pub struct Session {
    id: u64,
    peer_address: String,
    state: SessionState,
    accepted: bool,
    queue: Vec<Message>,
    capacity: usize,
    keepalive_interval: u64,
    last_activity_at: u64,
    last_sent_at: u64,
    ping_sent_at: Option<u64>,
}

/// What a session is.
pub struct SessionModel {
    /// Identity, assigned when the session is made.
    pub id: u64,
    /// The peer's address on the transport.
    pub peer_address: Seq<char>,
    pub state: SessionState,
    /// Whether the relay accepted the session (such a session never retries).
    pub accepted: bool,
    /// Messages waiting for the wire, oldest first.
    pub queue: Seq<MessageModel>,
    /// Most messages that the queue holds.
    pub capacity: nat,
    /// Milliseconds of silence on the sending side before a `Ping` is due.
    pub keepalive_interval: u64,
    /// Time of the last message in either direction.
    pub last_activity_at: u64,
    /// Time of the last message put on the wire.
    pub last_sent_at: u64,
    /// Time of the `Ping` that is still unanswered, if any.
    pub ping_sent_at: Option<u64>,
}

/// The views of a queue's messages, in order.
pub open spec fn queue_model(queue: Seq<Message>) -> Seq<MessageModel> {
    queue.map_values(|m: Message| m@)
}

/// Milliseconds from `then` to `now`; zero where the clock went backwards.
pub open spec fn elapsed(now: u64, then: u64) -> u64 {
    if now >= then {
        (now - then) as u64
    } else {
        0
    }
}

/// Computes [`elapsed`].
pub fn elapsed_since(now: u64, then: u64) -> (r: u64)
    ensures
        r == elapsed(now, then),
{
    if now >= then {
        now - then
    } else {
        0
    }
}

impl View for Session {
    type V = SessionModel;

    closed spec fn view(&self) -> SessionModel {
        SessionModel {
            id: self.id,
            peer_address: self.peer_address@,
            state: self.state,
            accepted: self.accepted,
            queue: queue_model(self.queue@),
            capacity: self.capacity as nat,
            keepalive_interval: self.keepalive_interval,
            last_activity_at: self.last_activity_at,
            last_sent_at: self.last_sent_at,
            ping_sent_at: self.ping_sent_at,
        }
    }
}

impl SessionModel {
    /// The queue never holds more than its capacity.
    pub open spec fn well_formed(self) -> bool {
        self.queue.len() <= self.capacity
    }

    /// Whether a message offered now would be queued.
    pub open spec fn accepts(self) -> bool {
        self.state == SessionState::Active && self.queue.len() < self.capacity
    }

    /// The verdict on a message offered now: `None` when it is queued.
    pub open spec fn send_verdict(self) -> Option<SendError> {
        if self.state != SessionState::Active {
            Some(SendError::NotActive)
        } else if self.queue.len() >= self.capacity {
            Some(SendError::QueueSaturated)
        } else {
            None
        }
    }

    /// The session after `message` was offered to it: queued at the end
    /// where the session accepts it, otherwise nothing changes.
    pub open spec fn offered(self, message: MessageModel) -> SessionModel {
        if self.accepts() {
            SessionModel { queue: self.queue.push(message), ..self }
        } else {
            self
        }
    }

    /// Whether the queue hands out a message now.
    pub open spec fn flushes(self) -> bool {
        (self.state == SessionState::Active || self.state == SessionState::Draining)
            && self.queue.len() > 0
    }

    /// The session after the oldest queued message went on the wire at `now`.
    pub open spec fn flushed(self, now: u64) -> SessionModel {
        if self.flushes() {
            SessionModel {
                queue: self.queue.drop_first(),
                last_sent_at: now,
                last_activity_at: now,
                ..self
            }
        } else {
            self
        }
    }

    /// Whether inbound messages are read in this state.
    pub open spec fn reads(self) -> bool {
        self.state == SessionState::Active || self.state == SessionState::Draining
    }

    /// The session after `message` arrived at `now`.
    pub open spec fn received(self, message: MessageModel, now: u64) -> SessionModel {
        if !self.reads() {
            self
        } else {
            match message {
                MessageModel::Data(_) => SessionModel { last_activity_at: now, ..self },
                MessageModel::Ping => if self.state == SessionState::Active {
                    SessionModel { last_activity_at: now, last_sent_at: now, ..self }
                } else {
                    SessionModel { last_activity_at: now, ..self }
                },
                MessageModel::Pong => SessionModel {
                    last_activity_at: now,
                    ping_sent_at: None,
                    ..self
                },
                MessageModel::Close => SessionModel {
                    last_activity_at: now,
                    state: SessionState::Draining,
                    ..self
                },
            }
        }
    }

    /// What the arrival of `message` asks of the session's owner.
    pub open spec fn reaction(self, message: MessageModel) -> ReceivedModel {
        if !self.reads() {
            ReceivedModel::Nothing
        } else {
            match message {
                MessageModel::Data(bytes) => ReceivedModel::Frame(bytes),
                MessageModel::Ping => if self.state == SessionState::Active {
                    ReceivedModel::Reply(MessageModel::Pong)
                } else {
                    ReceivedModel::Nothing
                },
                MessageModel::Pong => ReceivedModel::Nothing,
                MessageModel::Close => ReceivedModel::Close,
            }
        }
    }

    /// Whether the peer has left a `Ping` unanswered for twice the interval.
    pub open spec fn pong_overdue(self, now: u64) -> bool {
        self.state == SessionState::Active && self.ping_sent_at.is_some() && elapsed(
            now,
            self.ping_sent_at.unwrap(),
        ) >= 2 * self.keepalive_interval
    }

    /// Whether a `Ping` is due: nothing went out for the interval and no
    /// earlier `Ping` is waiting for its answer.
    pub open spec fn ping_due(self, now: u64) -> bool {
        self.state == SessionState::Active && self.ping_sent_at.is_none() && elapsed(
            now,
            self.last_sent_at,
        ) >= self.keepalive_interval
    }

    /// What the keepalive timer asks for at `now`.
    pub open spec fn keepalive_verdict(self, now: u64) -> Keepalive {
        if self.pong_overdue(now) {
            Keepalive::TimedOut
        } else if self.ping_due(now) {
            Keepalive::SendPing
        } else {
            Keepalive::Nothing
        }
    }

    /// The session after the keepalive timer fired at `now`.
    pub open spec fn after_keepalive(self, now: u64) -> SessionModel {
        if self.pong_overdue(now) {
            SessionModel { state: SessionState::Draining, ..self }
        } else if self.ping_due(now) {
            SessionModel { ping_sent_at: Some(now), last_sent_at: now, ..self }
        } else {
            self
        }
    }

    /// The session once its connection is gone: closed, with nothing queued.
    pub open spec fn shut(self) -> SessionModel {
        SessionModel {
            state: SessionState::Closed,
            queue: Seq::empty(),
            ping_sent_at: None,
            ..self
        }
    }

    /// Whether nothing moved on the session for at least `timeout`.
    pub open spec fn idle(self, now: u64, timeout: u64) -> bool {
        elapsed(now, self.last_activity_at) >= timeout
    }
}

impl Session {
    /// A session that the relay accepted: it starts active, with an empty queue.
    pub fn accept(
        id: u64,
        peer_address: String,
        capacity: usize,
        keepalive_interval: u64,
        now: u64,
    ) -> (r: Session)
        ensures
            r@ == (SessionModel {
                id,
                peer_address: peer_address@,
                state: SessionState::Active,
                accepted: true,
                queue: Seq::<MessageModel>::empty(),
                capacity: capacity as nat,
                keepalive_interval,
                last_activity_at: now,
                last_sent_at: now,
                ping_sent_at: None,
            }),
            r@.well_formed(),
    {
        let r = Session {
            id,
            peer_address,
            state: SessionState::Active,
            accepted: true,
            queue: Vec::new(),
            capacity,
            keepalive_interval,
            last_activity_at: now,
            last_sent_at: now,
            ping_sent_at: None,
        };
        assert(queue_model(r.queue@) =~= Seq::<MessageModel>::empty());
        r
    }

    /// A session that a client opens: it starts connecting, with an empty queue.
    pub fn connect(
        id: u64,
        peer_address: String,
        capacity: usize,
        keepalive_interval: u64,
        now: u64,
    ) -> (r: Session)
        ensures
            r@ == (SessionModel {
                id,
                peer_address: peer_address@,
                state: SessionState::Connecting,
                accepted: false,
                queue: Seq::<MessageModel>::empty(),
                capacity: capacity as nat,
                keepalive_interval,
                last_activity_at: now,
                last_sent_at: now,
                ping_sent_at: None,
            }),
            r@.well_formed(),
    {
        let r = Session {
            id,
            peer_address,
            state: SessionState::Connecting,
            accepted: false,
            queue: Vec::new(),
            capacity,
            keepalive_interval,
            last_activity_at: now,
            last_sent_at: now,
            ping_sent_at: None,
        };
        assert(queue_model(r.queue@) =~= Seq::<MessageModel>::empty());
        r
    }

    /// The session's identity.
    pub fn id(&self) -> (r: u64)
        ensures
            r == self@.id,
    {
        self.id
    }

    /// The peer's address on the transport.
    pub fn peer_address(&self) -> (r: &String)
        ensures
            r@ == self@.peer_address,
    {
        &self.peer_address
    }

    /// The session's state.
    pub fn state(&self) -> (r: SessionState)
        ensures
            r == self@.state,
    {
        self.state
    }

    /// The number of queued messages.
    pub fn queued(&self) -> (r: usize)
        ensures
            r == self@.queue.len(),
    {
        self.queue.len()
    }

    /// The time of the last message in either direction.
    pub fn last_activity_at(&self) -> (r: u64)
        ensures
            r == self@.last_activity_at,
    {
        self.last_activity_at
    }

    /// Whether nothing moved on the session for at least `timeout`.
    pub fn is_idle(&self, now: u64, timeout: u64) -> (r: bool)
        ensures
            r == self@.idle(now, timeout),
    {
        elapsed_since(now, self.last_activity_at) >= timeout
    }

    /// Whether a message offered now would be queued.
    pub fn has_room(&self) -> (r: bool)
        ensures
            r == self@.accepts(),
    {
        self.state == SessionState::Active && self.queue.len() < self.capacity
    }

    /// Offers a message to the queue. It is queued behind all earlier ones
    /// if the session is active and the queue has room. A saturated queue
    /// refuses it and says so: the caller waits, nothing is dropped in silence.
    pub fn send(&mut self, message: Message) -> (r: Result<(), SendError>)
        requires
            old(self)@.well_formed(),
        ensures
            final(self)@ == old(self)@.offered(message@),
            final(self)@.well_formed(),
            r == match old(self)@.send_verdict() {
                Some(e) => Err::<(), SendError>(e),
                None => Ok(()),
            },
    {
        if self.state != SessionState::Active {
            return Err(SendError::NotActive);
        }
        if self.queue.len() >= self.capacity {
            return Err(SendError::QueueSaturated);
        }
        self.queue.push(message);
        assert(queue_model(self.queue@) =~= queue_model(old(self).queue@).push(message@));
        Ok(())
    }

    /// Takes the oldest queued message for the wire. An active or draining
    /// session hands its messages out in the order in which they were queued.
    pub fn next_outbound(&mut self, now: u64) -> (r: Option<Message>)
        requires
            old(self)@.well_formed(),
        ensures
            final(self)@ == old(self)@.flushed(now),
            final(self)@.well_formed(),
            r.is_some() == old(self)@.flushes(),
            r.is_some() ==> r.unwrap()@ == old(self)@.queue[0],
    {
        if (self.state == SessionState::Active || self.state == SessionState::Draining)
            && self.queue.len() > 0 {
            let m = self.queue.remove(0);
            self.last_sent_at = now;
            self.last_activity_at = now;
            assert(queue_model(self.queue@) =~= queue_model(old(self).queue@).drop_first());
            Some(m)
        } else {
            None
        }
    }

    /// Takes note of a message from the peer. A `Ping` is answered with a
    /// `Pong` here; a `Close` starts draining; a frame's bytes are handed
    /// on unchanged. A session that is connecting or closed reads nothing.
    pub fn receive(&mut self, message: Message, now: u64) -> (r: Received)
        ensures
            final(self)@ == old(self)@.received(message@, now),
            r@ == old(self)@.reaction(message@),
            final(self)@.well_formed() == old(self)@.well_formed(),
    {
        if !(self.state == SessionState::Active || self.state == SessionState::Draining) {
            return Received::Nothing;
        }
        self.last_activity_at = now;
        match message {
            Message::Data(bytes) => Received::Frame(bytes),
            Message::Ping => {
                if self.state == SessionState::Active {
                    self.last_sent_at = now;
                    Received::Reply(Message::Pong)
                } else {
                    Received::Nothing
                }
            },
            Message::Pong => {
                self.ping_sent_at = None;
                Received::Nothing
            },
            Message::Close => {
                self.state = SessionState::Draining;
                Received::Close
            },
        }
    }

    /// Runs the keepalive timer. An active session that sent nothing for the
    /// interval pings; one whose `Ping` went unanswered for twice the
    /// interval starts draining.
    pub fn poll_keepalive(&mut self, now: u64) -> (r: Keepalive)
        ensures
            final(self)@ == old(self)@.after_keepalive(now),
            r == old(self)@.keepalive_verdict(now),
            final(self)@.well_formed() == old(self)@.well_formed(),
    {
        if self.state != SessionState::Active {
            return Keepalive::Nothing;
        }
        match self.ping_sent_at {
            Some(t) => {
                let waited: u64 = elapsed_since(now, t);
                if waited >= self.keepalive_interval && waited - self.keepalive_interval
                    >= self.keepalive_interval {
                    self.state = SessionState::Draining;
                    Keepalive::TimedOut
                } else {
                    Keepalive::Nothing
                }
            },
            None => {
                if elapsed_since(now, self.last_sent_at) >= self.keepalive_interval {
                    self.ping_sent_at = Some(now);
                    self.last_sent_at = now;
                    Keepalive::SendPing
                } else {
                    Keepalive::Nothing
                }
            },
        }
    }

    /// The handshake succeeded: a connecting session becomes active.
    /// Returns whether it did.
    pub fn established(&mut self, now: u64) -> (r: bool)
        ensures
            r == (old(self)@.state == SessionState::Connecting),
            final(self)@ == if r {
                SessionModel {
                    state: SessionState::Active,
                    last_activity_at: now,
                    last_sent_at: now,
                    ping_sent_at: None,
                    ..old(self)@
                }
            } else {
                old(self)@
            },
    {
        if self.state == SessionState::Connecting {
            self.state = SessionState::Active;
            self.last_activity_at = now;
            self.last_sent_at = now;
            self.ping_sent_at = None;
            true
        } else {
            false
        }
    }

    /// A close was asked for: an active session starts draining. Returns
    /// whether it did.
    pub fn begin_close(&mut self) -> (r: bool)
        ensures
            r == (old(self)@.state == SessionState::Active),
            final(self)@ == if r {
                SessionModel { state: SessionState::Draining, ..old(self)@ }
            } else {
                old(self)@
            },
    {
        if self.state == SessionState::Active {
            self.state = SessionState::Draining;
            true
        } else {
            false
        }
    }

    /// The connection is gone: the session is closed and what was still
    /// queued is discarded.
    pub fn closed(&mut self)
        ensures
            final(self)@ == old(self)@.shut(),
            final(self)@.well_formed(),
    {
        self.state = SessionState::Closed;
        self.queue = Vec::new();
        self.ping_sent_at = None;
        assert(queue_model(self.queue@) =~= Seq::<MessageModel>::empty());
    }

    /// Starts over: a closed session that a client opened goes back to
    /// connecting. A session that the relay accepted never does. Returns
    /// whether the session is connecting again.
    pub fn retry(&mut self) -> (r: bool)
        ensures
            r == (old(self)@.state == SessionState::Closed && !old(self)@.accepted),
            final(self)@ == if r {
                SessionModel { state: SessionState::Connecting, ..old(self)@ }
            } else {
                old(self)@
            },
    {
        if self.state == SessionState::Closed && !self.accepted {
            self.state = SessionState::Connecting;
            true
        } else {
            false
        }
    }
}

/// Order within a session: messages offered one after the other are queued
/// in that order behind what was queued before, and the queue hands out
/// its oldest message first.
pub proof fn lemma_fifo(s: SessionModel, first: MessageModel, second: MessageModel, now: u64)
    requires
        s.state == SessionState::Active,
        s.queue.len() + 2 <= s.capacity,
    ensures
        s.offered(first).offered(second).queue == s.queue.push(first).push(second),
        s.offered(first).offered(second).flushes(),
        s.offered(first).offered(second).flushed(now).queue == s.queue.push(first).push(
            second,
        ).drop_first(),
        s.queue.len() == 0 ==> s.offered(first).offered(second).queue[0] == first
            && s.offered(first).offered(second).flushed(now).queue[0] == second,
{
}

/// Whatever happens to a session moves its state along the edges of
/// [`legal_step`] only, keeps its identity, and keeps its queue within the
/// capacity.
pub proof fn lemma_transitions(s: SessionModel, message: MessageModel, now: u64)
    requires
        s.well_formed(),
    ensures
        legal_step(s.state, s.offered(message).state, s.accepted),
        legal_step(s.state, s.flushed(now).state, s.accepted),
        legal_step(s.state, s.received(message, now).state, s.accepted),
        legal_step(s.state, s.after_keepalive(now).state, s.accepted),
        legal_step(s.state, s.shut().state, s.accepted),
        s.offered(message).well_formed() && s.offered(message).id == s.id,
        s.flushed(now).well_formed() && s.flushed(now).id == s.id,
        s.received(message, now).well_formed() && s.received(message, now).id == s.id,
        s.after_keepalive(now).well_formed() && s.after_keepalive(now).id == s.id,
        s.shut().well_formed() && s.shut().id == s.id,
{
}

} // verus!
