//! The relay: a learning bridge over the sessions of a registry. A frame
//! goes to the session that owns its destination address, and to every
//! other session while nobody is known to own it.

use vstd::prelude::*;
use crate::frame::{
    address_is_group, check_length, destination_of, is_group, length_verdict, parse_addresses,
    source_of, FrameError,
};
use crate::registry::{refusing, Registry, RegistryModel, Route};
use crate::registry::{lemma_entry_position, Learned};
use crate::session::{elapsed, Message, MessageModel, Received, ReceivedModel, SessionState};

verus! {

/// Why the relay did not forward a frame.
#[derive(Clone, Copy, Debug, PartialEq, Eq)]
pub enum Rejection {
    /// The frame is out of bounds or too short to be read.
    Frame(FrameError),
    /// The frame came in on a session that the registry does not hold.
    UnknownSession,
}

/// What became of a message that came in on a session.
#[derive(Debug, PartialEq, Eq)]
pub enum Handled {
    /// A frame was forwarded. The sessions named were on its route and did
    /// not take it: for them the frame is lost.
    Forwarded(Vec<u64>),
    /// A frame was dropped; the registry is as it was before the frame.
    Dropped(Rejection),
    /// Put this message on the wire of the session that the message came in on.
    Reply(Message),
    /// The peer asked to close: the session is draining.
    Closing,
    /// Nothing to do.
    Nothing,
}

/// What [`Handled`] is.
pub enum HandledModel {
    Forwarded(Seq<u64>),
    Dropped(Rejection),
    Reply(MessageModel),
    Closing,
    Nothing,
}

impl View for Handled {
    type V = HandledModel;

    open spec fn view(&self) -> HandledModel {
        match *self {
            Handled::Forwarded(ids) => HandledModel::Forwarded(ids@),
            Handled::Dropped(e) => HandledModel::Dropped(e),
            Handled::Reply(m) => HandledModel::Reply(m@),
            Handled::Closing => HandledModel::Closing,
            Handled::Nothing => HandledModel::Nothing,
        }
    }
}

/// The route of a frame from session `from` to `destination` at `now`. A
/// group address floods. So does an address that no session owns. An
/// address that another session owns goes to that session alone, and one
/// that the sender itself owns goes nowhere.
pub open spec fn route_for(m: RegistryModel, from: u64, destination: u64, now: u64) -> Route {
    if is_group(destination) {
        Route::Flood
    } else {
        match m.owner(destination, now) {
            Some(target) => if target == from {
                Route::Nowhere
            } else {
                Route::Only(target)
            },
            None => Route::Flood,
        }
    }
}

/// Why the relay drops a frame that came in on session `from`, if it does.
pub open spec fn refusal(m: RegistryModel, from: u64, bytes: Seq<u8>) -> Option<Rejection> {
    if !m.has_session(from) {
        Some(Rejection::UnknownSession)
    } else if length_verdict(bytes.len(), m.limits.mtu as nat).is_some() {
        Some(Rejection::Frame(length_verdict(bytes.len(), m.limits.mtu as nat).unwrap()))
    } else if bytes.len() < 12 {
        Some(Rejection::Frame(FrameError::MalformedFrame))
    } else {
        None
    }
}

/// The registry once the sender of a frame has been noted as the owner of
/// the frame's source address.
pub open spec fn noted(m: RegistryModel, from: u64, bytes: Seq<u8>, now: u64) -> RegistryModel {
    m.taught(source_of(bytes), from, now)
}

/// The route that a frame takes once its source has been noted.
pub open spec fn route_of(m: RegistryModel, from: u64, bytes: Seq<u8>, now: u64) -> Route {
    route_for(noted(m, from, bytes, now), from, destination_of(bytes), now)
}

/// The registry after a frame came in on session `from`: unchanged where
/// the frame is dropped; else the source is noted and the frame is offered
/// to each session on its route.
pub open spec fn forwarded(m: RegistryModel, from: u64, bytes: Seq<u8>, now: u64) -> RegistryModel {
    if refusal(m, from, bytes).is_some() {
        m
    } else {
        noted(m, from, bytes, now).delivered(
            route_of(m, from, bytes, now),
            from,
            MessageModel::Data(bytes),
        )
    }
}

/// The registry after a message came in on session `from`.
pub open spec fn relayed(m: RegistryModel, from: u64, message: MessageModel, now: u64) -> RegistryModel {
    let heard = m.with_session(from, m.session(from).received(message, now));
    if m.has_session(from) {
        match m.session(from).reaction(message) {
            ReceivedModel::Frame(bytes) => forwarded(heard, from, bytes, now),
            _ => heard,
        }
    } else {
        m
    }
}

/// What the relay reports of a message that came in on session `from`.
pub open spec fn report(m: RegistryModel, from: u64, message: MessageModel, now: u64) -> HandledModel {
    let heard = m.with_session(from, m.session(from).received(message, now));
    if m.has_session(from) {
        match m.session(from).reaction(message) {
            ReceivedModel::Frame(bytes) => match refusal(heard, from, bytes) {
                Some(e) => HandledModel::Dropped(e),
                None => HandledModel::Forwarded(
                    refusing(
                        noted(heard, from, bytes, now).sessions,
                        route_of(heard, from, bytes, now),
                        from,
                    ),
                ),
            },
            ReceivedModel::Reply(reply) => HandledModel::Reply(reply),
            ReceivedModel::Close => HandledModel::Closing,
            ReceivedModel::Nothing => HandledModel::Nothing,
        }
    } else {
        HandledModel::Nothing
    }
}

/// Picks the route of a frame from session `from` to `destination`.
pub fn choose_route(registry: &Registry, from: u64, destination: u64, now: u64) -> (r: Route)
    requires
        registry@.well_formed(),
    ensures
        r == route_for(registry@, from, destination, now),
{
    if address_is_group(destination) {
        Route::Flood
    } else {
        match registry.lookup(destination, now) {
            Some(target) => if target == from {
                Route::Nowhere
            } else {
                Route::Only(target)
            },
            None => Route::Flood,
        }
    }
}

/// Forwards one frame that came in on session `from`. The frame's source
/// address is noted as owned by `from`, then the frame is offered, byte for
/// byte, to each session on its route. A frame that is empty, longer than
/// the MTU or too short to hold its addresses is dropped and the registry
/// stays as it was, ready for the next frame. On success the result names
/// the sessions on the route that did not take the frame.
pub fn forward(registry: &mut Registry, from: u64, bytes: Vec<u8>, now: u64) -> (r: Result<
    Vec<u64>,
    Rejection,
>)
    requires
        old(registry)@.well_formed(),
    ensures
        final(registry)@ == forwarded(old(registry)@, from, bytes@, now),
        final(registry)@.well_formed(),
        match refusal(old(registry)@, from, bytes@) {
            Some(e) => r == Err::<Vec<u64>, Rejection>(e),
            None => r.is_ok() && r.unwrap()@ == refusing(
                noted(old(registry)@, from, bytes@, now).sessions,
                route_of(old(registry)@, from, bytes@, now),
                from,
            ),
        },
{
    if !registry.contains(from) {
        return Err(Rejection::UnknownSession);
    }
    let mtu: usize = registry.limits().mtu;
    match check_length(bytes.len(), mtu) {
        Err(e) => {
            return Err(Rejection::Frame(e));
        },
        Ok(()) => {},
    }
    match parse_addresses(&bytes) {
        Err(e) => Err(Rejection::Frame(e)),
        Ok(addresses) => {
            registry.learn(addresses.source, from, now);
            let route = choose_route(registry, from, addresses.destination, now);
            let message = Message::Data(bytes);
            let refused = registry.deliver(route, from, &message);
            Ok(refused)
        },
    }
}

/// Handles one message that came in on session `from`: the session takes
/// note of it, and a frame is forwarded as in [`forward`].
pub fn handle_message(registry: &mut Registry, from: u64, message: Message, now: u64) -> (r:
    Handled)
    requires
        old(registry)@.well_formed(),
    ensures
        final(registry)@ == relayed(old(registry)@, from, message@, now),
        final(registry)@.well_formed(),
        r@ == report(old(registry)@, from, message@, now),
{
    match registry.receive(from, message, now) {
        Received::Frame(bytes) => match forward(registry, from, bytes, now) {
            Ok(refused) => Handled::Forwarded(refused),
            Err(e) => Handled::Dropped(e),
        },
        Received::Reply(reply) => Handled::Reply(reply),
        Received::Close => Handled::Closing,
        Received::Nothing => Handled::Nothing,
    }
}

/// Bounds rejection: an empty frame and a frame one byte longer than the
/// MTU are both dropped, whatever session they come in on, and the
/// registry is left as it was.
pub proof fn lemma_bounds_rejection(m: RegistryModel, from: u64, bytes: Seq<u8>, now: u64)
    requires
        bytes.len() == 0 || bytes.len() > m.limits.mtu,
    ensures
        refusal(m, from, bytes).is_some(),
        forwarded(m, from, bytes, now) == m,
        m.has_session(from) && bytes.len() == 0 ==> refusal(m, from, bytes) == Some(
            Rejection::Frame(FrameError::MalformedFrame),
        ),
        m.has_session(from) && bytes.len() > m.limits.mtu ==> refusal(m, from, bytes) == Some(
            Rejection::Frame(FrameError::FrameTooLarge),
        ),
{
}

/// Flooding before learning: a frame to an address of which the registry
/// holds no entry, and which is not the frame's own source, is offered to
/// every session but the sender, and the sender's queue is left alone.
pub proof fn lemma_flood_before_learning(m: RegistryModel, from: u64, bytes: Seq<u8>, now: u64)
    requires
        m.well_formed(),
        refusal(m, from, bytes).is_none(),
        !m.knows(destination_of(bytes)),
        source_of(bytes) != destination_of(bytes),
    ensures
        route_of(m, from, bytes, now) == Route::Flood,
        forwarded(m, from, bytes, now).sessions.len() == m.sessions.len(),
        forall|i: int|
            0 <= i < m.sessions.len() ==> #[trigger] forwarded(m, from, bytes, now).sessions[i]
                == if m.sessions[i].id != from {
                m.sessions[i].offered(MessageModel::Data(bytes))
            } else {
                m.sessions[i]
            },
{
    let n = noted(m, from, bytes, now);
    let d = destination_of(bytes);
    if n.knows(d) {
        let k = n.entry_position(d);
        assert(m.learned[k].address == d);
    }
}

/// Learning: once a frame with source address A came in on session S, a
/// frame to A from any other session goes to S alone for as long as A's
/// entry has not expired. The later frame's own source must differ from A
/// (else its sender takes the address over), and A names one station.
pub proof fn lemma_learning(
    m: RegistryModel,
    s: u64,
    first: Seq<u8>,
    learned_at: u64,
    other: u64,
    second: Seq<u8>,
    now: u64,
)
    requires
        m.well_formed(),
        refusal(m, s, first).is_none(),
        other != s,
        refusal(forwarded(m, s, first, learned_at), other, second).is_none(),
        destination_of(second) == source_of(first),
        source_of(second) != source_of(first),
        !is_group(source_of(first)),
        elapsed(now, learned_at) < m.limits.address_ttl,
    ensures
        route_of(forwarded(m, s, first, learned_at), other, second, now) == Route::Only(s),
        forall|id: u64| Route::Only(s).reaches(other, id) == (id == s),
        forall|i: int|
            0 <= i < forwarded(m, s, first, learned_at).sessions.len() ==> #[trigger] forwarded(
                forwarded(m, s, first, learned_at),
                other,
                second,
                now,
            ).sessions[i] == if forwarded(m, s, first, learned_at).sessions[i].id == s {
                forwarded(m, s, first, learned_at).sessions[i].offered(MessageModel::Data(second))
            } else {
                forwarded(m, s, first, learned_at).sessions[i]
            },
{
    let a = source_of(first);
    let n = noted(m, s, first, learned_at);
    let f = forwarded(m, s, first, learned_at);
    lemma_taught(m, a, s, learned_at);
    lemma_delivered(n, route_of(m, s, first, learned_at), s, MessageModel::Data(first));
    let k = n.entry_position(a);
    lemma_taught(f, source_of(second), other, now);
    let g = noted(f, other, second, now);
    assert(g.learned[k] == f.learned[k]);
    lemma_entry_position(g, k);
}

/// Noting an owner keeps the registry well formed and puts the entry where
/// a lookup finds it.
pub proof fn lemma_taught(m: RegistryModel, address: u64, id: u64, now: u64)
    requires
        m.well_formed(),
        m.has_session(id),
    ensures
        m.taught(address, id, now).well_formed(),
        m.taught(address, id, now).sessions == m.sessions,
        m.taught(address, id, now).limits == m.limits,
        m.taught(address, id, now).knows(address),
        m.taught(address, id, now).learned[m.taught(address, id, now).entry_position(address)]
            == (Learned { address, session: id, last_seen: now }),
{
    let t = m.taught(address, id, now);
    let k = if m.knows(address) {
        m.entry_position(address)
    } else {
        m.learned.len() as int
    };
    assert(t.learned[k].address == address);
    assert forall|j: int| 0 <= j < t.learned.len() implies t.has_session(
        #[trigger] t.learned[j].session,
    ) by {
        if j != k {
            assert(m.has_session(m.learned[j].session));
        }
    }
    assert forall|a: int, b: int| 0 <= a < b < t.learned.len() implies t.learned[a].address
        != t.learned[b].address by {
        if m.knows(address) {
            assert(m.learned[a].address != m.learned[b].address);
        } else if b < m.learned.len() {
            assert(m.learned[a].address != m.learned[b].address);
        } else {
            assert(m.learned[a].address != address);
        }
    }
    lemma_entry_position(t, k);
}

/// Offering a message changes no identity and no learned address, and
/// keeps the registry well formed.
pub proof fn lemma_delivered(m: RegistryModel, route: Route, from: u64, message: MessageModel)
    requires
        m.well_formed(),
    ensures
        m.delivered(route, from, message).well_formed(),
        m.delivered(route, from, message).learned == m.learned,
        forall|id: u64| m.delivered(route, from, message).has_session(id) == m.has_session(id),
{
    let d = m.delivered(route, from, message);
    assert forall|id: u64| d.has_session(id) == m.has_session(id) by {
        if m.has_session(id) {
            let i = m.position(id);
            assert(d.sessions[i].id == id);
        }
        if d.has_session(id) {
            let i = d.position(id);
            assert(m.sessions[i].id == id);
        }
    }
    assert forall|a: int, b: int| 0 <= a < b < d.sessions.len() implies d.sessions[a].id
        != d.sessions[b].id by {
        assert(m.sessions[a].id != m.sessions[b].id);
    }
    assert forall|k: int| 0 <= k < d.learned.len() implies d.has_session(
        #[trigger] d.learned[k].session,
    ) by {
        assert(m.has_session(m.learned[k].session));
    }
    assert forall|i: int| 0 <= i < d.sessions.len() implies (#[trigger] d.sessions[i]).well_formed() by {
        assert(m.sessions[i].well_formed());
    }
}

/// Isolation: what a frame does to a session depends on that session
/// alone. Two registries that agree on the session at one place agree on
/// it after the same delivery, however full the queues of the others are;
/// and a session on the route that is active and has room queues the
/// frame behind what it held.
pub proof fn lemma_isolation(
    a: RegistryModel,
    b: RegistryModel,
    i: int,
    route: Route,
    from: u64,
    message: MessageModel,
)
    requires
        0 <= i < a.sessions.len(),
        0 <= i < b.sessions.len(),
        a.sessions[i] == b.sessions[i],
    ensures
        a.delivered(route, from, message).sessions[i] == b.delivered(
            route,
            from,
            message,
        ).sessions[i],
        route.reaches(from, a.sessions[i].id) && a.sessions[i].accepts() ==> a.delivered(
            route,
            from,
            message,
        ).sessions[i].queue == a.sessions[i].queue.push(message),
{
}

/// Order at the relay: two frames that come in one after the other on the
/// same session, and both go to a session that has room for them, are
/// queued there in the order in which they came in, behind what was
/// queued before.
pub proof fn lemma_relay_keeps_order(
    m: RegistryModel,
    from: u64,
    first: Seq<u8>,
    second: Seq<u8>,
    now: u64,
    later: u64,
    i: int,
)
    requires
        m.well_formed(),
        refusal(m, from, first).is_none(),
        refusal(m, from, second).is_none(),
        0 <= i < m.sessions.len(),
        m.sessions[i].state == SessionState::Active,
        m.sessions[i].queue.len() + 2 <= m.sessions[i].capacity,
        route_of(m, from, first, now).reaches(from, m.sessions[i].id),
        route_of(forwarded(m, from, first, now), from, second, later).reaches(
            from,
            m.sessions[i].id,
        ),
    ensures
        forwarded(forwarded(m, from, first, now), from, second, later).sessions[i].queue
            == m.sessions[i].queue.push(MessageModel::Data(first)).push(MessageModel::Data(second)),
{
    let n = noted(m, from, first, now);
    let first_route = route_of(m, from, first, now);
    let f = forwarded(m, from, first, now);
    lemma_taught(m, source_of(first), from, now);
    assert(f == n.delivered(first_route, from, MessageModel::Data(first)));
    assert(f.sessions[i] == m.sessions[i].offered(MessageModel::Data(first)));
    assert(f.has_session(from)) by {
        lemma_delivered(n, first_route, from, MessageModel::Data(first));
        assert(n.has_session(from));
    }
    assert(f.well_formed()) by {
        lemma_delivered(n, first_route, from, MessageModel::Data(first));
    }
    lemma_taught(f, source_of(second), from, later);
    let g = noted(f, from, second, later);
    assert(g.sessions[i] == f.sessions[i]);
    assert(refusal(f, from, second).is_none());
}

} // verus!
