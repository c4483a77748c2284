//! The relay's table of sessions and of the link-layer addresses learned
//! from their traffic.

use vstd::prelude::*;
use crate::frame::DEFAULT_MTU;
use crate::session::{
    elapsed, elapsed_since, Keepalive, Message, MessageModel, Received, ReceivedModel, Session,
    SessionModel,
    SessionState, DEFAULT_KEEPALIVE_INTERVAL_MS, DEFAULT_QUEUE_CAPACITY,
};

verus! {

/// Milliseconds after which a learned address that was not seen again expires.
pub const DEFAULT_ADDRESS_TTL_MS: u64 = 300_000;

/// Milliseconds without traffic after which the relay evicts a session.
pub const DEFAULT_IDLE_TIMEOUT_MS: u64 = 600_000;

/// The limits that a relay runs with.
#[derive(Clone, Copy, Debug, PartialEq, Eq, Structural)]
pub struct Limits {
    /// Largest frame, in bytes, that the relay forwards.
    pub mtu: usize,
    /// Most messages that a session queues.
    pub queue_capacity: usize,
    /// Milliseconds of silence before a session pings.
    pub keepalive_interval: u64,
    /// Milliseconds for which a learned address stays valid.
    pub address_ttl: u64,
    /// Milliseconds without traffic after which a session is evicted.
    pub idle_timeout: u64,
}

impl Default for Limits {
    fn default() -> (r: Limits)
        ensures
            r == (Limits {
                mtu: 1500,
                queue_capacity: 256,
                keepalive_interval: 15_000,
                address_ttl: 300_000,
                idle_timeout: 600_000,
            }),
    {
        Limits {
            mtu: DEFAULT_MTU,
            queue_capacity: DEFAULT_QUEUE_CAPACITY,
            keepalive_interval: DEFAULT_KEEPALIVE_INTERVAL_MS,
            address_ttl: DEFAULT_ADDRESS_TTL_MS,
            idle_timeout: DEFAULT_IDLE_TIMEOUT_MS,
        }
    }
}

/// An address and the session that last sent a frame from it.
#[derive(Clone, Copy, Debug, PartialEq, Eq, Structural)]
pub struct Learned {
    pub address: u64,
    pub session: u64,
    pub last_seen: u64,
}

/// Where a frame goes.
#[derive(Clone, Copy, Debug, PartialEq, Eq, Structural)]
pub enum Route {
    /// To every session but the sender.
    Flood,
    /// To one session, unless it is the sender.
    Only(u64),
    /// To nobody.
    Nowhere,
}

impl Route {
    /// Whether a frame from session `from` on this route goes to session `id`.
    pub open spec fn reaches(self, from: u64, id: u64) -> bool {
        match self {
            Route::Flood => id != from,
            Route::Only(target) => id == target && id != from,
            Route::Nowhere => false,
        }
    }

    /// Computes [`Route::reaches`].
    pub fn includes(&self, from: u64, id: u64) -> (r: bool)
        ensures
            r == self.reaches(from, id),
    {
        match self {
            Route::Flood => id != from,
            Route::Only(target) => id == *target && id != from,
            Route::Nowhere => false,
        }
    }
}

/// The sessions and learned addresses of a relay.
#[derive(Debug)]
pub struct Registry {
    sessions: Vec<Session>,
    learned: Vec<Learned>,
    limits: Limits,
}

/// What a registry is: its sessions in the order in which they joined, and
/// the learned addresses.
pub struct RegistryModel {
    pub sessions: Seq<SessionModel>,
    pub learned: Seq<Learned>,
    pub limits: Limits,
}

/// The entries that `keep` holds of, in their order.
pub open spec fn retained(entries: Seq<Learned>, keep: spec_fn(Learned) -> bool) -> Seq<Learned>
    decreases entries.len(),
{
    if entries.len() == 0 {
        entries
    } else if keep(entries.last()) {
        retained(entries.drop_last(), keep).push(entries.last())
    } else {
        retained(entries.drop_last(), keep)
    }
}

/// The learned entries without those of session `id`, in their order.
pub open spec fn forget(entries: Seq<Learned>, id: u64) -> Seq<Learned> {
    retained(entries, |e: Learned| e.session != id)
}

/// The learned entries that were seen less than `ttl` before `now`, in their order.
pub open spec fn unexpired(entries: Seq<Learned>, now: u64, ttl: u64) -> Seq<Learned> {
    retained(entries, |e: Learned| elapsed(now, e.last_seen) < ttl)
}

/// The addresses that session `id` owns at `now`, in the order of their entries.
pub open spec fn addresses_of(entries: Seq<Learned>, id: u64, now: u64, ttl: u64) -> Seq<u64>
    decreases entries.len(),
{
    if entries.len() == 0 {
        Seq::empty()
    } else if entries.last().session == id && elapsed(now, entries.last().last_seen) < ttl {
        addresses_of(entries.drop_last(), id, now, ttl).push(entries.last().address)
    } else {
        addresses_of(entries.drop_last(), id, now, ttl)
    }
}

/// The identities of the sessions that were idle for at least `timeout`.
pub open spec fn idle_ids(sessions: Seq<SessionModel>, now: u64, timeout: u64) -> Seq<u64>
    decreases sessions.len(),
{
    if sessions.len() == 0 {
        Seq::empty()
    } else if sessions.last().idle(now, timeout) {
        idle_ids(sessions.drop_last(), now, timeout).push(sessions.last().id)
    } else {
        idle_ids(sessions.drop_last(), now, timeout)
    }
}

/// The identities of the sessions on the route that do not take a message now.
pub open spec fn refusing(sessions: Seq<SessionModel>, route: Route, from: u64) -> Seq<u64>
    decreases sessions.len(),
{
    if sessions.len() == 0 {
        Seq::empty()
    } else if route.reaches(from, sessions.last().id) && !sessions.last().accepts() {
        refusing(sessions.drop_last(), route, from).push(sessions.last().id)
    } else {
        refusing(sessions.drop_last(), route, from)
    }
}

impl RegistryModel {
    /// Whether a session with this identity is present.
    pub open spec fn has_session(self, id: u64) -> bool {
        exists|i: int| 0 <= i < self.sessions.len() && #[trigger] self.sessions[i].id == id
    }

    /// The place of the session with this identity.
    pub open spec fn position(self, id: u64) -> int {
        choose|i: int| 0 <= i < self.sessions.len() && #[trigger] self.sessions[i].id == id
    }

    /// Whether an entry for this address is present, fresh or stale.
    pub open spec fn knows(self, address: u64) -> bool {
        exists|k: int| 0 <= k < self.learned.len() && #[trigger] self.learned[k].address == address
    }

    /// The place of the entry for this address.
    pub open spec fn entry_position(self, address: u64) -> int {
        choose|k: int| 0 <= k < self.learned.len() && #[trigger] self.learned[k].address == address
    }

    /// The session that owns `address` at `now`: the one that last sent a
    /// frame from it, unless that was `address_ttl` or longer ago.
    pub open spec fn owner(self, address: u64, now: u64) -> Option<u64> {
        if self.knows(address) && elapsed(now, self.learned[self.entry_position(address)].last_seen)
            < self.limits.address_ttl {
            Some(self.learned[self.entry_position(address)].session)
        } else {
            None
        }
    }

    /// No two sessions share an identity, no two entries an address, every
    /// entry names a session that is present, and no queue is over its capacity.
    pub open spec fn well_formed(self) -> bool {
        &&& forall|i: int, j: int|
            0 <= i < j < self.sessions.len() ==> self.sessions[i].id != self.sessions[j].id
        &&& forall|k: int, l: int|
            0 <= k < l < self.learned.len() ==> self.learned[k].address != self.learned[l].address
        &&& forall|k: int|
            0 <= k < self.learned.len() ==> self.has_session(#[trigger] self.learned[k].session)
        &&& forall|i: int| 0 <= i < self.sessions.len() ==> (#[trigger] self.sessions[i]).well_formed()
    }

    /// The session that joins under `id` at `now`.
    pub open spec fn newcomer(self, id: u64, peer_address: Seq<char>, now: u64) -> SessionModel {
        SessionModel {
            id,
            peer_address,
            state: SessionState::Active,
            accepted: true,
            queue: Seq::empty(),
            capacity: self.limits.queue_capacity as nat,
            keepalive_interval: self.limits.keepalive_interval,
            last_activity_at: now,
            last_sent_at: now,
            ping_sent_at: None,
        }
    }

    /// The registry after a session joined under `id`; unchanged where the
    /// identity is taken.
    pub open spec fn joined(self, id: u64, peer_address: Seq<char>, now: u64) -> RegistryModel {
        if self.has_session(id) {
            self
        } else {
            RegistryModel { sessions: self.sessions.push(self.newcomer(id, peer_address, now)), ..self }
        }
    }

    /// The registry after session `id` left: the session is gone, and so is
    /// every address learned from it.
    pub open spec fn without(self, id: u64) -> RegistryModel {
        if self.has_session(id) {
            RegistryModel {
                sessions: self.sessions.remove(self.position(id)),
                learned: forget(self.learned, id),
                ..self
            }
        } else {
            self
        }
    }

    /// The registry after each of the sessions `ids` left, one after the other.
    pub open spec fn without_all(self, ids: Seq<u64>) -> RegistryModel
        decreases ids.len(),
    {
        if ids.len() == 0 {
            self
        } else {
            self.without_all(ids.drop_last()).without(ids.last())
        }
    }

    /// The registry after a frame from `address` came in on session `id` at
    /// `now`: the address now belongs to that session, whoever had it
    /// before. Unchanged where no such session is present.
    pub open spec fn taught(self, address: u64, id: u64, now: u64) -> RegistryModel {
        let entry = Learned { address, session: id, last_seen: now };
        if !self.has_session(id) {
            self
        } else if self.knows(address) {
            RegistryModel {
                learned: self.learned.update(self.entry_position(address), entry),
                ..self
            }
        } else {
            RegistryModel { learned: self.learned.push(entry), ..self }
        }
    }

    /// The session with this identity.
    pub open spec fn session(self, id: u64) -> SessionModel
        recommends
            self.has_session(id),
    {
        self.sessions[self.position(id)]
    }

    /// The registry with `session` in the place of the session `id`;
    /// unchanged where no such session is present.
    pub open spec fn with_session(self, id: u64, session: SessionModel) -> RegistryModel {
        if self.has_session(id) {
            RegistryModel { sessions: self.sessions.update(self.position(id), session), ..self }
        } else {
            self
        }
    }

    /// The registry without the learned addresses that have expired at `now`.
    pub open spec fn swept(self, now: u64) -> RegistryModel {
        RegistryModel { learned: unexpired(self.learned, now, self.limits.address_ttl), ..self }
    }

    /// The registry after every session that was idle for the idle timeout
    /// at `now` left.
    pub open spec fn evicted(self, now: u64) -> RegistryModel {
        self.without_all(idle_ids(self.sessions, now, self.limits.idle_timeout))
    }

    /// The registry after `message` from session `from` was offered to each
    /// session on `route`. What becomes of a session depends on that
    /// session alone.
    pub open spec fn delivered(self, route: Route, from: u64, message: MessageModel) -> RegistryModel {
        RegistryModel {
            sessions: Seq::new(
                self.sessions.len(),
                |i: int|
                    if route.reaches(from, self.sessions[i].id) {
                        self.sessions[i].offered(message)
                    } else {
                        self.sessions[i]
                    },
            ),
            ..self
        }
    }
}

impl View for Registry {
    type V = RegistryModel;

    closed spec fn view(&self) -> RegistryModel {
        RegistryModel {
            sessions: self.sessions@.map_values(|s: Session| s@),
            learned: self.learned@,
            limits: self.limits,
        }
    }
}

/// In a well-formed registry the session found at a place is the one that
/// [`RegistryModel::position`] names for its identity.
pub proof fn lemma_position(m: RegistryModel, i: int)
    requires
        m.well_formed(),
        0 <= i < m.sessions.len(),
    ensures
        m.has_session(m.sessions[i].id),
        m.position(m.sessions[i].id) == i,
{
    let id = m.sessions[i].id;
    let p = m.position(id);
    assert(0 <= p < m.sessions.len() && m.sessions[p].id == id);
    if p < i {
        assert(m.sessions[p].id != m.sessions[i].id);
    } else if i < p {
        assert(m.sessions[i].id != m.sessions[p].id);
    }
}

/// In a well-formed registry the entry found at a place is the one that
/// [`RegistryModel::entry_position`] names for its address.
pub proof fn lemma_entry_position(m: RegistryModel, k: int)
    requires
        m.well_formed(),
        0 <= k < m.learned.len(),
    ensures
        m.knows(m.learned[k].address),
        m.entry_position(m.learned[k].address) == k,
{
    let a = m.learned[k].address;
    let p = m.entry_position(a);
    assert(0 <= p < m.learned.len() && m.learned[p].address == a);
    if p < k {
        assert(m.learned[p].address != m.learned[k].address);
    } else if k < p {
        assert(m.learned[k].address != m.learned[p].address);
    }
}

/// What [`retained`] keeps: each kept entry was there before and `keep`
/// holds of it, each entry of which `keep` holds is kept, and entries with
/// different addresses stay so.
pub proof fn lemma_retained(entries: Seq<Learned>, keep: spec_fn(Learned) -> bool)
    ensures
        retained(entries, keep).len() <= entries.len(),
        forall|k: int|
            0 <= k < retained(entries, keep).len() ==> keep(#[trigger] retained(entries, keep)[k])
                && entries.contains(retained(entries, keep)[k]),
        forall|j: int|
            0 <= j < entries.len() && keep(#[trigger] entries[j]) ==> retained(
                entries,
                keep,
            ).contains(entries[j]),
        (forall|k: int, l: int|
            0 <= k < l < entries.len() ==> entries[k].address != entries[l].address) ==> (forall|
            k: int,
            l: int,
        |
            0 <= k < l < retained(entries, keep).len() ==> retained(entries, keep)[k].address
                != retained(entries, keep)[l].address),
    decreases entries.len(),
{
    if entries.len() > 0 {
        let front = entries.drop_last();
        let kept = retained(front, keep);
        lemma_retained(front, keep);
        let out = retained(entries, keep);
        assert forall|k: int| 0 <= k < out.len() implies keep(#[trigger] out[k])
            && entries.contains(out[k]) by {
            if k < kept.len() {
                let j = choose|j: int| 0 <= j < front.len() && front[j] == kept[k];
                assert(entries[j] == out[k]);
            } else {
                assert(entries[entries.len() - 1] == out[k]);
            }
        }
        assert forall|j: int| 0 <= j < entries.len() && keep(#[trigger] entries[j]) implies out.contains(
            entries[j],
        ) by {
            if j < front.len() {
                assert(front[j] == entries[j]);
                let k = choose|k: int| 0 <= k < kept.len() && kept[k] == front[j];
                assert(out[k] == entries[j]);
            } else {
                assert(out[out.len() - 1] == entries[j]);
            }
        }
        if forall|k: int, l: int|
            0 <= k < l < entries.len() ==> entries[k].address != entries[l].address {
            assert forall|k: int, l: int| 0 <= k < l < out.len() implies out[k].address
                != out[l].address by {
                assert forall|a: int, b: int| 0 <= a < b < front.len() implies front[a].address
                    != front[b].address by {
                    assert(entries[a].address != entries[b].address);
                }
                if l < kept.len() {
                    assert(kept[k].address != kept[l].address);
                } else {
                    let j = choose|j: int| 0 <= j < front.len() && front[j] == kept[k];
                    assert(entries[j].address != entries[entries.len() - 1].address);
                }
            }
        }
    }
}

/// Sweeping expired entries out changes no lookup made at the time of the
/// sweep, and keeps the registry well formed.
pub proof fn lemma_swept(m: RegistryModel, now: u64)
    requires
        m.well_formed(),
    ensures
        m.swept(now).well_formed(),
        forall|address: u64| #[trigger] m.swept(now).owner(address, now) == m.owner(address, now),
        forall|k: int|
            0 <= k < m.swept(now).learned.len() ==> elapsed(
                now,
                (#[trigger] m.swept(now).learned[k]).last_seen,
            ) < m.limits.address_ttl,
{
    let w = m.swept(now);
    let keep = |e: Learned| elapsed(now, e.last_seen) < m.limits.address_ttl;
    lemma_retained(m.learned, keep);
    assert(w.learned == retained(m.learned, keep));
    assert forall|k: int| 0 <= k < w.learned.len() implies w.has_session(
        #[trigger] w.learned[k].session,
    ) by {
        let e = w.learned[k];
        assert(m.learned.contains(e));
        let j = choose|j: int| 0 <= j < m.learned.len() && m.learned[j] == e;
        assert(m.has_session(m.learned[j].session));
    }
    assert forall|k: int| 0 <= k < w.learned.len() implies elapsed(
        now,
        (#[trigger] w.learned[k]).last_seen,
    ) < m.limits.address_ttl by {
        assert(keep(w.learned[k]));
    }
    assert forall|address: u64| #[trigger] w.owner(address, now) == m.owner(address, now) by {
        if w.knows(address) {
            let k = w.entry_position(address);
            let e = w.learned[k];
            assert(keep(e));
            assert(m.learned.contains(e));
            let j = choose|j: int| 0 <= j < m.learned.len() && m.learned[j] == e;
            lemma_entry_position(m, j);
        } else if m.knows(address) {
            let j = m.entry_position(address);
            if keep(m.learned[j]) {
                assert(w.learned.contains(m.learned[j]));
                let k = choose|k: int| 0 <= k < w.learned.len() && w.learned[k] == m.learned[j];
                assert(w.learned[k].address == address);
            }
        }
    }
}

/// A session that left is in neither table, and leaving keeps the
/// registry well formed.
pub proof fn lemma_without(m: RegistryModel, id: u64)
    requires
        m.well_formed(),
    ensures
        m.without(id).well_formed(),
        !m.without(id).has_session(id),
        forall|k: int|
            0 <= k < m.without(id).learned.len() ==> (#[trigger] m.without(id).learned[k]).session
                != id,
        forall|other: u64| other != id ==> m.without(id).has_session(other) == m.has_session(other),
        forall|i: int|
            0 <= i < m.without(id).sessions.len() ==> m.sessions.contains(
                #[trigger] m.without(id).sessions[i],
            ),
{
    let w = m.without(id);
    if m.has_session(id) {
        let p = m.position(id);
        lemma_retained(m.learned, |e: Learned| e.session != id);
        assert forall|other: u64| other != id implies w.has_session(other) == m.has_session(
            other,
        ) by {
            if m.has_session(other) {
                let i = m.position(other);
                if i < p {
                    assert(w.sessions[i].id == other);
                } else {
                    assert(w.sessions[i - 1].id == other);
                }
            }
            if w.has_session(other) {
                let i = w.position(other);
                if i < p {
                    assert(m.sessions[i].id == other);
                } else {
                    assert(m.sessions[i + 1].id == other);
                }
            }
        }
        if w.has_session(id) {
            let i = w.position(id);
            if i < p {
                assert(m.sessions[i].id != m.sessions[p].id);
            } else {
                assert(m.sessions[p].id != m.sessions[i + 1].id);
            }
        }
        assert forall|i: int| 0 <= i < w.sessions.len() implies m.sessions.contains(
            #[trigger] w.sessions[i],
        ) && w.sessions[i].well_formed() by {
            if i < p {
                assert(m.sessions[i] == w.sessions[i]);
            } else {
                assert(m.sessions[i + 1] == w.sessions[i]);
            }
        }
        assert forall|i: int, j: int| 0 <= i < j < w.sessions.len() implies w.sessions[i].id
            != w.sessions[j].id by {
            let a = if i < p { i } else { i + 1 };
            let b = if j < p { j } else { j + 1 };
            assert(m.sessions[a].id != m.sessions[b].id);
        }
        assert forall|k: int| 0 <= k < w.learned.len() implies w.has_session(
            #[trigger] w.learned[k].session,
        ) by {
            let e = w.learned[k];
            let j = choose|j: int| 0 <= j < m.learned.len() && m.learned[j] == e;
            assert(m.has_session(m.learned[j].session));
        }
    } else {
        assert forall|k: int| 0 <= k < m.learned.len() implies (#[trigger] m.learned[k]).session
            != id by {
            assert(m.has_session(m.learned[k].session));
        }
    }
}

impl Registry {
    /// An empty registry with the given limits.
    pub fn new(limits: Limits) -> (r: Registry)
        ensures
            r@ == (RegistryModel { sessions: Seq::empty(), learned: Seq::empty(), limits }),
            r@.well_formed(),
    {
        let r = Registry { sessions: Vec::new(), learned: Vec::new(), limits };
        assert(r@.sessions =~= Seq::empty());
        r
    }

    /// The limits that the registry runs with.
    pub fn limits(&self) -> (r: Limits)
        ensures
            r == self@.limits,
    {
        self.limits
    }

    /// The number of sessions.
    pub fn session_count(&self) -> (r: usize)
        ensures
            r == self@.sessions.len(),
    {
        self.sessions.len()
    }

    /// The number of learned addresses, fresh and stale.
    pub fn learned_count(&self) -> (r: usize)
        ensures
            r == self@.learned.len(),
    {
        self.learned.len()
    }

    /// The place of the session with this identity, if it is present.
    pub fn find_session(&self, id: u64) -> (r: Option<usize>)
        requires
            self@.well_formed(),
        ensures
            r.is_some() == self@.has_session(id),
            r.is_some() ==> r.unwrap() == self@.position(id),
    {
        let mut i: usize = 0;
        while i < self.sessions.len()
            invariant
                i <= self.sessions.len(),
                self@.well_formed(),
                forall|j: int| 0 <= j < i ==> (#[trigger] self@.sessions[j]).id != id,
            decreases self.sessions.len() - i,
        {
            if self.sessions[i].id() == id {
                proof {
                    lemma_position(self@, i as int);
                }
                return Some(i);
            }
            i += 1;
        }
        None
    }

    /// Whether a session with this identity is present.
    pub fn contains(&self, id: u64) -> (r: bool)
        requires
            self@.well_formed(),
        ensures
            r == self@.has_session(id),
    {
        self.find_session(id).is_some()
    }

    /// The identities of the sessions, in the order in which they joined.
    pub fn session_ids(&self) -> (r: Vec<u64>)
        ensures
            r@ == self@.sessions.map_values(|s: SessionModel| s.id),
    {
        let mut out: Vec<u64> = Vec::new();
        let mut i: usize = 0;
        while i < self.sessions.len()
            invariant
                i <= self.sessions.len(),
                out@ == self@.sessions.take(i as int).map_values(|s: SessionModel| s.id),
            decreases self.sessions.len() - i,
        {
            out.push(self.sessions[i].id());
            assert(self@.sessions.take(i + 1).map_values(|s: SessionModel| s.id)
                =~= self@.sessions.take(i as int).map_values(|s: SessionModel| s.id).push(
                self@.sessions[i as int].id,
            ));
            i += 1;
        }
        assert(self@.sessions.take(self@.sessions.len() as int) =~= self@.sessions);
        out
    }

    fn find_entry(&self, address: u64) -> (r: Option<usize>)
        requires
            self@.well_formed(),
        ensures
            r.is_some() == self@.knows(address),
            r.is_some() ==> r.unwrap() == self@.entry_position(address),
    {
        let mut k: usize = 0;
        while k < self.learned.len()
            invariant
                k <= self.learned.len(),
                self@.well_formed(),
                forall|j: int| 0 <= j < k ==> (#[trigger] self@.learned[j]).address != address,
            decreases self.learned.len() - k,
        {
            if self.learned[k].address == address {
                proof {
                    lemma_entry_position(self@, k as int);
                }
                return Some(k);
            }
            k += 1;
        }
        None
    }

    /// A session joins: it is active, its queue is empty, and no address is
    /// learned from it yet. Returns whether it joined; an identity that is
    /// taken is refused and nothing changes.
    pub fn join(&mut self, id: u64, peer_address: String, now: u64) -> (r: bool)
        requires
            old(self)@.well_formed(),
        ensures
            r == !old(self)@.has_session(id),
            final(self)@ == old(self)@.joined(id, peer_address@, now),
            final(self)@.well_formed(),
    {
        if self.contains(id) {
            return false;
        }
        let session = Session::accept(
            id,
            peer_address,
            self.limits.queue_capacity,
            self.limits.keepalive_interval,
            now,
        );
        self.sessions.push(session);
        proof {
            let before = old(self)@;
            let after = self@;
            assert(after.sessions =~= before.sessions.push(before.newcomer(id, peer_address@, now)));
            assert forall|k: int| 0 <= k < after.learned.len() implies after.has_session(
                #[trigger] after.learned[k].session,
            ) by {
                let i = before.position(before.learned[k].session);
                assert(before.has_session(before.learned[k].session));
                assert(after.sessions[i].id == after.learned[k].session);
            }
        }
        true
    }

    /// A session leaves: it is taken out of the table of sessions and every
    /// address learned from it is forgotten, in one step. The session is
    /// handed back closed, and what it had queued is discarded. `None`
    /// where no such session is present.
    pub fn leave(&mut self, id: u64) -> (r: Option<Session>)
        requires
            old(self)@.well_formed(),
        ensures
            r.is_some() == old(self)@.has_session(id),
            r.is_some() ==> r.unwrap()@ == old(self)@.session(id).shut(),
            final(self)@ == old(self)@.without(id),
            final(self)@.well_formed(),
            !final(self)@.has_session(id),
            forall|k: int|
                0 <= k < final(self)@.learned.len() ==> (#[trigger] final(self)@.learned[k]).session
                    != id,
    {
        proof {
            lemma_without(self@, id);
        }
        match self.find_session(id) {
            None => None,
            Some(i) => {
                let mut gone = self.sessions.remove(i);
                gone.closed();
                let mut kept: Vec<Learned> = Vec::new();
                let mut k: usize = 0;
                while k < self.learned.len()
                    invariant
                        k <= self.learned.len(),
                        self.learned == old(self).learned,
                        kept@ == forget(self.learned@.take(k as int), id),
                    decreases self.learned.len() - k,
                {
                    let e = self.learned[k];
                    assert(self.learned@.take(k + 1).drop_last() =~= self.learned@.take(k as int));
                    if e.session != id {
                        kept.push(e);
                    }
                    k += 1;
                }
                assert(self.learned@.take(self.learned@.len() as int) =~= self.learned@);
                self.learned = kept;
                assert(self@.sessions =~= old(self)@.sessions.remove(i as int));
                Some(gone)
            },
        }
    }

    /// Notes that a frame from `address` came in on session `id`: the
    /// address now belongs to that session, whoever had it before. Returns
    /// whether the session is present; where it is not, nothing changes.
    pub fn learn(&mut self, address: u64, id: u64, now: u64) -> (r: bool)
        requires
            old(self)@.well_formed(),
        ensures
            r == old(self)@.has_session(id),
            final(self)@ == old(self)@.taught(address, id, now),
            final(self)@.well_formed(),
            r ==> final(self)@.owner(address, now) == if final(self)@.limits.address_ttl > 0 {
                Some(id)
            } else {
                None
            },
    {
        if !self.contains(id) {
            return false;
        }
        let entry = Learned { address, session: id, last_seen: now };
        match self.find_entry(address) {
            Some(k) => {
                self.learned.set(k, entry);
                proof {
                    let after = self@;
                    assert(after.sessions == old(self)@.sessions);
                    assert forall|j: int| 0 <= j < after.learned.len() implies after.has_session(
                        #[trigger] after.learned[j].session,
                    ) by {
                        if j != k {
                            assert(old(self)@.has_session(old(self)@.learned[j].session));
                        }
                    }
                    assert forall|a: int, b: int| 0 <= a < b < after.learned.len() implies after.learned[a].address
                        != after.learned[b].address by {
                        assert(old(self)@.learned[a].address != old(self)@.learned[b].address);
                    }
                    lemma_entry_position(after, k as int);
                }
            },
            None => {
                self.learned.push(entry);
                proof {
                    let after = self@;
                    assert(after.sessions == old(self)@.sessions);
                    assert forall|j: int| 0 <= j < after.learned.len() implies after.has_session(
                        #[trigger] after.learned[j].session,
                    ) by {
                        if j < old(self)@.learned.len() {
                            assert(old(self)@.has_session(old(self)@.learned[j].session));
                        }
                    }
                    assert forall|a: int, b: int| 0 <= a < b < after.learned.len() implies after.learned[a].address
                        != after.learned[b].address by {
                        if b < old(self)@.learned.len() {
                            assert(old(self)@.learned[a].address != old(self)@.learned[b].address);
                        } else {
                            assert(old(self)@.learned[a].address != address);
                        }
                    }
                    lemma_entry_position(after, after.learned.len() - 1);
                }
            },
        }
        true
    }

    /// The session that owns `address` at `now`, if the address was learned
    /// and has not expired.
    pub fn lookup(&self, address: u64, now: u64) -> (r: Option<u64>)
        requires
            self@.well_formed(),
        ensures
            r == self@.owner(address, now),
    {
        match self.find_entry(address) {
            None => None,
            Some(k) => {
                let e = self.learned[k];
                if elapsed_since(now, e.last_seen) < self.limits.address_ttl {
                    Some(e.session)
                } else {
                    None
                }
            },
        }
    }

    /// Offers `message` from session `from` to each session on `route`. A
    /// session that is active and has room queues it behind what it holds;
    /// one that does not is passed over and named in the result, and every
    /// other session is served all the same.
    pub fn deliver(&mut self, route: Route, from: u64, message: &Message) -> (r: Vec<u64>)
        requires
            old(self)@.well_formed(),
        ensures
            final(self)@ == old(self)@.delivered(route, from, message@),
            final(self)@.well_formed(),
            r@ == refusing(old(self)@.sessions, route, from),
    {
        let ghost before = self@;
        let mut refused: Vec<u64> = Vec::new();
        let mut i: usize = 0;
        while i < self.sessions.len()
            invariant
                i <= self.sessions.len(),
                before.well_formed(),
                before == old(self)@,
                self@.sessions.len() == before.sessions.len(),
                self@.learned == before.learned,
                self@.limits == before.limits,
                forall|j: int|
                    0 <= j < i ==> #[trigger] self@.sessions[j] == before.delivered(
                        route,
                        from,
                        message@,
                    ).sessions[j],
                forall|j: int|
                    i <= j < self.sessions.len() ==> #[trigger] self@.sessions[j]
                        == before.sessions[j],
                refused@ == refusing(before.sessions.take(i as int), route, from),
            decreases self.sessions.len() - i,
        {
            let ghost at_start = self@;
            let id: u64 = self.sessions[i].id();
            assert(before.sessions.take(i + 1).drop_last() =~= before.sessions.take(i as int));
            assert(self@.sessions[i as int] == before.sessions[i as int]);
            assert(before.sessions[i as int].well_formed());
            if route.includes(from, id) {
                let copy = message.duplicate();
                let outcome = self.sessions[i].send(copy);
                if outcome.is_err() {
                    refused.push(id);
                }
            }
            assert(forall|j: int|
                0 <= j < self.sessions.len() && j != i ==> #[trigger] self@.sessions[j]
                    == at_start.sessions[j]);
            i += 1;
        }
        assert(before.sessions.take(before.sessions.len() as int) =~= before.sessions);
        assert(self@.sessions =~= before.delivered(route, from, message@).sessions);
        proof {
            let after = self@;
            assert forall|a: int, b: int| 0 <= a < b < after.sessions.len() implies after.sessions[a].id
                != after.sessions[b].id by {
                assert(before.sessions[a].id != before.sessions[b].id);
            }
            assert forall|k: int| 0 <= k < after.learned.len() implies after.has_session(
                #[trigger] after.learned[k].session,
            ) by {
                assert(before.has_session(before.learned[k].session));
                let p = before.position(before.learned[k].session);
                assert(after.sessions[p].id == before.sessions[p].id);
            }
            assert forall|j: int| 0 <= j < after.sessions.len() implies (#[trigger] after.sessions[j]).well_formed() by {
                assert(before.sessions[j].well_formed());
            }
        }
        refused
    }
}

/// Putting a session with the same identity and a queue within its
/// capacity in the place of another keeps the registry well formed.
pub proof fn lemma_with_session(m: RegistryModel, id: u64, session: SessionModel)
    requires
        m.well_formed(),
        session.id == id,
        session.well_formed(),
    ensures
        m.with_session(id, session).well_formed(),
        forall|other: u64| m.with_session(id, session).has_session(other) == m.has_session(other),
{
    let w = m.with_session(id, session);
    if m.has_session(id) {
        let p = m.position(id);
        assert forall|other: u64| w.has_session(other) == m.has_session(other) by {
            if m.has_session(other) {
                let i = m.position(other);
                assert(w.sessions[i].id == other);
            }
            if w.has_session(other) {
                let i = w.position(other);
                assert(m.sessions[i].id == other);
            }
        }
        assert forall|i: int, j: int| 0 <= i < j < w.sessions.len() implies w.sessions[i].id
            != w.sessions[j].id by {
            assert(m.sessions[i].id != m.sessions[j].id);
        }
        assert forall|k: int| 0 <= k < w.learned.len() implies w.has_session(
            #[trigger] w.learned[k].session,
        ) by {
            assert(m.has_session(m.learned[k].session));
        }
        assert forall|i: int| 0 <= i < w.sessions.len() implies (#[trigger] w.sessions[i]).well_formed() by {
            if i != p {
                assert(m.sessions[i].well_formed());
            }
        }
    }
}

/// After several sessions left, exactly the others are still present, the
/// registry is well formed, and no learned address names one that left.
pub proof fn lemma_without_all(m: RegistryModel, ids: Seq<u64>)
    requires
        m.well_formed(),
    ensures
        m.without_all(ids).well_formed(),
        m.without_all(ids).limits == m.limits,
        forall|id: u64|
            #[trigger] m.without_all(ids).has_session(id) == (m.has_session(id) && !ids.contains(id)),
        forall|k: int|
            0 <= k < m.without_all(ids).learned.len() ==> !ids.contains(
                #[trigger] m.without_all(ids).learned[k].session,
            ),
        forall|i: int|
            0 <= i < m.without_all(ids).sessions.len() ==> m.sessions.contains(
                #[trigger] m.without_all(ids).sessions[i],
            ),
    decreases ids.len(),
{
    if ids.len() > 0 {
        let front = ids.drop_last();
        let last = ids.last();
        let mid = m.without_all(front);
        lemma_without_all(m, front);
        lemma_without(mid, last);
        let out = m.without_all(ids);
        assert forall|id: u64| #[trigger] out.has_session(id) == (m.has_session(id)
            && !ids.contains(id)) by {
            if id == last {
                assert(ids[ids.len() - 1] == id);
            } else {
                assert(out.has_session(id) == mid.has_session(id));
                if front.contains(id) {
                    let j = choose|j: int| 0 <= j < front.len() && front[j] == id;
                    assert(ids[j] == id);
                }
                if ids.contains(id) {
                    let j = choose|j: int| 0 <= j < ids.len() && ids[j] == id;
                    assert(front[j] == id);
                }
            }
        }
        assert forall|k: int| 0 <= k < out.learned.len() implies !ids.contains(
            #[trigger] out.learned[k].session,
        ) by {
            assert(out.has_session(out.learned[k].session));
        }
        assert forall|i: int| 0 <= i < out.sessions.len() implies m.sessions.contains(
            #[trigger] out.sessions[i],
        ) by {
            assert(mid.sessions.contains(out.sessions[i]));
        }
    } else {
        assert forall|k: int| 0 <= k < m.learned.len() implies !ids.contains(
            #[trigger] m.learned[k].session,
        ) by {}
        assert forall|i: int| 0 <= i < m.sessions.len() implies m.sessions.contains(
            #[trigger] m.sessions[i],
        ) by {}
    }
}

/// [`idle_ids`] names exactly the sessions that are idle.
pub proof fn lemma_idle_ids(sessions: Seq<SessionModel>, now: u64, timeout: u64)
    ensures
        forall|id: u64|
            #[trigger] idle_ids(sessions, now, timeout).contains(id) == (exists|i: int|
                0 <= i < sessions.len() && (#[trigger] sessions[i]).id == id && sessions[i].idle(
                    now,
                    timeout,
                )),
    decreases sessions.len(),
{
    let out = idle_ids(sessions, now, timeout);
    if sessions.len() > 0 {
        let front = sessions.drop_last();
        let rest = idle_ids(front, now, timeout);
        let last = sessions.last();
        lemma_idle_ids(front, now, timeout);
        assert forall|id: u64| #[trigger] out.contains(id) == (exists|i: int|
            0 <= i < sessions.len() && (#[trigger] sessions[i]).id == id && sessions[i].idle(
                now,
                timeout,
            )) by {
            if out.contains(id) {
                let k = choose|k: int| 0 <= k < out.len() && out[k] == id;
                if k < rest.len() {
                    assert(rest[k] == id);
                    assert(rest.contains(id));
                    let i = choose|i: int|
                        0 <= i < front.len() && (#[trigger] front[i]).id == id && front[i].idle(
                            now,
                            timeout,
                        );
                    assert(sessions[i].id == id && sessions[i].idle(now, timeout));
                } else {
                    assert(sessions[sessions.len() - 1].id == id);
                }
            }
            if exists|i: int|
                0 <= i < sessions.len() && (#[trigger] sessions[i]).id == id && sessions[i].idle(
                    now,
                    timeout,
                ) {
                let i = choose|i: int|
                    0 <= i < sessions.len() && (#[trigger] sessions[i]).id == id
                        && sessions[i].idle(now, timeout);
                if i < front.len() {
                    assert(front[i].id == id && front[i].idle(now, timeout));
                    assert(rest.contains(id));
                    let k = choose|k: int| 0 <= k < rest.len() && rest[k] == id;
                    assert(out[k] == id);
                } else {
                    assert(out[out.len() - 1] == id);
                }
            }
        }
    }
}

/// Idle eviction: after [`RegistryModel::evicted`], a session that had no
/// traffic for the idle timeout is in neither table, no learned address
/// names it, and every session that had traffic is still present, unchanged.
pub proof fn lemma_idle_eviction(m: RegistryModel, now: u64)
    requires
        m.well_formed(),
    ensures
        m.evicted(now).well_formed(),
        forall|i: int|
            0 <= i < m.sessions.len() && (#[trigger] m.sessions[i]).idle(now, m.limits.idle_timeout)
                ==> !m.evicted(now).has_session(m.sessions[i].id),
        forall|i: int, k: int|
            0 <= i < m.sessions.len() && (#[trigger] m.sessions[i]).idle(now, m.limits.idle_timeout)
                && 0 <= k < m.evicted(now).learned.len() ==> (#[trigger] m.evicted(
                now,
            ).learned[k]).session != m.sessions[i].id,
        forall|i: int|
            0 <= i < m.sessions.len() && !(#[trigger] m.sessions[i]).idle(
                now,
                m.limits.idle_timeout,
            ) ==> m.evicted(now).has_session(m.sessions[i].id),
        forall|j: int|
            0 <= j < m.evicted(now).sessions.len() ==> m.sessions.contains(
                #[trigger] m.evicted(now).sessions[j],
            ) && !m.evicted(now).sessions[j].idle(now, m.limits.idle_timeout),
{
    let ids = idle_ids(m.sessions, now, m.limits.idle_timeout);
    let e = m.evicted(now);
    lemma_without_all(m, ids);
    lemma_idle_ids(m.sessions, now, m.limits.idle_timeout);
    assert forall|i: int| 0 <= i < m.sessions.len() implies (if (#[trigger] m.sessions[i]).idle(
        now,
        m.limits.idle_timeout,
    ) {
        ids.contains(m.sessions[i].id)
    } else {
        !ids.contains(m.sessions[i].id) && m.has_session(m.sessions[i].id)
    }) by {
        let id = m.sessions[i].id;
        assert(ids.contains(id) == (exists|j: int|
            0 <= j < m.sessions.len() && (#[trigger] m.sessions[j]).id == id && m.sessions[j].idle(
                now,
                m.limits.idle_timeout,
            )));
        if ids.contains(id) {
            let j = choose|j: int|
                0 <= j < m.sessions.len() && (#[trigger] m.sessions[j]).id == id
                    && m.sessions[j].idle(now, m.limits.idle_timeout);
            if j < i {
                assert(m.sessions[j].id != m.sessions[i].id);
            } else if i < j {
                assert(m.sessions[i].id != m.sessions[j].id);
            }
        }
    }
    assert forall|i: int|
        0 <= i < m.sessions.len() && (#[trigger] m.sessions[i]).idle(
            now,
            m.limits.idle_timeout,
        ) implies !e.has_session(m.sessions[i].id) by {
        assert(e.has_session(m.sessions[i].id) == (m.has_session(m.sessions[i].id)
            && !ids.contains(m.sessions[i].id)));
    }
    assert forall|i: int|
        0 <= i < m.sessions.len() && !(#[trigger] m.sessions[i]).idle(
            now,
            m.limits.idle_timeout,
        ) implies e.has_session(m.sessions[i].id) by {
        assert(e.has_session(m.sessions[i].id) == (m.has_session(m.sessions[i].id)
            && !ids.contains(m.sessions[i].id)));
    }
    assert forall|j: int| 0 <= j < e.sessions.len() implies m.sessions.contains(
        #[trigger] e.sessions[j],
    ) && !e.sessions[j].idle(now, m.limits.idle_timeout) by {
        let s = e.sessions[j];
        assert(m.sessions.contains(s));
        let i = choose|i: int| 0 <= i < m.sessions.len() && m.sessions[i] == s;
        assert(e.has_session(s.id));
        assert(e.has_session(s.id) == (m.has_session(s.id) && !ids.contains(s.id)));
    }
}

impl Registry {
    /// Takes the oldest queued message of session `id` for the wire.
    pub fn next_outbound(&mut self, id: u64, now: u64) -> (r: Option<Message>)
        requires
            old(self)@.well_formed(),
        ensures
            final(self)@ == old(self)@.with_session(id, old(self)@.session(id).flushed(now)),
            final(self)@.well_formed(),
            r.is_some() == (old(self)@.has_session(id) && old(self)@.session(id).flushes()),
            r.is_some() ==> r.unwrap()@ == old(self)@.session(id).queue[0],
    {
        match self.find_session(id) {
            None => None,
            Some(i) => {
                let r = self.sessions[i].next_outbound(now);
                proof {
                    let s = old(self)@.session(id).flushed(now);
                    assert(self@.sessions =~= old(self)@.sessions.update(i as int, s));
                    lemma_with_session(old(self)@, id, s);
                }
                r
            },
        }
    }

    /// Takes note of a message that came in on session `id`, and says what
    /// it asks for. A message on a session that is not present asks for nothing.
    pub fn receive(&mut self, id: u64, message: Message, now: u64) -> (r: Received)
        requires
            old(self)@.well_formed(),
        ensures
            final(self)@ == old(self)@.with_session(
                id,
                old(self)@.session(id).received(message@, now),
            ),
            final(self)@.well_formed(),
            r@ == if old(self)@.has_session(id) {
                old(self)@.session(id).reaction(message@)
            } else {
                ReceivedModel::Nothing
            },
    {
        match self.find_session(id) {
            None => Received::Nothing,
            Some(i) => {
                let r = self.sessions[i].receive(message, now);
                proof {
                    let s = old(self)@.session(id).received(message@, now);
                    assert(self@.sessions =~= old(self)@.sessions.update(i as int, s));
                    lemma_with_session(old(self)@, id, s);
                }
                r
            },
        }
    }

    /// Runs the keepalive timer of session `id`.
    pub fn poll_keepalive(&mut self, id: u64, now: u64) -> (r: Keepalive)
        requires
            old(self)@.well_formed(),
        ensures
            final(self)@ == old(self)@.with_session(
                id,
                old(self)@.session(id).after_keepalive(now),
            ),
            final(self)@.well_formed(),
            r == if old(self)@.has_session(id) {
                old(self)@.session(id).keepalive_verdict(now)
            } else {
                Keepalive::Nothing
            },
    {
        match self.find_session(id) {
            None => Keepalive::Nothing,
            Some(i) => {
                let r = self.sessions[i].poll_keepalive(now);
                proof {
                    let s = old(self)@.session(id).after_keepalive(now);
                    assert(self@.sessions =~= old(self)@.sessions.update(i as int, s));
                    lemma_with_session(old(self)@, id, s);
                }
                r
            },
        }
    }

    /// The identities of the sessions that had no traffic for the idle
    /// timeout, in the order in which they joined.
    pub fn idle_sessions(&self, now: u64) -> (r: Vec<u64>)
        ensures
            r@ == idle_ids(self@.sessions, now, self@.limits.idle_timeout),
    {
        let mut out: Vec<u64> = Vec::new();
        let mut i: usize = 0;
        while i < self.sessions.len()
            invariant
                i <= self.sessions.len(),
                out@ == idle_ids(self@.sessions.take(i as int), now, self@.limits.idle_timeout),
            decreases self.sessions.len() - i,
        {
            assert(self@.sessions.take(i + 1).drop_last() =~= self@.sessions.take(i as int));
            if self.sessions[i].is_idle(now, self.limits.idle_timeout) {
                out.push(self.sessions[i].id());
            }
            i += 1;
        }
        assert(self@.sessions.take(self@.sessions.len() as int) =~= self@.sessions);
        out
    }

    /// Evicts every session that had no traffic for the idle timeout: each
    /// is closed and leaves as in [`Registry::leave`]. Returns their identities.
    pub fn evict_idle(&mut self, now: u64) -> (r: Vec<u64>)
        requires
            old(self)@.well_formed(),
        ensures
            r@ == idle_ids(old(self)@.sessions, now, old(self)@.limits.idle_timeout),
            final(self)@ == old(self)@.evicted(now),
            final(self)@.well_formed(),
    {
        let ids = self.idle_sessions(now);
        let mut k: usize = 0;
        while k < ids.len()
            invariant
                k <= ids.len(),
                self@.well_formed(),
                self@ == old(self)@.without_all(ids@.take(k as int)),
            decreases ids.len() - k,
        {
            assert(ids@.take(k + 1).drop_last() =~= ids@.take(k as int));
            self.leave(ids[k]);
            k += 1;
        }
        assert(ids@.take(ids@.len() as int) =~= ids@);
        ids
    }

    /// Sweeps out the learned addresses that have expired at `now`. No
    /// lookup made at `now` changes by it.
    pub fn expire_addresses(&mut self, now: u64) -> (r: usize)
        requires
            old(self)@.well_formed(),
        ensures
            final(self)@ == old(self)@.swept(now),
            final(self)@.well_formed(),
            r == old(self)@.learned.len() - final(self)@.learned.len(),
            forall|address: u64|
                #[trigger] final(self)@.owner(address, now) == old(self)@.owner(address, now),
    {
        proof {
            lemma_swept(self@, now);
            lemma_retained(
                self@.learned,
                |e: Learned| elapsed(now, e.last_seen) < self@.limits.address_ttl,
            );
        }
        let ttl: u64 = self.limits.address_ttl;
        let before: usize = self.learned.len();
        let mut kept: Vec<Learned> = Vec::new();
        let mut k: usize = 0;
        while k < self.learned.len()
            invariant
                k <= self.learned.len(),
                self.learned == old(self).learned,
                kept@ == unexpired(self.learned@.take(k as int), now, ttl),
            decreases self.learned.len() - k,
        {
            let e = self.learned[k];
            assert(self.learned@.take(k + 1).drop_last() =~= self.learned@.take(k as int));
            if elapsed_since(now, e.last_seen) < ttl {
                kept.push(e);
            }
            k += 1;
        }
        assert(self.learned@.take(self.learned@.len() as int) =~= self.learned@);
        self.learned = kept;
        before - self.learned.len()
    }

    /// The addresses that session `id` owns at `now`: those learned from
    /// its traffic that have not expired and that no other session took over.
    pub fn learned_addresses(&self, id: u64, now: u64) -> (r: Vec<u64>)
        ensures
            r@ == addresses_of(self@.learned, id, now, self@.limits.address_ttl),
    {
        let mut out: Vec<u64> = Vec::new();
        let mut k: usize = 0;
        while k < self.learned.len()
            invariant
                k <= self.learned.len(),
                out@ == addresses_of(
                    self@.learned.take(k as int),
                    id,
                    now,
                    self@.limits.address_ttl,
                ),
            decreases self.learned.len() - k,
        {
            let e = self.learned[k];
            assert(self@.learned.take(k + 1).drop_last() =~= self@.learned.take(k as int));
            if e.session == id && elapsed_since(now, e.last_seen) < self.limits.address_ttl {
                out.push(e.address);
            }
            k += 1;
        }
        assert(self@.learned.take(self@.learned.len() as int) =~= self@.learned);
        out
    }
}

} // verus!
