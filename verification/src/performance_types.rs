//! The session registry: which seat is claimed, by which client, until when
//! and over which connection.
//!
//! A seat is claimed by a join and stays claimed: nothing but a reset of the
//! whole registry frees it. A rejoin moves the seat to another connection and
//! leaves its identifier and its expiry as the join set them.

use vstd::prelude::*;
use vstd::string::StringExecFns;
use crate::protocol::{ProtocolError, Reply, ReplyView};
use crate::text::str_eq;
use crate::text_map::{distinct_keys, has_key, lemma_position_unique, position_of, TextMap};

verus! {

/// The session that holds a seat.
#[derive(Debug)]
pub struct ClientInfo {
    /// The identifier that the join gave to the client.
    pub id: String,
    /// When the session ends, in milliseconds since the epoch. Clients are
    /// told; the registry itself never acts on it.
    pub expires_at: u64,
    /// The connection that messages for this seat go to.
    pub sender: Option<u64>,
}

pub struct ClientInfoView {
    pub id: Seq<char>,
    pub expires_at: u64,
    pub sender: Option<u64>,
}

impl DeepView for ClientInfo {
    type V = ClientInfoView;

    open spec fn deep_view(&self) -> ClientInfoView {
        ClientInfoView { id: self.id@, expires_at: self.expires_at, sender: self.sender }
    }
}

impl View for ClientInfo {
    type V = ClientInfoView;

    open spec fn view(&self) -> ClientInfoView {
        self.deep_view()
    }
}

impl Default for ClientInfo {
    fn default() -> (info: Self)
        ensures
            info@ == (ClientInfoView { id: Seq::empty(), expires_at: 0, sender: None }),
    {
        ClientInfo { id: String::new(), expires_at: 0, sender: None }
    }
}

/// The claimed seats, each with its session, in the order of the joins.
pub type Seats = Seq<(Seq<char>, ClientInfoView)>;

/// Some seat is bound to the client identifier `id`.
pub open spec fn knows_id(seats: Seats, id: Seq<char>) -> bool {
    exists|i: int| 0 <= i < seats.len() && (#[trigger] seats[i]).1.id == id
}

/// The place of a seat bound to `id`; meaningful only where one exists.
pub open spec fn place_of_id(seats: Seats, id: Seq<char>) -> int {
    choose|i: int| 0 <= i < seats.len() && (#[trigger] seats[i]).1.id == id
}

/// No two seats are bound to one client identifier.
pub open spec fn distinct_ids(seats: Seats) -> bool {
    forall|i: int, j: int|
        0 <= i < j < seats.len() ==> (#[trigger] seats[i]).1.id != (#[trigger] seats[j]).1.id
}

/// What holds of every registry: a seat is claimed once, a client identifier
/// is bound to one seat, and neither is empty.
pub open spec fn consistent(seats: Seats) -> bool {
    &&& distinct_keys(seats)
    &&& distinct_ids(seats)
    &&& forall|i: int|
        0 <= i < seats.len() ==> (#[trigger] seats[i]).0.len() > 0 && seats[i].1.id.len() > 0
}

/// The mapping from seat to session.
pub open spec fn seat_map(seats: Seats) -> Map<Seq<char>, ClientInfoView> {
    Map::new(|seat: Seq<char>| has_key(seats, seat), |seat: Seq<char>| seats[position_of(seats, seat)].1)
}

/// The mapping from client identifier to seat.
pub open spec fn id_map(seats: Seats) -> Map<Seq<char>, Seq<char>> {
    Map::new(|id: Seq<char>| knows_id(seats, id), |id: Seq<char>| seats[place_of_id(seats, id)].0)
}

/// When a session that starts at `now_ms` ends: `ttl_ms` later, or at the
/// last instant that a `u64` can hold where the sum does not fit.
pub open spec fn expiry(now_ms: u64, ttl_ms: u64) -> u64 {
    if now_ms + ttl_ms > u64::MAX {
        u64::MAX
    } else {
        (now_ms + ttl_ms) as u64
    }
}

/// What the contracts see of the registry.
pub struct PerformanceStateView {
    pub start_time: Option<u64>,
    pub session_ttl_ms: u64,
    pub seats: Seats,
}

impl PerformanceStateView {
    /// The registry and the reply after a join of `seat` for which the
    /// identifier `id` was drawn at `now_ms`, on the connection `sender`.
    pub open spec fn join(self, seat: Seq<char>, id: Seq<char>, now_ms: u64, sender: u64) -> (
        PerformanceStateView,
        ReplyView,
    ) {
        if seat.len() == 0 {
            (self, ReplyView::Error(ProtocolError::InvalidSeat))
        } else if has_key(self.seats, seat) {
            (self, ReplyView::Error(ProtocolError::SeatTaken))
        } else if id.len() == 0 || knows_id(self.seats, id) {
            (self, ReplyView::Error(ProtocolError::IdUnavailable))
        } else {
            let expires_at = expiry(now_ms, self.session_ttl_ms);
            (
                PerformanceStateView {
                    seats: self.seats.push(
                        (seat, ClientInfoView { id, expires_at, sender: Some(sender) }),
                    ),
                    ..self
                },
                ReplyView::Joined { id, seat, expires_at },
            )
        }
    }

    /// The registry and the reply after a rejoin under `id` on the
    /// connection `sender`.
    pub open spec fn rejoin(self, id: Seq<char>, sender: u64) -> (PerformanceStateView, ReplyView) {
        if id.len() == 0 {
            (self, ReplyView::Error(ProtocolError::RejoinMissingId))
        } else if !knows_id(self.seats, id) {
            (self, ReplyView::Error(ProtocolError::SessionNotFound))
        } else {
            let place = place_of_id(self.seats, id);
            let seat = self.seats[place].0;
            let expires_at = self.seats[place].1.expires_at;
            (
                PerformanceStateView {
                    seats: self.seats.update(
                        place,
                        (seat, ClientInfoView { id, expires_at, sender: Some(sender) }),
                    ),
                    ..self
                },
                ReplyView::Joined { id, seat, expires_at },
            )
        }
    }

    /// The connections of the claimed seats, in the order of the joins.
    pub open spec fn senders(self) -> Seq<u64> {
        connections(self.seats)
    }
}

/// The connections of the seats that have one, in the order of the seats.
pub open spec fn connections(seats: Seats) -> Seq<u64>
    decreases seats.len(),
{
    if seats.len() == 0 {
        Seq::empty()
    } else {
        match seats.last().1.sender {
            Some(c) => connections(seats.drop_last()).push(c),
            None => connections(seats.drop_last()),
        }
    }
}

/// With distinct identifiers, the place of an identifier is the only index
/// that holds it.
pub proof fn lemma_place_unique(seats: Seats, i: int)
    requires
        distinct_ids(seats),
        0 <= i < seats.len(),
    ensures
        knows_id(seats, seats[i].1.id),
        place_of_id(seats, seats[i].1.id) == i,
{
    let id = seats[i].1.id;
    let p = place_of_id(seats, id);
    assert(0 <= p < seats.len() && seats[p].1.id == id);
    if p < i {
        assert(seats[p].1.id != seats[i].1.id);
    } else if i < p {
        assert(seats[i].1.id != seats[p].1.id);
    }
}

/// The registry of claimed seats.
pub struct PerformanceState {
    start_time: Option<u64>,
    session_ttl_ms: u64,
    seat_map: TextMap<ClientInfo>,
}

/// The stored seats as the contracts see them.
pub open spec fn seats_view(stored: Seq<(Seq<char>, ClientInfo)>) -> Seats {
    Seq::new(stored.len(), |i: int| (stored[i].0, stored[i].1@))
}

impl View for PerformanceState {
    type V = PerformanceStateView;

    closed spec fn view(&self) -> PerformanceStateView {
        PerformanceStateView {
            start_time: self.start_time,
            session_ttl_ms: self.session_ttl_ms,
            seats: seats_view(self.seat_map@),
        }
    }
}

impl PerformanceState {
    #[verifier::type_invariant]
    closed spec fn well_formed(&self) -> bool {
        consistent(seats_view(self.seat_map@))
    }

    /// An empty registry whose sessions last `session_ttl_ms` milliseconds.
    pub fn new(session_ttl_ms: u64) -> (state: Self)
        ensures
            state@ == (PerformanceStateView { start_time: None, session_ttl_ms, seats: Seq::empty() }),
    {
        let state = PerformanceState { start_time: None, session_ttl_ms, seat_map: TextMap::new() };
        assert(state@.seats =~= Seq::empty());
        state
    }

    /// How long a session lasts, in milliseconds.
    pub fn session_ttl_ms(&self) -> (ttl: u64)
        ensures
            ttl == self@.session_ttl_ms,
    {
        self.session_ttl_ms
    }

    /// When the performance started, if that was recorded.
    pub fn start_time(&self) -> (start: Option<u64>)
        ensures
            start == self@.start_time,
    {
        self.start_time
    }

    /// The number of claimed seats.
    pub fn seat_count(&self) -> (n: usize)
        ensures
            n == self@.seats.len(),
            consistent(self@.seats),
    {
        proof {
            use_type_invariant(self);
        }
        self.seat_map.len()
    }

    /// The name of the seat at place `i`, counted in the order of the joins.
    pub fn seat_at(&self, i: usize) -> (seat: &str)
        requires
            i < self@.seats.len(),
        ensures
            seat@ == self@.seats[i as int].0,
    {
        self.seat_map.key_at(i)
    }

    /// The session of the seat at place `i`, counted in the order of the joins.
    pub fn client_at(&self, i: usize) -> (info: &ClientInfo)
        requires
            i < self@.seats.len(),
        ensures
            info@ == self@.seats[i as int].1,
    {
        self.seat_map.value_at(i)
    }

    /// The session that holds `seat`, if the seat is claimed.
    pub fn client_of(&self, seat: &str) -> (info: Option<&ClientInfo>)
        ensures
            info is Some <==> has_key(self@.seats, seat@),
            info matches Some(c) ==> c@ == seat_map(self@.seats)[seat@],
    {
        proof {
            use_type_invariant(self);
        }
        match self.seat_map.find(seat) {
            Some(i) => {
                proof {
                    assert(self@.seats[i as int].0 == seat@);
                    lemma_position_unique(self@.seats, i as int);
                }
                Some(self.seat_map.value_at(i))
            },
            None => {
                proof {
                    if has_key(self@.seats, seat@) {
                        let p = position_of(self@.seats, seat@);
                        assert(self.seat_map@[p].0 == seat@);
                    }
                }
                None
            },
        }
    }

    /// The place of the seat bound to the client identifier `id`.
    pub fn find_id(&self, id: &str) -> (place: Option<usize>)
        ensures
            consistent(self@.seats),
            place is Some <==> knows_id(self@.seats, id@),
            place matches Some(i) ==> i < self@.seats.len() && i == place_of_id(self@.seats, id@),
    {
        proof {
            use_type_invariant(self);
        }
        let n = self.seat_map.len();
        let mut i: usize = 0;
        while i < n
            invariant
                i <= n,
                n == self@.seats.len(),
                n == self.seat_map@.len(),
                consistent(self@.seats),
                forall|j: int| 0 <= j < i ==> (#[trigger] self@.seats[j]).1.id != id@,
            decreases n - i,
        {
            if str_eq(self.seat_map.value_at(i).id.as_str(), id) {
                proof {
                    assert(self@.seats[i as int].1.id == id@);
                    lemma_place_unique(self@.seats, i as int);
                }
                return Some(i);
            }
            i += 1;
        }
        None
    }

    /// The seat bound to the client identifier `id`, if there is one.
    pub fn seat_of(&self, id: &str) -> (seat: Option<&str>)
        ensures
            seat is Some <==> knows_id(self@.seats, id@),
            seat matches Some(s) ==> s@ == id_map(self@.seats)[id@],
    {
        match self.find_id(id) {
            Some(i) => Some(self.seat_map.key_at(i)),
            None => None,
        }
    }

    /// Claims `seat` for a new client. `client_id` is the identifier drawn
    /// for it, `now_ms` the time of the claim and `sender` the connection
    /// that asks. A refused join leaves the registry as it was.
    pub fn join(&mut self, seat: &str, client_id: String, now_ms: u64, sender: u64) -> (reply:
        Reply)
        ensures
            (final(self)@, reply@) == old(self)@.join(seat@, client_id@, now_ms, sender),
            consistent(final(self)@.seats),
    {
        proof {
            use_type_invariant(&*self);
        }
        if seat.is_empty() {
            return Reply::Error(ProtocolError::InvalidSeat);
        }
        let ghost before = self@;
        let ghost stored = self.seat_map@;
        if self.seat_map.contains_key(seat) {
            proof {
                let p = position_of(stored, seat@);
                assert(before.seats[p].0 == seat@);
            }
            return Reply::Error(ProtocolError::SeatTaken);
        }
        proof {
            if has_key(before.seats, seat@) {
                let p = position_of(before.seats, seat@);
                assert(stored[p].0 == seat@);
            }
        }
        if client_id.as_str().is_empty() || self.find_id(client_id.as_str()).is_some() {
            return Reply::Error(ProtocolError::IdUnavailable);
        }
        let expires_at = now_ms.saturating_add(self.session_ttl_ms);
        let reply = Reply::Joined {
            id: client_id.clone(),
            seat: String::from_str(seat),
            expires_at,
        };
        let info = ClientInfo { id: client_id, expires_at, sender: Some(sender) };
        proof {
            let after = before.seats.push((seat@, info@));
            assert(seats_view(stored.push((seat@, info))) =~= after);
            assert forall|i: int, j: int| 0 <= i < j < after.len() implies (#[trigger] after[i]).1.id
                != (#[trigger] after[j]).1.id by {
                assert(after[i] == before.seats[i]);
                if j < before.seats.len() {
                    assert(after[j] == before.seats[j]);
                }
            }
            assert forall|i: int, j: int| 0 <= i < j < after.len() implies (#[trigger] after[i]).0
                != (#[trigger] after[j]).0 by {
                assert(after[i] == before.seats[i]);
                if j < before.seats.len() {
                    assert(after[j] == before.seats[j]);
                }
            }
            assert forall|i: int| 0 <= i < after.len() implies (#[trigger] after[i]).0.len() > 0
                && after[i].1.id.len() > 0 by {
                if i < before.seats.len() {
                    assert(after[i] == before.seats[i]);
                }
            }
        }
        let mut seat_map: TextMap<ClientInfo> = TextMap::new();
        std::mem::swap(&mut self.seat_map, &mut seat_map);
        seat_map.insert(String::from_str(seat), info);
        std::mem::swap(&mut self.seat_map, &mut seat_map);
        reply
    }

    /// Moves the seat bound to `client_id` to the connection `sender`. The
    /// seat keeps its identifier and the expiry that the join set. A refused
    /// rejoin leaves the registry as it was.
    pub fn rejoin(&mut self, client_id: &str, sender: u64) -> (reply: Reply)
        ensures
            (final(self)@, reply@) == old(self)@.rejoin(client_id@, sender),
            consistent(final(self)@.seats),
    {
        proof {
            use_type_invariant(&*self);
        }
        if client_id.is_empty() {
            return Reply::Error(ProtocolError::RejoinMissingId);
        }
        let ghost before = self@;
        let ghost stored = self.seat_map@;
        let place = match self.find_id(client_id) {
            Some(i) => i,
            None => {
                return Reply::Error(ProtocolError::SessionNotFound);
            },
        };
        let expires_at = self.seat_map.value_at(place).expires_at;
        let seat = String::from_str(self.seat_map.key_at(place));
        let info = ClientInfo { id: String::from_str(client_id), expires_at, sender: Some(sender) };
        proof {
            let after = before.seats.update(place as int, (seat@, info@));
            assert(seats_view(stored.update(place as int, (stored[place as int].0, info))) =~= after);
            assert(before.seats[place as int].1.id == client_id@);
            assert forall|i: int, j: int| 0 <= i < j < after.len() implies (#[trigger] after[i]).1.id
                != (#[trigger] after[j]).1.id by {
                assert(after[i].1.id == before.seats[i].1.id);
                assert(after[j].1.id == before.seats[j].1.id);
            }
            assert forall|i: int, j: int| 0 <= i < j < after.len() implies (#[trigger] after[i]).0
                != (#[trigger] after[j]).0 by {
                assert(after[i].0 == before.seats[i].0);
                assert(after[j].0 == before.seats[j].0);
            }
            assert forall|i: int| 0 <= i < after.len() implies (#[trigger] after[i]).0.len() > 0
                && after[i].1.id.len() > 0 by {
                assert(after[i].0 == before.seats[i].0);
                assert(after[i].1.id == before.seats[i].1.id);
            }
        }
        let mut seat_map: TextMap<ClientInfo> = TextMap::new();
        std::mem::swap(&mut self.seat_map, &mut seat_map);
        seat_map.set_value_at(place, info);
        std::mem::swap(&mut self.seat_map, &mut seat_map);
        Reply::Joined { id: String::from_str(client_id), seat, expires_at }
    }

    /// The connection of every claimed seat that has one, in the order of
    /// the joins: where a message for all clients goes.
    pub fn senders(&self) -> (targets: Vec<u64>)
        ensures
            targets@ == self@.senders(),
    {
        let n = self.seat_map.len();
        let mut targets: Vec<u64> = Vec::new();
        let mut i: usize = 0;
        assert(self@.seats.take(0) =~= Seq::empty());
        while i < n
            invariant
                i <= n,
                n == self@.seats.len(),
                n == self.seat_map@.len(),
                targets@ == connections(self@.seats.take(i as int)),
            decreases n - i,
        {
            proof {
                let next = self@.seats.take(i + 1);
                assert(next.drop_last() =~= self@.seats.take(i as int));
                assert(next.last() == self@.seats[i as int]);
            }
            match self.seat_map.value_at(i).sender {
                Some(c) => {
                    targets.push(c);
                },
                None => {},
            }
            i += 1;
        }
        assert(self@.seats.take(n as int) =~= self@.seats);
        targets
    }
}

impl Default for PerformanceState {
    /// An empty registry whose sessions end at once.
    fn default() -> (state: Self)
        ensures
            state@ == (PerformanceStateView { start_time: None, session_ttl_ms: 0, seats: Seq::empty() }),
    {
        PerformanceState::new(0)
    }
}

} // verus!
