//! The per-node room registry: rooms by name, participants by user id.
//!
//! The registry does no I/O. Operations that notify peers append a
//! [`Dispatch`] (a frame and the connections that must receive it) to an
//! outbox that the transport layer drains.
use vstd::prelude::*;

use crate::auth::AuthenticatedUser;
use crate::messages::{Participant, ServerMessage};

verus! {

/// The identity of one client stream (a 128-bit value).
#[derive(Clone, Copy, PartialEq, Eq, Structural, Debug, Hash)]
pub struct ConnectionId {
    pub value: u128,
}

/// A user present in a room through one connection.
#[derive(Debug)]
pub struct RoomParticipant {
    pub user: AuthenticatedUser,
    pub connection_id: ConnectionId,
}

impl RoomParticipant {
    pub open spec fn public_view(self) -> Participant {
        Participant { user_id: self.user.user_id, username: self.user.username }
    }

    /// A copy with the same fields.
    pub fn duplicate(&self) -> (r: RoomParticipant)
        ensures
            r == *self,
    {
        RoomParticipant { user: self.user.duplicate(), connection_id: self.connection_id }
    }

    /// The projection of this participant that peers see.
    pub fn to_participant(&self) -> (r: Participant)
        ensures
            r == self.public_view(),
    {
        Participant { user_id: self.user.user_id, username: self.user.username.clone() }
    }
}

impl Clone for RoomParticipant {
    fn clone(&self) -> (r: Self)
        ensures
            r == *self,
    {
        self.duplicate()
    }
}

/// A frame to be delivered to each of the listed connections.
#[derive(Debug)]
pub struct Dispatch {
    pub recipients: Vec<ConnectionId>,
    pub message: ServerMessage,
}

/// The public list of a sequence of participants, in order.
pub open spec fn public_list(ps: Seq<RoomParticipant>) -> Seq<Participant> {
    ps.map_values(|p: RoomParticipant| p.public_view())
}

/// The connections of the participants other than `sender`, in order.
pub open spec fn others_of(ps: Seq<RoomParticipant>, sender: u32) -> Seq<ConnectionId>
    decreases ps.len(),
{
    if ps.len() == 0 {
        Seq::empty()
    } else if ps.last().user.user_id != sender {
        others_of(ps.drop_last(), sender).push(ps.last().connection_id)
    } else {
        others_of(ps.drop_last(), sender)
    }
}

/// The connections of all participants, in order.
pub open spec fn connections_of(ps: Seq<RoomParticipant>) -> Seq<ConnectionId> {
    ps.map_values(|p: RoomParticipant| p.connection_id)
}

/// Whether a participant with this user id is present.
pub open spec fn has_user(ps: Seq<RoomParticipant>, user_id: u32) -> bool {
    exists|i: int| 0 <= i < ps.len() && #[trigger] ps[i].user.user_id == user_id
}

/// No user id occurs twice.
pub open spec fn unique_users(ps: Seq<RoomParticipant>) -> bool {
    forall|i: int, j: int|
        0 <= i < ps.len() && 0 <= j < ps.len() && i != j ==> #[trigger] ps[i].user.user_id
            != #[trigger] ps[j].user.user_id
}

/// The position of the participant with this user id (meaningful when present).
pub open spec fn user_index(ps: Seq<RoomParticipant>, user_id: u32) -> int {
    choose|i: int| 0 <= i < ps.len() && #[trigger] ps[i].user.user_id == user_id
}

/// The participants without the one that has this user id.
pub open spec fn without_user(ps: Seq<RoomParticipant>, user_id: u32) -> Seq<RoomParticipant> {
    if has_user(ps, user_id) {
        ps.remove(user_index(ps, user_id))
    } else {
        ps
    }
}

/// The participants without the entry of this user through this connection.
pub open spec fn without_entry(ps: Seq<RoomParticipant>, user_id: u32, connection_id: ConnectionId) -> Seq<
    RoomParticipant,
> {
    if has_user(ps, user_id) && ps[user_index(ps, user_id)].connection_id == connection_id {
        ps.remove(user_index(ps, user_id))
    } else {
        ps
    }
}

/// A named room and its participants, in order of joining.
#[derive(Debug)]
pub struct Room {
    pub name: String,
    pub participants: Vec<RoomParticipant>,
}

impl Room {
    pub open spec fn wf(&self) -> bool {
        unique_users(self.participants@)
    }

    /// An empty room.
    pub fn new(name: String) -> (r: Room)
        ensures
            r.name == name,
            r.participants@.len() == 0,
            r.wf(),
    {
        Room { name, participants: Vec::new() }
    }

    /// Finds the position of a user id.
    fn position_of(&self, user_id: u32) -> (r: Option<usize>)
        ensures
            r matches Some(i) ==> i < self.participants@.len() && self.participants@[i as int].user.user_id
                == user_id,
            r is None ==> !has_user(self.participants@, user_id),
    {
        let mut i: usize = 0;
        while i < self.participants.len()
            invariant
                i <= self.participants@.len(),
                forall|k: int| 0 <= k < i ==> self.participants@[k].user.user_id != user_id,
            decreases self.participants@.len() - i,
        {
            if self.participants[i].user.user_id == user_id {
                return Some(i);
            }
            i = i + 1;
        }
        None
    }

    /// Adds a participant unless its user id is already present.
    pub fn add_participant(&mut self, participant: RoomParticipant) -> (r: bool)
        requires
            old(self).wf(),
        ensures
            final(self).wf(),
            final(self).name == old(self).name,
            r == !has_user(old(self).participants@, participant.user.user_id),
            r ==> final(self).participants@ == old(self).participants@.push(participant),
            !r ==> final(self).participants@ == old(self).participants@,
    {
        if self.position_of(participant.user.user_id).is_some() {
            return false;
        }
        self.participants.push(participant);
        true
    }

    /// Removes the participant with this user id, returning it.
    pub fn remove_participant(&mut self, user_id: u32) -> (r: Option<RoomParticipant>)
        requires
            old(self).wf(),
        ensures
            final(self).wf(),
            final(self).name == old(self).name,
            r is Some == has_user(old(self).participants@, user_id),
            r matches Some(p) ==> p == old(self).participants@[user_index(
                old(self).participants@,
                user_id,
            )],
            final(self).participants@ == without_user(old(self).participants@, user_id),
    {
        match self.position_of(user_id) {
            Some(i) => {
                let ghost ps = self.participants@;
                let p = self.participants.remove(i);
                proof {
                    let j = user_index(ps, user_id);
                    assert(ps[i as int].user.user_id == user_id);
                    assert(j == i);
                    assert forall|a: int, b: int|
                        0 <= a < self.participants@.len() && 0 <= b < self.participants@.len() && a
                            != b implies #[trigger] self.participants@[a].user.user_id
                        != #[trigger] self.participants@[b].user.user_id by {
                        let a2 = if a < i { a } else { a + 1 };
                        let b2 = if b < i { b } else { b + 1 };
                        assert(self.participants@[a] == ps[a2]);
                        assert(self.participants@[b] == ps[b2]);
                    }
                }
                Some(p)
            },
            None => None,
        }
    }

    /// The public list of participants, in order.
    pub fn get_participants_list(&self) -> (r: Vec<Participant>)
        ensures
            r@ == public_list(self.participants@),
    {
        let mut out: Vec<Participant> = Vec::new();
        let mut i: usize = 0;
        while i < self.participants.len()
            invariant
                i <= self.participants@.len(),
                out@ == public_list(self.participants@.take(i as int)),
            decreases self.participants@.len() - i,
        {
            out.push(self.participants[i].to_participant());
            proof {
                assert(self.participants@.take(i + 1) == self.participants@.take(i as int).push(
                    self.participants@[i as int],
                ));
            }
            i = i + 1;
        }
        proof {
            assert(self.participants@.take(i as int) == self.participants@);
        }
        out
    }

    /// The frame for every participant but `sender_id`.
    pub fn broadcast_to_others(&self, sender_id: u32, message: ServerMessage) -> (r: Dispatch)
        ensures
            r.recipients@ == others_of(self.participants@, sender_id),
            r.message == message,
    {
        let mut out: Vec<ConnectionId> = Vec::new();
        let mut i: usize = 0;
        while i < self.participants.len()
            invariant
                i <= self.participants@.len(),
                out@ == others_of(self.participants@.take(i as int), sender_id),
            decreases self.participants@.len() - i,
        {
            proof {
                let t = self.participants@.take(i + 1);
                assert(t.drop_last() == self.participants@.take(i as int));
                assert(t.last() == self.participants@[i as int]);
            }
            if self.participants[i].user.user_id != sender_id {
                out.push(self.participants[i].connection_id);
            }
            i = i + 1;
        }
        proof {
            assert(self.participants@.take(i as int) == self.participants@);
        }
        Dispatch { recipients: out, message }
    }

    /// The frame for every participant.
    pub fn broadcast_to_all(&self, message: ServerMessage) -> (r: Dispatch)
        ensures
            r.recipients@ == connections_of(self.participants@),
            r.message == message,
    {
        let mut out: Vec<ConnectionId> = Vec::new();
        let mut i: usize = 0;
        while i < self.participants.len()
            invariant
                i <= self.participants@.len(),
                out@ == connections_of(self.participants@.take(i as int)),
            decreases self.participants@.len() - i,
        {
            out.push(self.participants[i].connection_id);
            proof {
                assert(self.participants@.take(i + 1) == self.participants@.take(i as int).push(
                    self.participants@[i as int],
                ));
            }
            i = i + 1;
        }
        proof {
            assert(self.participants@.take(i as int) == self.participants@);
        }
        Dispatch { recipients: out, message }
    }

    /// The frame for one participant; `None` when the user is not here.
    pub fn send_to_user(&self, user_id: u32, message: ServerMessage) -> (r: Option<Dispatch>)
        requires
            self.wf(),
        ensures
            r is Some == has_user(self.participants@, user_id),
            r matches Some(d) ==> d.message == message && d.recipients@ == seq![
                self.participants@[user_index(self.participants@, user_id)].connection_id,
            ],
    {
        match self.position_of(user_id) {
            Some(i) => {
                proof {
                    let j = user_index(self.participants@, user_id);
                    assert(self.participants@[i as int].user.user_id == user_id);
                    assert(j == i);
                }
                let mut out: Vec<ConnectionId> = Vec::new();
                out.push(self.participants[i].connection_id);
                Some(Dispatch { recipients: out, message })
            },
            None => None,
        }
    }

    /// Whether a user id is present.
    pub fn has_participant(&self, user_id: u32) -> (r: bool)
        ensures
            r == has_user(self.participants@, user_id),
    {
        self.position_of(user_id).is_some()
    }

    /// Whether the room has no participant.
    pub fn is_empty(&self) -> (r: bool)
        ensures
            r == (self.participants@.len() == 0),
    {
        self.participants.len() == 0
    }
}

/// No two rooms share a name.
pub open spec fn names_unique(rooms: Seq<Room>) -> bool {
    forall|i: int, j: int|
        0 <= i < rooms.len() && 0 <= j < rooms.len() && i != j ==> #[trigger] rooms[i].name@
            != #[trigger] rooms[j].name@
}

/// The participants of a room in a registry view; empty when it does not exist.
pub open spec fn members(m: Map<Seq<char>, Seq<RoomParticipant>>, name: Seq<char>) -> Seq<RoomParticipant> {
    if m.contains_key(name) {
        m[name]
    } else {
        Seq::empty()
    }
}

/// Whether a registry view holds this user through this connection in a room.
pub open spec fn holds_entry(ps: Seq<RoomParticipant>, user_id: u32, connection_id: ConnectionId) -> bool {
    exists|i: int|
        0 <= i < ps.len() && (#[trigger] ps[i]).user.user_id == user_id && ps[i].connection_id
            == connection_id
}

/// The registry view after the stream of `user_id` with `connection_id` closed:
/// that entry leaves every room, and rooms left empty disappear.
pub open spec fn after_close(
    m: Map<Seq<char>, Seq<RoomParticipant>>,
    user_id: u32,
    connection_id: ConnectionId,
) -> Map<Seq<char>, Seq<RoomParticipant>> {
    Map::new(
        |k: Seq<char>| m.contains_key(k) && without_entry(m[k], user_id, connection_id).len() > 0,
        |k: Seq<char>| without_entry(m[k], user_id, connection_id),
    )
}

/// `d` is a `user-left` frame for `user_id` in a room of `m` that held the
/// entry of `user_id` through `connection_id`, addressed to the participants
/// that remain there once that entry is removed.
pub open spec fn is_left_notice(
    d: Dispatch,
    m: Map<Seq<char>, Seq<RoomParticipant>>,
    user_id: u32,
    connection_id: ConnectionId,
) -> bool {
    match user_left_of(d.message) {
        Some((n, u)) => {
            &&& u == user_id
            &&& m.contains_key(n)
            &&& holds_entry(m[n], user_id, connection_id)
            &&& d.recipients@ == connections_of(without_entry(m[n], user_id, connection_id))
        },
        None => false,
    }
}

/// The room and user of a `user-left` frame.
pub open spec fn user_left_of(m: ServerMessage) -> Option<(Seq<char>, u32)> {
    match m {
        ServerMessage::UserLeft { room_name, user_id } => Some((room_name@, user_id)),
        _ => None,
    }
}

/// Each of `ds` tells a room of `m` that `user_id` left through `connection_id`.
pub open spec fn left_notices(
    ds: Seq<Dispatch>,
    m: Map<Seq<char>, Seq<RoomParticipant>>,
    user_id: u32,
    connection_id: ConnectionId,
) -> bool {
    forall|k: int| 0 <= k < ds.len() ==> #[trigger] is_left_notice(ds[k], m, user_id, connection_id)
}

/// A change of the registry: a join, a leave, or the close of a stream.
pub enum RegistryStep {
    Join { room: Seq<char>, participant: RoomParticipant },
    Leave { room: Seq<char>, user_id: u32 },
    Close { user_id: u32, connection_id: ConnectionId },
}

/// The registry view after a step: a refused join or leave changes nothing.
pub open spec fn registry_step(m: Map<Seq<char>, Seq<RoomParticipant>>, op: RegistryStep) -> Map<
    Seq<char>,
    Seq<RoomParticipant>,
> {
    match op {
        RegistryStep::Join { room, participant } => if has_user(members(m, room), participant.user.user_id) {
            m
        } else {
            m.insert(room, members(m, room).push(participant))
        },
        RegistryStep::Leave { room, user_id } => if m.contains_key(room) && has_user(m[room], user_id) {
            let rest = without_user(m[room], user_id);
            if rest.len() == 0 {
                m.remove(room)
            } else {
                m.insert(room, rest)
            }
        } else {
            m
        },
        RegistryStep::Close { user_id, connection_id } => after_close(m, user_id, connection_id),
    }
}

/// Every room of `m` that held `user_id` through `connection_id` is told of
/// the leave by one of `ds`, and no room is told twice.
pub open spec fn left_notices_complete(
    ds: Seq<Dispatch>,
    m: Map<Seq<char>, Seq<RoomParticipant>>,
    user_id: u32,
    connection_id: ConnectionId,
) -> bool {
    &&& forall|n: Seq<char>|
        m.contains_key(n) && #[trigger] holds_entry(m[n], user_id, connection_id) ==> exists|k: int|
            0 <= k < ds.len() && #[trigger] user_left_of(ds[k].message) == Some((n, user_id))
    &&& forall|a: int, b: int|
        0 <= a < b < ds.len() ==> #[trigger] user_left_of(ds[a].message) != #[trigger] user_left_of(ds[b].message)
}

/// The rooms of this node and the frames waiting to be delivered.
pub struct LocalRoomManager {
    rooms: Vec<Room>,
    outbox: Vec<Dispatch>,
}

pub open spec fn rooms_have(rooms: Seq<Room>, name: Seq<char>) -> bool {
    exists|i: int| 0 <= i < rooms.len() && #[trigger] rooms[i].name@ == name
}

pub open spec fn rooms_pos(rooms: Seq<Room>, name: Seq<char>) -> int {
    choose|i: int| 0 <= i < rooms.len() && #[trigger] rooms[i].name@ == name
}

/// Room name to participants, for a sequence of rooms with unique names.
pub open spec fn rooms_view(rooms: Seq<Room>) -> Map<Seq<char>, Seq<RoomParticipant>> {
    Map::new(|k: Seq<char>| rooms_have(rooms, k), |k: Seq<char>| rooms[rooms_pos(rooms, k)].participants@)
}

proof fn lemma_rooms_view_at(rooms: Seq<Room>, i: int)
    requires
        names_unique(rooms),
        0 <= i < rooms.len(),
    ensures
        rooms_view(rooms).contains_key(rooms[i].name@),
        rooms_view(rooms)[rooms[i].name@] == rooms[i].participants@,
{
    let k = rooms[i].name@;
    assert(rooms_have(rooms, k));
    let j = rooms_pos(rooms, k);
    assert(rooms[j].name@ == k);
}

proof fn lemma_rooms_update(rooms: Seq<Room>, i: int, r: Room)
    requires
        names_unique(rooms),
        0 <= i < rooms.len(),
        r.name@ == rooms[i].name@,
    ensures
        names_unique(rooms.update(i, r)),
        rooms_view(rooms.update(i, r)) == rooms_view(rooms).insert(r.name@, r.participants@),
{
    let n = rooms.update(i, r);
    assert forall|a: int, b: int| 0 <= a < n.len() && 0 <= b < n.len() && a != b implies #[trigger] n[a].name@
        != #[trigger] n[b].name@ by {
        assert(n[a].name@ == rooms[a].name@);
        assert(n[b].name@ == rooms[b].name@);
    }
    let m1 = rooms_view(n);
    let m2 = rooms_view(rooms).insert(r.name@, r.participants@);
    assert forall|k: Seq<char>| m1.contains_key(k) <==> m2.contains_key(k) by {
        if m1.contains_key(k) {
            let j = rooms_pos(n, k);
            assert(rooms[j].name@ == k);
            lemma_rooms_view_at(rooms, j);
        }
        if rooms_view(rooms).contains_key(k) {
            let j = rooms_pos(rooms, k);
            assert(n[j].name@ == k);
        }
        if k == r.name@ {
            assert(n[i].name@ == k);
        }
    }
    assert forall|k: Seq<char>| #[trigger] m1.contains_key(k) implies m1[k] == m2[k] by {
        let j = rooms_pos(n, k);
        lemma_rooms_view_at(n, j);
        if j != i {
            lemma_rooms_view_at(rooms, j);
        }
    }
    assert(m1 =~= m2);
}

proof fn lemma_rooms_push(rooms: Seq<Room>, r: Room)
    requires
        names_unique(rooms),
        !rooms_view(rooms).contains_key(r.name@),
    ensures
        names_unique(rooms.push(r)),
        rooms_view(rooms.push(r)) == rooms_view(rooms).insert(r.name@, r.participants@),
{
    let n = rooms.push(r);
    assert forall|a: int, b: int| 0 <= a < n.len() && 0 <= b < n.len() && a != b implies #[trigger] n[a].name@
        != #[trigger] n[b].name@ by {
        if a < rooms.len() && b < rooms.len() {
            assert(n[a] == rooms[a]);
            assert(n[b] == rooms[b]);
        } else if a < rooms.len() {
            assert(n[a] == rooms[a]);
            lemma_rooms_view_at(rooms, a);
        } else if b < rooms.len() {
            assert(n[b] == rooms[b]);
            lemma_rooms_view_at(rooms, b);
        }
    }
    let m1 = rooms_view(n);
    let m2 = rooms_view(rooms).insert(r.name@, r.participants@);
    assert forall|k: Seq<char>| m1.contains_key(k) <==> m2.contains_key(k) by {
        if m1.contains_key(k) {
            let j = rooms_pos(n, k);
            if j < rooms.len() {
                assert(rooms[j].name@ == k);
                lemma_rooms_view_at(rooms, j);
            }
        }
        if rooms_view(rooms).contains_key(k) {
            let j = rooms_pos(rooms, k);
            assert(n[j].name@ == k);
        }
        if k == r.name@ {
            assert(n[rooms.len() as int].name@ == k);
        }
    }
    assert forall|k: Seq<char>| #[trigger] m1.contains_key(k) implies m1[k] == m2[k] by {
        let j = rooms_pos(n, k);
        lemma_rooms_view_at(n, j);
        if j < rooms.len() {
            assert(n[j] == rooms[j]);
            lemma_rooms_view_at(rooms, j);
        }
    }
    assert(m1 =~= m2);
}

proof fn lemma_rooms_remove(rooms: Seq<Room>, i: int)
    requires
        names_unique(rooms),
        0 <= i < rooms.len(),
    ensures
        names_unique(rooms.remove(i)),
        rooms_view(rooms.remove(i)) == rooms_view(rooms).remove(rooms[i].name@),
{
    let n = rooms.remove(i);
    assert forall|a: int, b: int| 0 <= a < n.len() && 0 <= b < n.len() && a != b implies #[trigger] n[a].name@
        != #[trigger] n[b].name@ by {
        let a2 = if a < i { a } else { a + 1 };
        let b2 = if b < i { b } else { b + 1 };
        assert(n[a] == rooms[a2]);
        assert(n[b] == rooms[b2]);
    }
    let m1 = rooms_view(n);
    let m2 = rooms_view(rooms).remove(rooms[i].name@);
    assert forall|k: Seq<char>| m1.contains_key(k) <==> m2.contains_key(k) by {
        if m1.contains_key(k) {
            let j = rooms_pos(n, k);
            let j2 = if j < i { j } else { j + 1 };
            assert(n[j] == rooms[j2]);
            lemma_rooms_view_at(rooms, j2);
        }
        if m2.contains_key(k) {
            let j = rooms_pos(rooms, k);
            assert(j != i);
            let j1 = if j < i { j } else { j - 1 };
            assert(n[j1] == rooms[j]);
        }
    }
    assert forall|k: Seq<char>| #[trigger] m1.contains_key(k) implies m1[k] == m2[k] by {
        let j = rooms_pos(n, k);
        lemma_rooms_view_at(n, j);
        let j2 = if j < i { j } else { j + 1 };
        assert(n[j] == rooms[j2]);
        lemma_rooms_view_at(rooms, j2);
    }
    assert(m1 =~= m2);
}

impl LocalRoomManager {
    /// Room name to its participants, in order of joining.
    pub closed spec fn view(&self) -> Map<Seq<char>, Seq<RoomParticipant>> {
        rooms_view(self.rooms@)
    }

    /// Frames produced and not yet taken, oldest first.
    pub closed spec fn pending(self) -> Seq<Dispatch> {
        self.outbox@
    }

    /// Names are unique, user ids are unique within a room, and no room is empty.
    pub closed spec fn wf(self) -> bool {
        &&& names_unique(self.rooms@)
        &&& forall|i: int| 0 <= i < self.rooms@.len() ==> (#[trigger] self.rooms@[i]).wf()
        &&& forall|i: int| 0 <= i < self.rooms@.len() ==> (#[trigger] self.rooms@[i]).participants@.len() > 0
    }

    proof fn lemma_view_at(self, i: int)
        requires
            names_unique(self.rooms@),
            0 <= i < self.rooms@.len(),
        ensures
            self@.contains_key(self.rooms@[i].name@),
            self@[self.rooms@[i].name@] == self.rooms@[i].participants@,
    {
        lemma_rooms_view_at(self.rooms@, i);
    }

    /// What a well-formed registry promises of every room it holds.
    pub proof fn lemma_wf_rooms(self)
        requires
            self.wf(),
        ensures
            forall|k: Seq<char>| #[trigger] self@.contains_key(k) ==> self@[k].len() > 0 && unique_users(self@[k]),
    {
        assert forall|k: Seq<char>| #[trigger] self@.contains_key(k) implies self@[k].len() > 0
            && unique_users(self@[k]) by {
            let j = rooms_pos(self.rooms@, k);
            self.lemma_view_at(j);
            assert(self.rooms@[j].wf());
        }
    }

    /// An empty registry.
    pub fn new() -> (r: LocalRoomManager)
        ensures
            r.wf(),
            r@ == Map::<Seq<char>, Seq<RoomParticipant>>::empty(),
            r.pending().len() == 0,
    {
        let r = LocalRoomManager { rooms: Vec::new(), outbox: Vec::new() };
        assert(r@ =~= Map::<Seq<char>, Seq<RoomParticipant>>::empty());
        r
    }

    fn find_room(&self, name: &String) -> (r: Option<usize>)
        requires
            names_unique(self.rooms@),
        ensures
            r matches Some(i) ==> i < self.rooms@.len() && self.rooms@[i as int].name@ == name@,
            r is Some == self@.contains_key(name@),
    {
        let mut i: usize = 0;
        while i < self.rooms.len()
            invariant
                i <= self.rooms@.len(),
                names_unique(self.rooms@),
                forall|k: int| 0 <= k < i ==> self.rooms@[k].name@ != name@,
            decreases self.rooms@.len() - i,
        {
            if self.rooms[i].name == *name {
                proof {
                    self.lemma_view_at(i as int);
                }
                return Some(i);
            }
            i = i + 1;
        }
        None
    }

    /// Hands out the frames produced so far and empties the outbox.
    pub fn take_outbox(&mut self) -> (r: Vec<Dispatch>)
        ensures
            r@ == old(self).pending(),
            final(self).pending().len() == 0,
            final(self)@ == old(self)@,
            final(self).wf() == old(self).wf(),
    {
        let mut out: Vec<Dispatch> = Vec::new();
        std::mem::swap(&mut out, &mut self.outbox);
        proof {
            assert(self@ =~= old(self)@);
        }
        out
    }

    /// Whether a room of this name exists.
    pub fn room_exists(&self, room_name: &str) -> (r: bool)
        requires
            self.wf(),
        ensures
            r == self@.contains_key(room_name@),
    {
        let name = room_name.to_string();
        self.find_room(&name).is_some()
    }

    /// The rooms, for inspection.
    pub fn get_rooms(&self) -> (r: &Vec<Room>)
        requires
            self.wf(),
        ensures
            r@.len() == self@.dom().len(),
            forall|i: int| 0 <= i < r@.len() ==> self@.contains_key(#[trigger] r@[i].name@) && self@[r@[i].name@]
                == r@[i].participants@,
            forall|k: Seq<char>| #[trigger] self@.contains_key(k) ==> exists|i: int| 0 <= i < r@.len() && #[trigger] r@[i].name@ == k,
    {
        proof {
            assert forall|i: int| 0 <= i < self.rooms@.len() implies self@.contains_key(#[trigger] self.rooms@[i].name@)
                && self@[self.rooms@[i].name@] == self.rooms@[i].participants@ by {
                self.lemma_view_at(i);
            }
            self.lemma_dom_len();
        }
        &self.rooms
    }

    /// Adds `participant` to the room, creating the room when absent. Refuses a
    /// user id already present there. On success the participants that were
    /// there before are returned and each of them is sent `user-joined`.
    pub fn join_room(&mut self, room_name: String, participant: RoomParticipant) -> (r: Result<Vec<Participant>, String>)
        requires
            old(self).wf(),
        ensures
            final(self).wf(),
            final(self)@ == registry_step(old(self)@, RegistryStep::Join { room: room_name@, participant }),
            ({
                let before = members(old(self)@, room_name@);
                if has_user(before, participant.user.user_id) {
                    &&& r matches Err(e) && e@ == "User already in room"@
                    &&& final(self)@ == old(self)@
                    &&& final(self).pending() == old(self).pending()
                } else {
                    &&& r matches Ok(list) && list@ == public_list(before)
                    &&& final(self)@ == old(self)@.insert(room_name@, before.push(participant))
                    &&& final(self).pending().drop_last() == old(self).pending()
                    &&& final(self).pending().len() == old(self).pending().len() + 1
                    &&& final(self).pending().last().recipients@ == connections_of(before)
                    &&& final(self).pending().last().message == (ServerMessage::UserJoined {
                        room_name,
                        user: participant.public_view(),
                    })
                }
            }),
    {
        let uid = participant.user.user_id;
        let ghost old_rooms = self.rooms@;
        match self.find_room(&room_name) {
            Some(i) => {
                proof {
                    self.lemma_view_at(i as int);
                }
                if self.rooms[i].has_participant(uid) {
                    return Err("User already in room".to_string());
                }
                let existing = self.rooms[i].get_participants_list();
                let message = ServerMessage::UserJoined {
                    room_name: room_name.clone(),
                    user: participant.to_participant(),
                };
                let d = self.rooms[i].broadcast_to_others(uid, message);
                proof {
                    lemma_others_without_sender(old_rooms[i as int].participants@, uid);
                }
                let mut room = Room::new(String::new());
                std::mem::swap(&mut room, &mut self.rooms[i]);
                room.add_participant(participant);
                std::mem::swap(&mut room, &mut self.rooms[i]);
                proof {
                    assert(self.rooms@ == old_rooms.update(i as int, self.rooms@[i as int]));
                    lemma_rooms_update(old_rooms, i as int, self.rooms@[i as int]);
                    assert forall|k: int| 0 <= k < self.rooms@.len() implies (#[trigger] self.rooms@[k]).wf()
                        && self.rooms@[k].participants@.len() > 0 by {
                        if k != i {
                            assert(self.rooms@[k] == old_rooms[k]);
                        }
                    }
                }
                self.outbox.push(d);
                Ok(existing)
            },
            None => {
                let mut room = Room::new(room_name.clone());
                let message = ServerMessage::UserJoined {
                    room_name: room_name,
                    user: participant.to_participant(),
                };
                room.add_participant(participant);
                proof {
                    lemma_rooms_push(old_rooms, room);
                    assert(connections_of(Seq::<RoomParticipant>::empty()) =~= Seq::<ConnectionId>::empty());
                    assert(room.participants@ =~= seq![participant]);
                    assert(Seq::<RoomParticipant>::empty().push(participant) =~= seq![participant]);
                    assert(public_list(Seq::<RoomParticipant>::empty()) =~= Seq::<Participant>::empty());
                }
                self.rooms.push(room);
                proof {
                    assert forall|k: int| 0 <= k < self.rooms@.len() implies (#[trigger] self.rooms@[k]).wf()
                        && self.rooms@[k].participants@.len() > 0 by {
                        if k < old_rooms.len() {
                            assert(self.rooms@[k] == old_rooms[k]);
                        }
                    }
                }
                self.outbox.push(Dispatch { recipients: Vec::new(), message });
                Ok(Vec::new())
            },
        }
    }

    /// Removes a user from a room. Every participant the room had, the
    /// leaving user included, is sent `user-left`; a room left empty is
    /// deleted.
    pub fn leave_room(&mut self, room_name: &str, user_id: u32) -> (r: Result<(), String>)
        requires
            old(self).wf(),
        ensures
            final(self).wf(),
            final(self)@ == registry_step(old(self)@, RegistryStep::Leave { room: room_name@, user_id }),
            !old(self)@.contains_key(room_name@) ==> (r matches Err(e) && e@ == "Room not found"@)
                && final(self)@ == old(self)@ && final(self).pending() == old(self).pending(),
            old(self)@.contains_key(room_name@) && !has_user(old(self)@[room_name@], user_id) ==> (r matches Err(e)
                && e@ == "User not in room"@) && final(self)@ == old(self)@ && final(self).pending()
                == old(self).pending(),
            old(self)@.contains_key(room_name@) && has_user(old(self)@[room_name@], user_id) ==> ({
                let rest = without_user(old(self)@[room_name@], user_id);
                &&& r is Ok
                &&& final(self)@ == if rest.len() == 0 {
                    old(self)@.remove(room_name@)
                } else {
                    old(self)@.insert(room_name@, rest)
                }
                &&& final(self).pending().drop_last() == old(self).pending()
                &&& final(self).pending().len() == old(self).pending().len() + 1
                &&& final(self).pending().last().recipients@ == connections_of(old(self)@[room_name@])
                &&& final(self).pending().last().message matches ServerMessage::UserLeft { room_name: n, user_id: u }
                    && n@ == room_name@ && u == user_id
            }),
    {
        let name = room_name.to_string();
        let ghost old_rooms = self.rooms@;
        match self.find_room(&name) {
            None => Err("Room not found".to_string()),
            Some(i) => {
                proof {
                    self.lemma_view_at(i as int);
                }
                if !self.rooms[i].has_participant(user_id) {
                    return Err("User not in room".to_string());
                }
                let mut room = Room::new(String::new());
                std::mem::swap(&mut room, &mut self.rooms[i]);
                let d = room.broadcast_to_all(ServerMessage::UserLeft { room_name: name, user_id });
                let removed = room.remove_participant(user_id);
                proof {
                    assert(room.participants@ == without_user(old(self)@[room_name@], user_id));
                    assert(room.name@ == room_name@);
                }
                self.outbox.push(d);
                if room.is_empty() {
                    self.rooms.remove(i);
                    proof {
                        assert(self.rooms@ =~= old_rooms.remove(i as int));
                        lemma_rooms_remove(old_rooms, i as int);
                        assert forall|k: int| 0 <= k < self.rooms@.len() implies (#[trigger] self.rooms@[k]).wf()
                            && self.rooms@[k].participants@.len() > 0 by {
                            let k2 = if k < i { k } else { k + 1 };
                            assert(self.rooms@[k] == old_rooms[k2]);
                        }
                        assert(self@ == old(self)@.remove(room_name@));
                    }
                } else {
                    std::mem::swap(&mut room, &mut self.rooms[i]);
                    proof {
                        assert(self.rooms@ == old_rooms.update(i as int, self.rooms@[i as int]));
                        lemma_rooms_update(old_rooms, i as int, self.rooms@[i as int]);
                        assert forall|k: int| 0 <= k < self.rooms@.len() implies (#[trigger] self.rooms@[k]).wf()
                            && self.rooms@[k].participants@.len() > 0 by {
                            if k != i {
                                assert(self.rooms@[k] == old_rooms[k]);
                            }
                        }
                        assert(self@ == old(self)@.insert(room_name@, without_user(old(self)@[room_name@], user_id)));
                    }
                }
                Ok(())
            },
        }
    }

    /// Sends `message` to every participant of the room but `sender_id`.
    pub fn broadcast_to_room(&mut self, room_name: &str, sender_id: u32, message: ServerMessage) -> (r: Result<(), String>)
        requires
            old(self).wf(),
        ensures
            final(self).wf(),
            final(self)@ == old(self)@,
            !old(self)@.contains_key(room_name@) ==> (r matches Err(e) && e@ == "Room not found"@)
                && final(self).pending() == old(self).pending(),
            old(self)@.contains_key(room_name@) ==> {
                &&& r is Ok
                &&& final(self).pending().drop_last() == old(self).pending()
                &&& final(self).pending().len() == old(self).pending().len() + 1
                &&& final(self).pending().last().recipients@ == others_of(old(self)@[room_name@], sender_id)
                &&& final(self).pending().last().message == message
            },
    {
        let name = room_name.to_string();
        match self.find_room(&name) {
            None => Err("Room not found".to_string()),
            Some(i) => {
                proof {
                    self.lemma_view_at(i as int);
                }
                let d = self.rooms[i].broadcast_to_others(sender_id, message);
                self.outbox.push(d);
                Ok(())
            },
        }
    }

    /// Sends `message` to one participant of the room; nothing is sent when
    /// that user is not here.
    pub fn send_to_user_in_room(&mut self, room_name: &str, target_user_id: u32, message: ServerMessage) -> (r: Result<(), String>)
        requires
            old(self).wf(),
        ensures
            final(self).wf(),
            final(self)@ == old(self)@,
            !old(self)@.contains_key(room_name@) ==> (r matches Err(e) && e@ == "Room not found"@)
                && final(self).pending() == old(self).pending(),
            old(self)@.contains_key(room_name@) && !has_user(old(self)@[room_name@], target_user_id) ==> r is Ok
                && final(self).pending() == old(self).pending(),
            old(self)@.contains_key(room_name@) && has_user(old(self)@[room_name@], target_user_id) ==> {
                let ps = old(self)@[room_name@];
                &&& r is Ok
                &&& final(self).pending().drop_last() == old(self).pending()
                &&& final(self).pending().len() == old(self).pending().len() + 1
                &&& final(self).pending().last().recipients@ == seq![ps[user_index(ps, target_user_id)].connection_id]
                &&& final(self).pending().last().message == message
            },
    {
        let name = room_name.to_string();
        match self.find_room(&name) {
            None => Err("Room not found".to_string()),
            Some(i) => {
                proof {
                    self.lemma_view_at(i as int);
                }
                match self.rooms[i].send_to_user(target_user_id, message) {
                    Some(d) => {
                        self.outbox.push(d);
                    },
                    None => {},
                }
                Ok(())
            },
        }
    }

    /// Whether the user is a participant of the room.
    pub fn user_in_room(&self, room_name: &str, user_id: u32) -> (r: bool)
        requires
            self.wf(),
        ensures
            r == (self@.contains_key(room_name@) && has_user(self@[room_name@], user_id)),
    {
        let name = room_name.to_string();
        match self.find_room(&name) {
            None => false,
            Some(i) => {
                proof {
                    self.lemma_view_at(i as int);
                }
                self.rooms[i].has_participant(user_id)
            },
        }
    }

    /// The public list of a room's participants; empty when it does not exist.
    pub fn get_room_participants(&self, room_name: &str) -> (r: Vec<Participant>)
        requires
            self.wf(),
        ensures
            r@ == public_list(members(self@, room_name@)),
    {
        let name = room_name.to_string();
        match self.find_room(&name) {
            None => {
                proof {
                    assert(public_list(Seq::<RoomParticipant>::empty()) =~= Seq::<Participant>::empty());
                }
                Vec::new()
            },
            Some(i) => {
                proof {
                    self.lemma_view_at(i as int);
                }
                self.rooms[i].get_participants_list()
            },
        }
    }

    /// A registry on this node is always available.
    pub fn health_check(&self) -> (r: bool)
        ensures
            r,
    {
        true
    }

    /// Removes, from every room, the entry of `user_id` whose connection is
    /// `connection_id`; an entry of the same user through another connection
    /// stays. Each room that lost the entry sends `user-left` to the rest, and
    /// rooms left empty are deleted.
    pub fn remove_user_from_all_rooms(&mut self, user_id: u32, connection_id: ConnectionId)
        requires
            old(self).wf(),
        ensures
            final(self).wf(),
            final(self)@ == after_close(old(self)@, user_id, connection_id),
            final(self)@ == registry_step(old(self)@, RegistryStep::Close { user_id, connection_id }),
            final(self).pending().len() >= old(self).pending().len(),
            final(self).pending().take(old(self).pending().len() as int) == old(self).pending(),
            left_notices(
                final(self).pending().skip(old(self).pending().len() as int),
                old(self)@,
                user_id,
                connection_id,
            ),
            left_notices_complete(
                final(self).pending().skip(old(self).pending().len() as int),
                old(self)@,
                user_id,
                connection_id,
            ),
    {
        let ghost old_rooms = self.rooms@;
        let ghost old_out = self.outbox@;
        let ghost m0 = self@;
        proof {
            assert forall|j: int| 0 <= j < old_rooms.len() implies #[trigger] rooms_view(old_rooms).contains_key(
                old_rooms[j].name@,
            ) && rooms_view(old_rooms)[old_rooms[j].name@] == old_rooms[j].participants@ by {
                lemma_rooms_view_at(old_rooms, j);
            }
        }
        let mut rest: Vec<Room> = Vec::new();
        std::mem::swap(&mut rest, &mut self.rooms);
        let mut kept: Vec<Room> = Vec::new();
        let ghost mut idx: Seq<int> = Seq::empty();
        let ghost mut nidx: Seq<int> = Seq::empty();
        let mut i: usize = 0;
        while i < rest.len()
            invariant
                rest@.len() == old_rooms.len(),
                i <= old_rooms.len(),
                forall|j: int| i <= j < old_rooms.len() ==> rest@[j] == old_rooms[j],
                names_unique(old_rooms),
                forall|j: int| 0 <= j < old_rooms.len() ==> (#[trigger] old_rooms[j]).wf(),
                forall|j: int| 0 <= j < old_rooms.len() ==> #[trigger] rooms_view(old_rooms).contains_key(
                    old_rooms[j].name@,
                ) && rooms_view(old_rooms)[old_rooms[j].name@] == old_rooms[j].participants@,
                idx.len() == kept@.len(),
                forall|a: int, b: int| 0 <= a < b < idx.len() ==> idx[a] < idx[b],
                forall|a: int|
                    0 <= a < idx.len() ==> 0 <= #[trigger] idx[a] < i && kept@[a].name@ == old_rooms[idx[a]].name@
                        && kept@[a].participants@ == without_entry(
                        old_rooms[idx[a]].participants@,
                        user_id,
                        connection_id,
                    ) && kept@[a].wf() && kept@[a].participants@.len() > 0,
                forall|j: int|
                    0 <= j < i && without_entry(#[trigger] old_rooms[j].participants@, user_id, connection_id).len()
                        > 0 ==> exists|a: int| 0 <= a < idx.len() && idx[a] == j,
                self.outbox@.len() >= old_out.len(),
                self.outbox@.take(old_out.len() as int) == old_out,
                nidx.len() == self.outbox@.len() - old_out.len(),
                forall|a: int, b: int| 0 <= a < b < nidx.len() ==> nidx[a] < nidx[b],
                forall|a: int|
                    0 <= a < nidx.len() ==> 0 <= #[trigger] nidx[a] < i && user_left_of(
                        self.outbox@[old_out.len() + a].message,
                    ) == Some((old_rooms[nidx[a]].name@, user_id)),
                forall|j: int|
                    0 <= j < i && holds_entry(#[trigger] old_rooms[j].participants@, user_id, connection_id)
                        ==> exists|a: int| 0 <= a < nidx.len() && nidx[a] == j,
                forall|k: int|
                    #![trigger self.outbox@[k]]
                    old_out.len() <= k < self.outbox@.len() ==> exists|j: int|
                        {
                            &&& 0 <= j < i
                            &&& holds_entry(#[trigger] old_rooms[j].participants@, user_id, connection_id)
                            &&& self.outbox@[k].recipients@ == connections_of(
                                without_entry(old_rooms[j].participants@, user_id, connection_id),
                            )
                            &&& self.outbox@[k].message matches ServerMessage::UserLeft {
                                room_name: rn,
                                user_id: u,
                            } && rn@ == old_rooms[j].name@ && u == user_id
                        },
            decreases old_rooms.len() - i,
        {
            let mut room = Room::new(String::new());
            std::mem::swap(&mut room, &mut rest[i]);
            let ghost ps = room.participants@;
            proof {
                assert(room == old_rooms[i as int]);
            }
            let mut matched = false;
            match room.position_of(user_id) {
                Some(k) => {
                    proof {
                        assert(user_index(ps, user_id) == k);
                    }
                    if room.participants[k].connection_id == connection_id {
                        matched = true;
                    }
                },
                None => {},
            }
            proof {
                assert(matched == holds_entry(ps, user_id, connection_id)) by {
                    if holds_entry(ps, user_id, connection_id) {
                        let w = choose|w: int|
                            0 <= w < ps.len() && (#[trigger] ps[w]).user.user_id == user_id
                                && ps[w].connection_id == connection_id;
                        assert(user_index(ps, user_id) == w);
                    }
                }
            }
            let ghost nidx_before = nidx;
            if matched {
                room.remove_participant(user_id);
                let ghost before_out = self.outbox@;
                let d = room.broadcast_to_all(
                    ServerMessage::UserLeft { room_name: room.name.clone(), user_id },
                );
                self.outbox.push(d);
                proof {
                    nidx = nidx.push(i as int);
                    assert(room.name@ == old_rooms[i as int].name@);
                    assert(room.participants@ == without_entry(ps, user_id, connection_id));
                    assert(self.outbox@.take(old_out.len() as int) =~= before_out.take(old_out.len() as int));
                    assert forall|k: int| #![trigger self.outbox@[k]] old_out.len() <= k < self.outbox@.len() implies exists|j: int|
                        {
                            &&& 0 <= j < i + 1
                            &&& holds_entry(#[trigger] old_rooms[j].participants@, user_id, connection_id)
                            &&& self.outbox@[k].recipients@ == connections_of(
                                without_entry(old_rooms[j].participants@, user_id, connection_id),
                            )
                            &&& self.outbox@[k].message matches ServerMessage::UserLeft {
                                room_name: rn,
                                user_id: u,
                            } && rn@ == old_rooms[j].name@ && u == user_id
                        } by {
                        if k == self.outbox@.len() - 1 {
                            assert(old_rooms[i as int].participants@ == ps);
                        } else {
                            assert(self.outbox@[k] == before_out[k]);
                        }
                    }
                }
            } else {
                proof {
                    assert(without_entry(ps, user_id, connection_id) == ps);
                }
            }
            proof {
                assert(ps == old_rooms[i as int].participants@);
                assert forall|a: int|
                    0 <= a < nidx.len() implies 0 <= #[trigger] nidx[a] < i + 1 && user_left_of(
                    self.outbox@[old_out.len() + a].message,
                ) == Some((old_rooms[nidx[a]].name@, user_id)) by {
                    if a < nidx_before.len() {
                        assert(nidx[a] == nidx_before[a]);
                    }
                }
                assert forall|j: int|
                    0 <= j < i + 1 && holds_entry(#[trigger] old_rooms[j].participants@, user_id, connection_id)
                        implies exists|a: int| 0 <= a < nidx.len() && nidx[a] == j by {
                    if j == i {
                        assert(nidx[nidx.len() - 1] == j);
                    } else {
                        let a = choose|a: int| 0 <= a < nidx_before.len() && nidx_before[a] == j;
                        assert(nidx[a] == nidx_before[a]);
                    }
                }
            }
            let ghost kept_before = kept@;
            let ghost idx_before = idx;
            if !room.is_empty() {
                kept.push(room);
                proof {
                    idx = idx.push(i as int);
                }
            }
            proof {
                assert forall|a: int|
                    0 <= a < idx.len() implies 0 <= #[trigger] idx[a] < i + 1 && kept@[a].name@
                    == old_rooms[idx[a]].name@ && kept@[a].participants@ == without_entry(
                    old_rooms[idx[a]].participants@,
                    user_id,
                    connection_id,
                ) && kept@[a].wf() && kept@[a].participants@.len() > 0 by {
                    if a < kept_before.len() {
                        assert(kept@[a] == kept_before[a]);
                        assert(idx[a] == idx_before[a]);
                    }
                }
                assert forall|j: int|
                    0 <= j < i + 1 && without_entry(#[trigger] old_rooms[j].participants@, user_id, connection_id).len()
                        > 0 implies exists|a: int| 0 <= a < idx.len() && idx[a] == j by {
                    if j == i {
                        assert(idx[idx.len() - 1] == j);
                    } else {
                        let a = choose|a: int| 0 <= a < idx_before.len() && idx_before[a] == j;
                        assert(idx[a] == idx_before[a]);
                    }
                }
            }
            i = i + 1;
        }
        self.rooms = kept;
        proof {
            let m = rooms_view(old_rooms);
            assert(m == old(self)@);
            assert forall|a: int, b: int|
                0 <= a < self.rooms@.len() && 0 <= b < self.rooms@.len() && a != b implies #[trigger] self.rooms@[a].name@
                != #[trigger] self.rooms@[b].name@ by {
                if a < b {
                    assert(idx[a] < idx[b]);
                } else {
                    assert(idx[b] < idx[a]);
                }
            }
            let f = after_close(m, user_id, connection_id);
            assert forall|k: Seq<char>| self@.contains_key(k) <==> f.contains_key(k) by {
                if self@.contains_key(k) {
                    let a = rooms_pos(self.rooms@, k);
                    let j = idx[a];
                    assert(m.contains_key(old_rooms[j].name@));
                }
                if f.contains_key(k) {
                    let j = rooms_pos(old_rooms, k);
                    let a = choose|a: int| 0 <= a < idx.len() && idx[a] == j;
                    assert(self.rooms@[a].name@ == k);
                }
            }
            assert forall|k: Seq<char>| #[trigger] self@.contains_key(k) implies self@[k] == f[k] by {
                let a = rooms_pos(self.rooms@, k);
                lemma_rooms_view_at(self.rooms@, a);
                let j = idx[a];
                assert(m[old_rooms[j].name@] == old_rooms[j].participants@);
            }
            assert(self@ =~= f);
            assert forall|a: int| 0 <= a < self.rooms@.len() implies (#[trigger] self.rooms@[a]).wf()
                && self.rooms@[a].participants@.len() > 0 by {
                assert(0 <= idx[a]);
            }
            let tail = self.pending().skip(old_out.len() as int);
            assert forall|n: Seq<char>|
                m0.contains_key(n) && #[trigger] holds_entry(m0[n], user_id, connection_id) implies exists|k: int|
                0 <= k < tail.len() && #[trigger] user_left_of(tail[k].message) == Some((n, user_id)) by {
                let j = rooms_pos(old_rooms, n);
                lemma_rooms_view_at(old_rooms, j);
                assert(holds_entry(old_rooms[j].participants@, user_id, connection_id));
                let a = choose|a: int| 0 <= a < nidx.len() && nidx[a] == j;
                assert(tail[a] == self.outbox@[old_out.len() + a]);
            }
            assert forall|a: int, b: int| 0 <= a < b < tail.len() implies #[trigger] user_left_of(tail[a].message)
                != #[trigger] user_left_of(tail[b].message) by {
                assert(tail[a] == self.outbox@[old_out.len() + a]);
                assert(tail[b] == self.outbox@[old_out.len() + b]);
                assert(nidx[a] < nidx[b]);
                assert(old_rooms[nidx[a]].name@ != old_rooms[nidx[b]].name@);
            }
            assert forall|k: int| 0 <= k < tail.len() implies #[trigger] is_left_notice(tail[k], m0, user_id, connection_id) by {
                let k2 = k + old_out.len();
                assert(tail[k] == self.outbox@[k2]);
                let j = choose|j: int|
                    {
                        &&& 0 <= j < i
                        &&& holds_entry(#[trigger] old_rooms[j].participants@, user_id, connection_id)
                        &&& self.outbox@[k2].recipients@ == connections_of(
                            without_entry(old_rooms[j].participants@, user_id, connection_id),
                        )
                        &&& self.outbox@[k2].message matches ServerMessage::UserLeft {
                            room_name: rn,
                            user_id: u,
                        } && rn@ == old_rooms[j].name@ && u == user_id
                    };
                assert(m0[old_rooms[j].name@] == old_rooms[j].participants@);
            }
        }
    }

    proof fn lemma_dom_len(self)
        requires
            names_unique(self.rooms@),
        ensures
            self@.dom().len() == self.rooms@.len(),
            self@.dom().finite(),
        decreases self.rooms@.len(),
    {
        let names = self.rooms@.map_values(|r: Room| r.name@);
        assert forall|k: Seq<char>| self@.dom().contains(k) <==> names.to_set().contains(k) by {
            if self@.dom().contains(k) {
                let i = rooms_pos(self.rooms@, k);
                assert(names[i] == k);
            }
            if names.to_set().contains(k) {
                let i = choose|i: int| 0 <= i < names.len() && names[i] == k;
                assert(self.rooms@[i].name@ == k);
            }
        }
        assert(self@.dom() =~= names.to_set());
        assert forall|i: int, j: int| 0 <= i < names.len() && 0 <= j < names.len() && i != j implies names[i] != names[j] by {
            assert(self.rooms@[i].name@ != self.rooms@[j].name@);
        }
        assert(names.no_duplicates());
        names.unique_seq_to_set();
    }
}

proof fn lemma_others_without_sender(ps: Seq<RoomParticipant>, sender: u32)
    requires
        !has_user(ps, sender),
    ensures
        others_of(ps, sender) == connections_of(ps),
    decreases ps.len(),
{
    if ps.len() > 0 {
        let q = ps.drop_last();
        assert(!has_user(q, sender)) by {
            if has_user(q, sender) {
                let i = choose|i: int| 0 <= i < q.len() && #[trigger] q[i].user.user_id == sender;
                assert(ps[i] == q[i]);
            }
        }
        lemma_others_without_sender(q, sender);
        assert(ps[ps.len() - 1].user.user_id != sender);
        assert(connections_of(ps) =~= connections_of(q).push(ps.last().connection_id));
    } else {
        assert(connections_of(ps) =~= Seq::<ConnectionId>::empty());
    }
}

/// Removing a user's entry leaves no entry of that user, keeps every other
/// user, and keeps user ids unique.
pub proof fn lemma_without_user(ps: Seq<RoomParticipant>, user_id: u32)
    requires
        unique_users(ps),
    ensures
        unique_users(without_user(ps, user_id)),
        !has_user(without_user(ps, user_id), user_id),
        forall|v: u32| v != user_id ==> has_user(without_user(ps, user_id), v) == has_user(ps, v),
{
    let r = without_user(ps, user_id);
    if has_user(ps, user_id) {
        let j = user_index(ps, user_id);
        assert forall|a: int, b: int| 0 <= a < r.len() && 0 <= b < r.len() && a != b implies #[trigger] r[a].user.user_id
            != #[trigger] r[b].user.user_id by {
            let a2 = if a < j { a } else { a + 1 };
            let b2 = if b < j { b } else { b + 1 };
            assert(r[a] == ps[a2]);
            assert(r[b] == ps[b2]);
        }
        assert(!has_user(r, user_id)) by {
            if has_user(r, user_id) {
                let a = choose|a: int| 0 <= a < r.len() && #[trigger] r[a].user.user_id == user_id;
                let a2 = if a < j { a } else { a + 1 };
                assert(r[a] == ps[a2]);
            }
        }
        assert forall|v: u32| v != user_id implies has_user(r, v) == has_user(ps, v) by {
            if has_user(ps, v) {
                let a = choose|a: int| 0 <= a < ps.len() && #[trigger] ps[a].user.user_id == v;
                let a1 = if a < j { a } else { a - 1 };
                assert(r[a1] == ps[a]);
            }
            if has_user(r, v) {
                let a = choose|a: int| 0 <= a < r.len() && #[trigger] r[a].user.user_id == v;
                let a2 = if a < j { a } else { a + 1 };
                assert(r[a] == ps[a2]);
            }
        }
    }
}

/// Removing the entry of `(user_id, connection_id)` leaves no such entry and
/// keeps every other entry, including the same user through another connection.
pub proof fn lemma_without_entry(ps: Seq<RoomParticipant>, user_id: u32, connection_id: ConnectionId)
    requires
        unique_users(ps),
    ensures
        unique_users(without_entry(ps, user_id, connection_id)),
        !holds_entry(without_entry(ps, user_id, connection_id), user_id, connection_id),
        forall|v: u32, d: ConnectionId|
            !(v == user_id && d == connection_id) ==> holds_entry(without_entry(ps, user_id, connection_id), v, d)
                == holds_entry(ps, v, d),
{
    let r = without_entry(ps, user_id, connection_id);
    if has_user(ps, user_id) && ps[user_index(ps, user_id)].connection_id == connection_id {
        let j = user_index(ps, user_id);
        assert(r == without_user(ps, user_id));
        lemma_without_user(ps, user_id);
        assert(!holds_entry(r, user_id, connection_id)) by {
            if holds_entry(r, user_id, connection_id) {
                let a = choose|a: int|
                    0 <= a < r.len() && (#[trigger] r[a]).user.user_id == user_id && r[a].connection_id == connection_id;
                assert(has_user(r, user_id));
            }
        }
        assert forall|v: u32, d: ConnectionId|
            !(v == user_id && d == connection_id) implies holds_entry(r, v, d) == holds_entry(ps, v, d) by {
            if holds_entry(ps, v, d) {
                let a = choose|a: int| 0 <= a < ps.len() && (#[trigger] ps[a]).user.user_id == v && ps[a].connection_id == d;
                assert(a != j);
                let a1 = if a < j { a } else { a - 1 };
                assert(r[a1] == ps[a]);
            }
            if holds_entry(r, v, d) {
                let a = choose|a: int| 0 <= a < r.len() && (#[trigger] r[a]).user.user_id == v && r[a].connection_id == d;
                let a2 = if a < j { a } else { a + 1 };
                assert(r[a] == ps[a2]);
            }
        }
    } else {
        assert(!holds_entry(ps, user_id, connection_id)) by {
            if holds_entry(ps, user_id, connection_id) {
                let a = choose|a: int|
                    0 <= a < ps.len() && (#[trigger] ps[a]).user.user_id == user_id && ps[a].connection_id == connection_id;
                assert(has_user(ps, user_id));
                assert(user_index(ps, user_id) == a);
            }
        }
    }
}

/// No room of a well-formed registry is empty: a room exists only while it has
/// a participant.
pub proof fn law_no_empty_room(m: LocalRoomManager, room_name: Seq<char>)
    requires
        m.wf(),
    ensures
        m@.contains_key(room_name) ==> m@[room_name].len() > 0,
{
    m.lemma_wf_rooms();
}

/// After a successful join of `participant` to a room, the user is in that room.
pub proof fn law_member_after_join(
    before: Map<Seq<char>, Seq<RoomParticipant>>,
    room_name: Seq<char>,
    participant: RoomParticipant,
)
    requires
        !has_user(members(before, room_name), participant.user.user_id),
    ensures
        ({
            let after = before.insert(room_name, members(before, room_name).push(participant));
            after.contains_key(room_name) && has_user(after[room_name], participant.user.user_id)
        }),
{
    let ps = members(before, room_name).push(participant);
    assert(ps[ps.len() - 1].user.user_id == participant.user.user_id);
}

/// Another user leaving a room keeps `user_id` in it.
pub proof fn law_member_kept_by_other_leave(ps: Seq<RoomParticipant>, leaving: u32, user_id: u32)
    requires
        unique_users(ps),
        has_user(ps, user_id),
        leaving != user_id,
    ensures
        has_user(without_user(ps, leaving), user_id),
        without_user(ps, leaving).len() > 0,
{
    lemma_without_user(ps, leaving);
}

/// The close of a stream that is not the member's own connection keeps the
/// member in every room it was in.
pub proof fn law_member_kept_by_other_close(
    m: Map<Seq<char>, Seq<RoomParticipant>>,
    room_name: Seq<char>,
    user_id: u32,
    connection_id: ConnectionId,
    closed_user: u32,
    closed_connection: ConnectionId,
)
    requires
        forall|k: Seq<char>| #[trigger] m.contains_key(k) ==> unique_users(m[k]),
        m.contains_key(room_name),
        holds_entry(m[room_name], user_id, connection_id),
        !(user_id == closed_user && connection_id == closed_connection),
    ensures
        after_close(m, closed_user, closed_connection).contains_key(room_name),
        holds_entry(after_close(m, closed_user, closed_connection)[room_name], user_id, connection_id),
{
    lemma_without_entry(m[room_name], closed_user, closed_connection);
    let r = without_entry(m[room_name], closed_user, closed_connection);
    assert(holds_entry(r, user_id, connection_id));
    let a = choose|a: int| 0 <= a < r.len() && (#[trigger] r[a]).user.user_id == user_id && r[a].connection_id == connection_id;
    assert(r.len() > 0);
}

/// After the stream of `user_id` with `connection_id` closes, no room holds
/// that user through that connection.
pub proof fn law_no_entry_after_close(m: Map<Seq<char>, Seq<RoomParticipant>>, user_id: u32, connection_id: ConnectionId)
    requires
        forall|k: Seq<char>| #[trigger] m.contains_key(k) ==> unique_users(m[k]),
    ensures
        forall|k: Seq<char>| #[trigger] after_close(m, user_id, connection_id).contains_key(k) ==> !holds_entry(
            after_close(m, user_id, connection_id)[k],
            user_id,
            connection_id,
        ),
{
    assert forall|k: Seq<char>| #[trigger] after_close(m, user_id, connection_id).contains_key(k) implies !holds_entry(
        after_close(m, user_id, connection_id)[k],
        user_id,
        connection_id,
    ) by {
        lemma_without_entry(m[k], user_id, connection_id);
    }
}

/// Closing one connection of a user removes only entries with both that user
/// id and that connection: every other entry survives, among them the same
/// user through a different connection.
pub proof fn law_close_matches_user_and_connection(
    m: Map<Seq<char>, Seq<RoomParticipant>>,
    user_id: u32,
    connection_id: ConnectionId,
    room_name: Seq<char>,
    other: ConnectionId,
)
    requires
        forall|k: Seq<char>| #[trigger] m.contains_key(k) ==> unique_users(m[k]),
        m.contains_key(room_name),
        holds_entry(m[room_name], user_id, other),
        other != connection_id,
    ensures
        after_close(m, user_id, connection_id).contains_key(room_name),
        holds_entry(after_close(m, user_id, connection_id)[room_name], user_id, other),
{
    law_member_kept_by_other_close(m, room_name, user_id, other, user_id, connection_id);
}

/// Once a user has left a room, the user is no longer there, so a second
/// `leave_room` is refused and changes nothing.
pub proof fn law_second_leave_refused(ps: Seq<RoomParticipant>, user_id: u32)
    requires
        unique_users(ps),
    ensures
        !has_user(without_user(ps, user_id), user_id),
{
    lemma_without_user(ps, user_id);
}

/// A broadcast by `sender` in a room reaches every other participant and no
/// entry of the sender.
pub proof fn law_broadcast_reaches_others_only(ps: Seq<RoomParticipant>, sender: u32, receiver: u32)
    requires
        unique_users(ps),
        has_user(ps, receiver),
        receiver != sender,
    ensures
        others_of(ps, sender).contains(ps[user_index(ps, receiver)].connection_id),
        forall|x: ConnectionId| #[trigger] others_of(ps, sender).contains(x) ==> exists|i: int|
            0 <= i < ps.len() && ps[i].connection_id == x && #[trigger] ps[i].user.user_id != sender,
{
    lemma_others_members(ps, sender);
}

proof fn lemma_others_members(ps: Seq<RoomParticipant>, sender: u32)
    ensures
        forall|i: int| 0 <= i < ps.len() && #[trigger] ps[i].user.user_id != sender ==> others_of(ps, sender).contains(
            ps[i].connection_id,
        ),
        forall|x: ConnectionId| #[trigger] others_of(ps, sender).contains(x) ==> exists|i: int|
            0 <= i < ps.len() && ps[i].connection_id == x && #[trigger] ps[i].user.user_id != sender,
    decreases ps.len(),
{
    if ps.len() > 0 {
        let q = ps.drop_last();
        lemma_others_members(q, sender);
        let o = others_of(ps, sender);
        let oq = others_of(q, sender);
        assert forall|i: int| 0 <= i < ps.len() && #[trigger] ps[i].user.user_id != sender implies o.contains(
            ps[i].connection_id,
        ) by {
            if i < ps.len() - 1 {
                assert(q[i] == ps[i]);
                let w = choose|w: int| 0 <= w < oq.len() && oq[w] == ps[i].connection_id;
                assert(o[w] == oq[w]);
            } else {
                assert(o[o.len() - 1] == ps[i].connection_id);
            }
        }
        assert forall|x: ConnectionId| #[trigger] o.contains(x) implies exists|i: int|
            0 <= i < ps.len() && ps[i].connection_id == x && #[trigger] ps[i].user.user_id != sender by {
            let w = choose|w: int| 0 <= w < o.len() && o[w] == x;
            if w < oq.len() {
                assert(oq[w] == x);
                assert(oq.contains(x));
                let i = choose|i: int| 0 <= i < q.len() && q[i].connection_id == x && #[trigger] q[i].user.user_id != sender;
                assert(ps[i] == q[i]);
            } else {
                assert(ps[ps.len() - 1].connection_id == x);
            }
        }
    }
}

/// The room router of a node running alone: a registry behind the
/// operations that the connection handler uses.
pub struct RoomManager {
    pub inner: LocalRoomManager,
}

impl RoomManager {
    pub open spec fn view(&self) -> Map<Seq<char>, Seq<RoomParticipant>> {
        self.inner@
    }

    pub open spec fn wf(&self) -> bool {
        self.inner.wf()
    }

    /// A router over an empty registry.
    pub fn new() -> (r: RoomManager)
        ensures
            r.wf(),
            r@ == Map::<Seq<char>, Seq<RoomParticipant>>::empty(),
    {
        RoomManager { inner: LocalRoomManager::new() }
    }

    /// A router over the given registry.
    pub fn with_implementation(implementation: LocalRoomManager) -> (r: RoomManager)
        ensures
            r.inner == implementation,
    {
        RoomManager { inner: implementation }
    }

    /// The rooms, for inspection.
    pub fn get_rooms(&self) -> (r: &Vec<Room>)
        requires
            self.wf(),
        ensures
            forall|i: int| 0 <= i < r@.len() ==> self@.contains_key(#[trigger] r@[i].name@) && self@[r@[i].name@]
                == r@[i].participants@,
            forall|k: Seq<char>| #[trigger] self@.contains_key(k) ==> exists|i: int| 0 <= i < r@.len() && #[trigger] r@[i].name@ == k,
    {
        self.inner.get_rooms()
    }

    /// See [`LocalRoomManager::join_room`].
    pub fn join_room(&mut self, room_name: String, participant: RoomParticipant) -> (r: Result<Vec<Participant>, String>)
        requires
            old(self).wf(),
        ensures
            final(self).wf(),
            ({
                let before = members(old(self)@, room_name@);
                if has_user(before, participant.user.user_id) {
                    &&& r matches Err(e) && e@ == "User already in room"@
                    &&& final(self)@ == old(self)@
                } else {
                    &&& r matches Ok(list) && list@ == public_list(before)
                    &&& final(self)@ == old(self)@.insert(room_name@, before.push(participant))
                    &&& final(self).inner.pending().drop_last() == old(self).inner.pending()
                    &&& final(self).inner.pending().len() == old(self).inner.pending().len() + 1
                    &&& final(self).inner.pending().last().recipients@ == connections_of(before)
                    &&& final(self).inner.pending().last().message == (ServerMessage::UserJoined {
                        room_name,
                        user: participant.public_view(),
                    })
                }
            }),
    {
        self.inner.join_room(room_name, participant)
    }

    /// See [`LocalRoomManager::leave_room`].
    pub fn leave_room(&mut self, room_name: &str, user_id: u32) -> (r: Result<(), String>)
        requires
            old(self).wf(),
        ensures
            final(self).wf(),
            final(self)@ == registry_step(old(self)@, RegistryStep::Leave { room: room_name@, user_id }),
            !old(self)@.contains_key(room_name@) ==> (r matches Err(e) && e@ == "Room not found"@) && final(self)@
                == old(self)@,
            old(self)@.contains_key(room_name@) && !has_user(old(self)@[room_name@], user_id) ==> (r matches Err(e)
                && e@ == "User not in room"@) && final(self)@ == old(self)@,
            old(self)@.contains_key(room_name@) && has_user(old(self)@[room_name@], user_id) ==> ({
                let rest = without_user(old(self)@[room_name@], user_id);
                &&& r is Ok
                &&& final(self)@ == if rest.len() == 0 {
                    old(self)@.remove(room_name@)
                } else {
                    old(self)@.insert(room_name@, rest)
                }
                &&& final(self).inner.pending().drop_last() == old(self).inner.pending()
                &&& final(self).inner.pending().len() == old(self).inner.pending().len() + 1
                &&& final(self).inner.pending().last().recipients@ == connections_of(old(self)@[room_name@])
                &&& user_left_of(final(self).inner.pending().last().message) == Some((room_name@, user_id))
            }),
    {
        self.inner.leave_room(room_name, user_id)
    }

    /// See [`LocalRoomManager::broadcast_to_room`].
    pub fn broadcast_to_room(&mut self, room_name: &str, sender_id: u32, message: ServerMessage) -> (r: Result<(), String>)
        requires
            old(self).wf(),
        ensures
            final(self).wf(),
            final(self)@ == old(self)@,
            r is Ok <==> old(self)@.contains_key(room_name@),
            r matches Err(e) ==> e@ == "Room not found"@,
            !old(self)@.contains_key(room_name@) ==> final(self).inner.pending() == old(self).inner.pending(),
            old(self)@.contains_key(room_name@) ==> {
                &&& final(self).inner.pending().drop_last() == old(self).inner.pending()
                &&& final(self).inner.pending().len() == old(self).inner.pending().len() + 1
                &&& final(self).inner.pending().last().recipients@ == others_of(old(self)@[room_name@], sender_id)
                &&& final(self).inner.pending().last().message == message
            },
    {
        self.inner.broadcast_to_room(room_name, sender_id, message)
    }

    /// See [`LocalRoomManager::send_to_user_in_room`].
    pub fn send_to_user_in_room(&mut self, room_name: &str, target_user_id: u32, message: ServerMessage) -> (r: Result<(), String>)
        requires
            old(self).wf(),
        ensures
            final(self).wf(),
            final(self)@ == old(self)@,
            r is Ok <==> old(self)@.contains_key(room_name@),
            r matches Err(e) ==> e@ == "Room not found"@,
            !(old(self)@.contains_key(room_name@) && has_user(old(self)@[room_name@], target_user_id))
                ==> final(self).inner.pending() == old(self).inner.pending(),
            old(self)@.contains_key(room_name@) && has_user(old(self)@[room_name@], target_user_id) ==> {
                let ps = old(self)@[room_name@];
                &&& final(self).inner.pending().drop_last() == old(self).inner.pending()
                &&& final(self).inner.pending().len() == old(self).inner.pending().len() + 1
                &&& final(self).inner.pending().last().recipients@ == seq![ps[user_index(ps, target_user_id)].connection_id]
                &&& final(self).inner.pending().last().message == message
            },
    {
        self.inner.send_to_user_in_room(room_name, target_user_id, message)
    }

    /// See [`LocalRoomManager::user_in_room`].
    pub fn user_in_room(&self, room_name: &str, user_id: u32) -> (r: bool)
        requires
            self.wf(),
        ensures
            r == (self@.contains_key(room_name@) && has_user(self@[room_name@], user_id)),
    {
        self.inner.user_in_room(room_name, user_id)
    }

    /// See [`LocalRoomManager::remove_user_from_all_rooms`].
    pub fn remove_user_from_all_rooms(&mut self, user_id: u32, connection_id: ConnectionId)
        requires
            old(self).wf(),
        ensures
            final(self).wf(),
            final(self)@ == after_close(old(self)@, user_id, connection_id),
            final(self)@ == registry_step(old(self)@, RegistryStep::Close { user_id, connection_id }),
            final(self).inner.pending().len() >= old(self).inner.pending().len(),
            final(self).inner.pending().take(old(self).inner.pending().len() as int) == old(self).inner.pending(),
            left_notices(
                final(self).inner.pending().skip(old(self).inner.pending().len() as int),
                old(self)@,
                user_id,
                connection_id,
            ),
            left_notices_complete(
                final(self).inner.pending().skip(old(self).inner.pending().len() as int),
                old(self)@,
                user_id,
                connection_id,
            ),
    {
        self.inner.remove_user_from_all_rooms(user_id, connection_id)
    }

    /// See [`LocalRoomManager::get_room_participants`].
    pub fn get_room_participants(&self, room_name: &str) -> (r: Vec<Participant>)
        requires
            self.wf(),
        ensures
            r@ == public_list(members(self@, room_name@)),
    {
        self.inner.get_room_participants(room_name)
    }

    /// A router on this node alone is always available.
    pub fn health_check(&self) -> (r: bool)
        ensures
            r,
    {
        self.inner.health_check()
    }

    /// Hands out the frames produced so far.
    pub fn take_outbox(&mut self) -> (r: Vec<Dispatch>)
        ensures
            r@ == old(self).inner.pending(),
            final(self).inner.pending().len() == 0,
            final(self)@ == old(self)@,
            final(self).wf() == old(self).wf(),
    {
        self.inner.take_outbox()
    }
}

/// Closing a stream leaves every room that did not hold its entry exactly
/// as it was; with [`left_notices`], only rooms that held it get a frame.
pub proof fn law_close_keeps_other_rooms(
    m: Map<Seq<char>, Seq<RoomParticipant>>,
    user_id: u32,
    connection_id: ConnectionId,
    room_name: Seq<char>,
)
    requires
        forall|k: Seq<char>| #[trigger] m.contains_key(k) ==> unique_users(m[k]) && m[k].len() > 0,
        m.contains_key(room_name),
        !holds_entry(m[room_name], user_id, connection_id),
    ensures
        after_close(m, user_id, connection_id).contains_key(room_name),
        after_close(m, user_id, connection_id)[room_name] == m[room_name],
{
    let ps = m[room_name];
    if has_user(ps, user_id) && ps[user_index(ps, user_id)].connection_id == connection_id {
        assert(holds_entry(ps, user_id, connection_id));
    }
}

/// A member stays a member until its own leave or the close of its own
/// stream: any other registry step keeps the entry of `user_id` through
/// `connection_id` in `room`, and keeps user ids unique in every room, so the
/// law applies again to the next step.
pub proof fn law_member_until_leave_or_close(
    m: Map<Seq<char>, Seq<RoomParticipant>>,
    room: Seq<char>,
    user_id: u32,
    connection_id: ConnectionId,
    op: RegistryStep,
)
    requires
        forall|k: Seq<char>| #[trigger] m.contains_key(k) ==> unique_users(m[k]),
        m.contains_key(room),
        holds_entry(m[room], user_id, connection_id),
        !(op matches RegistryStep::Leave { room: r, user_id: u } && r == room && u == user_id),
        !(op matches RegistryStep::Close { user_id: u, connection_id: c } && u == user_id && c == connection_id),
    ensures
        registry_step(m, op).contains_key(room),
        holds_entry(registry_step(m, op)[room], user_id, connection_id),
        forall|k: Seq<char>| #[trigger] registry_step(m, op).contains_key(k) ==> unique_users(registry_step(m, op)[k]),
{
    let n = registry_step(m, op);
    let w = choose|w: int|
        0 <= w < m[room].len() && (#[trigger] m[room][w]).user.user_id == user_id && m[room][w].connection_id
            == connection_id;
    match op {
        RegistryStep::Join { room: r, participant } => {
            let ps = members(m, r);
            if !has_user(ps, participant.user.user_id) {
                let q = ps.push(participant);
                assert(q[w] == m[room][w] || r != room);
                assert forall|a: int, b: int| 0 <= a < q.len() && 0 <= b < q.len() && a != b implies #[trigger] q[a].user.user_id
                    != #[trigger] q[b].user.user_id by {
                    if a < ps.len() && b < ps.len() {
                        if !m.contains_key(r) {
                            assert(ps.len() == 0);
                        }
                    } else if a < ps.len() {
                        assert(q[a] == ps[a]);
                    } else {
                        assert(q[b] == ps[b]);
                    }
                }
                if r == room {
                    assert(q[w] == m[room][w]);
                }
            }
        },
        RegistryStep::Leave { room: r, user_id: v } => {
            if m.contains_key(r) && has_user(m[r], v) {
                lemma_without_user(m[r], v);
                if r == room {
                    let ps = m[room];
                    let j = user_index(ps, v);
                    let rest = without_user(ps, v);
                    assert(j != w);
                    let w1 = if w < j { w } else { w - 1 };
                    assert(rest[w1] == ps[w]);
                }
            }
        },
        RegistryStep::Close { user_id: v, connection_id: c } => {
            law_member_kept_by_other_close(m, room, user_id, connection_id, v, c);
            assert forall|k: Seq<char>| #[trigger] n.contains_key(k) implies unique_users(n[k]) by {
                lemma_without_entry(m[k], v, c);
            }
        },
    }
}

/// The registry view after a run of steps, in order.
pub open spec fn registry_run(m: Map<Seq<char>, Seq<RoomParticipant>>, ops: Seq<RegistryStep>) -> Map<
    Seq<char>,
    Seq<RoomParticipant>,
>
    decreases ops.len(),
{
    if ops.len() == 0 {
        m
    } else {
        registry_step(registry_run(m, ops.drop_last()), ops.last())
    }
}

/// Whether `op` is the leave of `user_id` from `room` or the close of its
/// stream `connection_id`.
pub open spec fn ends_membership(op: RegistryStep, room: Seq<char>, user_id: u32, connection_id: ConnectionId) -> bool {
    ||| op matches RegistryStep::Leave { room: r, user_id: u } && r == room && u == user_id
    ||| op matches RegistryStep::Close { user_id: u, connection_id: c } && u == user_id && c == connection_id
}

/// After a join, a member stays in the room through any run of steps that
/// holds neither its leave from that room nor the close of its stream.
pub proof fn law_member_through_run(
    m: Map<Seq<char>, Seq<RoomParticipant>>,
    room: Seq<char>,
    user_id: u32,
    connection_id: ConnectionId,
    ops: Seq<RegistryStep>,
)
    requires
        forall|k: Seq<char>| #[trigger] m.contains_key(k) ==> unique_users(m[k]),
        m.contains_key(room),
        holds_entry(m[room], user_id, connection_id),
        forall|i: int| 0 <= i < ops.len() ==> !ends_membership(#[trigger] ops[i], room, user_id, connection_id),
    ensures
        registry_run(m, ops).contains_key(room),
        holds_entry(registry_run(m, ops)[room], user_id, connection_id),
        forall|k: Seq<char>| #[trigger] registry_run(m, ops).contains_key(k) ==> unique_users(registry_run(m, ops)[k]),
    decreases ops.len(),
{
    if ops.len() > 0 {
        let init = ops.drop_last();
        assert forall|i: int| 0 <= i < init.len() implies !ends_membership(#[trigger] init[i], room, user_id, connection_id) by {
            assert(init[i] == ops[i]);
        }
        law_member_through_run(m, room, user_id, connection_id, init);
        assert(!ends_membership(ops[ops.len() - 1], room, user_id, connection_id));
        law_member_until_leave_or_close(registry_run(m, init), room, user_id, connection_id, ops.last());
    }
}

} // verus!
