//! The state of the relay: the room store and the connection registry. Every
//! operation on a room is one call, which looks the room up and changes it
//! under the caller's exclusive borrow.

use vstd::prelude::*;
use crate::redis::Redis;
use crate::registry::Connections;
use crate::unique::{lemma_index_unique, lemma_remove_unique};
use crate::types::{names, room_views, ChatError, Room, RoomMessages, RoomView};

verus! {

/// The identifiers of a list of rooms, in the same order.
pub open spec fn room_ids(rooms: Seq<RoomView>) -> Seq<Seq<char>> {
    rooms.map_values(|r: RoomView| r.room)
}

/// Whether a room of the list has the identifier `id`.
pub open spec fn has_room(rooms: Seq<RoomView>, id: Seq<char>) -> bool {
    room_ids(rooms).contains(id)
}

/// The position of the room with the identifier `id`.
pub open spec fn room_index(rooms: Seq<RoomView>, id: Seq<char>) -> int {
    room_ids(rooms).index_of(id)
}

/// The room with the identifier `id`, if there is one.
pub open spec fn room_of(rooms: Seq<RoomView>, id: Seq<char>) -> Option<RoomView> {
    if has_room(rooms, id) {
        Some(rooms[room_index(rooms, id)])
    } else {
        None
    }
}

/// A room list is well formed when no two rooms share an identifier and every
/// room is well formed: it has a member, and its admin is one of its members.
pub open spec fn rooms_wf(rooms: Seq<RoomView>) -> bool {
    &&& room_ids(rooms).no_duplicates()
    &&& forall|i: int| 0 <= i < rooms.len() ==> (#[trigger] rooms[i]).wf()
}

/// The list after `user` has joined the room `id`.
pub open spec fn rooms_after_join(rooms: Seq<RoomView>, id: Seq<char>, user: Seq<char>) -> Seq<
    RoomView,
> {
    if has_room(rooms, id) {
        let i = room_index(rooms, id);
        rooms.update(i, rooms[i].joined(user))
    } else {
        rooms
    }
}

/// The list after `user` has left the room `id`: the room is gone where `user`
/// was its only member.
pub open spec fn rooms_after_leave(rooms: Seq<RoomView>, id: Seq<char>, user: Seq<char>) -> Seq<
    RoomView,
> {
    if has_room(rooms, id) {
        let i = room_index(rooms, id);
        match rooms[i].left(user) {
            None => rooms.remove(i),
            Some(r) => rooms.update(i, r),
        }
    } else {
        rooms
    }
}

/// The list after `by` has said `message` in the room `id`.
pub open spec fn rooms_after_post(
    rooms: Seq<RoomView>,
    id: Seq<char>,
    by: Seq<char>,
    message: Seq<char>,
) -> Seq<RoomView> {
    if has_room(rooms, id) {
        let i = room_index(rooms, id);
        rooms.update(i, rooms[i].posted(by, message))
    } else {
        rooms
    }
}

/// The list without the room `id`.
pub open spec fn rooms_after_delete(rooms: Seq<RoomView>, id: Seq<char>) -> Seq<RoomView> {
    if has_room(rooms, id) {
        rooms.remove(room_index(rooms, id))
    } else {
        rooms
    }
}

/// The length of the longest identifier in the list; 0 where the list is
/// empty.
pub open spec fn longest_id(rooms: Seq<RoomView>) -> nat
    decreases rooms.len(),
{
    if rooms.len() == 0 {
        0
    } else {
        let rest = longest_id(rooms.drop_last());
        if rooms.last().room.len() > rest {
            rooms.last().room.len()
        } else {
            rest
        }
    }
}

/// `n` times the character `0`.
pub open spec fn zeros(n: nat) -> Seq<char> {
    Seq::new(n, |i: int| '0')
}

/// The identifier under which a room is created when `candidate` is proposed:
/// `candidate` itself where no room has it, else `candidate` with as many `0`
/// behind it as make it one longer than the longest identifier in use.
pub open spec fn fresh_id(rooms: Seq<RoomView>, candidate: Seq<char>) -> Seq<char> {
    if has_room(rooms, candidate) {
        candidate + zeros((longest_id(rooms) + 1 - candidate.len()) as nat)
    } else {
        candidate
    }
}

/// The list after `user` has left every room: each room of which `user` was a
/// member is without `user`, and gone where `user` was its only member.
pub open spec fn rooms_after_departure(rooms: Seq<RoomView>, user: Seq<char>) -> Seq<RoomView>
    decreases rooms.len(),
{
    if rooms.len() == 0 {
        rooms
    } else {
        let head = rooms_after_departure(rooms.drop_last(), user);
        match rooms.last().left(user) {
            None => head,
            Some(r) => head.push(r),
        }
    }
}

/// The rooms whose admin is not `user`, in the list's order.
pub open spec fn rooms_not_owned_by(rooms: Seq<RoomView>, user: Seq<char>) -> Seq<RoomView> {
    rooms.filter(|r: RoomView| r.admin != user)
}

/// The state of the relay.
pub struct AppState {
    pub redis: Redis,
    pub connections: Connections,
}

/// What the state holds: the rooms, newest first, and the identifiers of the
/// connections in the order of registration.
pub struct AppStateView {
    pub rooms: Seq<RoomView>,
    pub connections: Seq<Seq<char>>,
}

impl View for AppState {
    type V = AppStateView;

    open spec fn view(&self) -> AppStateView {
        AppStateView { rooms: self.redis@, connections: self.connections@ }
    }
}

impl AppState {
    /// The state is well formed when its room list and its registry are.
    pub open spec fn wf(&self) -> bool {
        rooms_wf(self@.rooms) && self.connections.wf()
    }

    /// No room and no connection.
    pub fn new() -> (res: AppState)
        ensures
            res.wf(),
            res@.rooms == Seq::<RoomView>::empty(),
            res@.connections == Seq::<Seq<char>>::empty(),
    {
        let res = AppState { redis: Redis::new(), connections: Connections::new() };
        assert(room_ids(res@.rooms) =~= Seq::<Seq<char>>::empty());
        res
    }

    /// Copies of all rooms, newest first. In a well-formed state none of them
    /// is without a member, and the admin of each is one of its members.
    pub fn get_rooms(&self) -> (res: Vec<Room>)
        ensures
            room_views(res@) == self@.rooms,
            self.wf() ==> forall|i: int|
                0 <= i < res.len() ==> (#[trigger] res[i])@.users.len() > 0
                    && res[i]@.users.contains(res[i]@.admin),
    {
        let res = self.redis.get_all();
        assert forall|i: int| 0 <= i < res.len() && self.wf() implies (
        #[trigger] res[i])@.users.len() > 0 && res[i]@.users.contains(res[i]@.admin) by {
            assert(res[i]@ == self@.rooms[i]);
        }
        res
    }

    /// The identifiers of the connections, in the order of registration.
    pub fn get_connections(&self) -> (res: Vec<String>)
        ensures
            names(res@) == self@.connections,
    {
        self.connections.list()
    }

    /// The first position at which a room has the identifier `room`.
    fn first_room(&self, room: &String) -> (found: Option<usize>)
        ensures
            found is Some <==> has_room(self@.rooms, room@),
            found matches Some(i) ==> i < self@.rooms.len() && room_ids(self@.rooms)[i as int]
                == room@ && forall|j: int| 0 <= j < i ==> room_ids(self@.rooms)[j] != room@,
    {
        let n = self.redis.llen();
        let mut i: usize = 0;
        while i < n
            invariant
                i <= n,
                n == self@.rooms.len(),
                forall|j: int| 0 <= j < i ==> room_ids(self@.rooms)[j] != room@,
            decreases n - i,
        {
            match self.redis.lindex(i) {
                Some(r) => {
                    if r.room == *room {
                        assert(room_ids(self@.rooms)[i as int] == room@);
                        return Some(i);
                    }
                },
                None => {},
            }
            i += 1;
        }
        None
    }

    /// Whether the state is well formed.
    pub fn is_valid(&self) -> (res: bool)
        ensures
            res == self.wf(),
    {
        if !self.connections.is_valid() {
            return false;
        }
        let n = self.redis.llen();
        let mut i: usize = 0;
        while i < n
            invariant
                i <= n,
                n == self@.rooms.len(),
                forall|j: int| 0 <= j < i ==> (#[trigger] self@.rooms[j]).wf(),
                forall|a: int, b: int|
                    0 <= a < b < i ==> room_ids(self@.rooms)[a] != room_ids(self@.rooms)[b],
            decreases n - i,
        {
            match self.redis.lindex(i) {
                Some(r) => {
                    if !r.is_valid() {
                        return false;
                    }
                    match self.first_room(&r.room) {
                        Some(j) => {
                            if j != i {
                                assert(room_ids(self@.rooms)[j as int] == room_ids(
                                    self@.rooms,
                                )[i as int]);
                                return false;
                            }
                        },
                        None => {
                            assert(room_ids(self@.rooms)[i as int] == r@.room);
                            return false;
                        },
                    }
                },
                None => {},
            }
            i += 1;
        }
        true
    }

    /// The position of the room `room` in the list; `RoomNotFound` where no
    /// room has that identifier.
    pub fn get_room_index(&self, room: &String) -> (res: Result<usize, ChatError>)
        requires
            self.wf(),
        ensures
            match res {
                Ok(i) => has_room(self@.rooms, room@) && i == room_index(self@.rooms, room@) && i
                    < self@.rooms.len(),
                Err(e) => e == ChatError::RoomNotFound && !has_room(self@.rooms, room@),
            },
    {
        match self.first_room(room) {
            Some(i) => {
                proof {
                    lemma_index_unique(room_ids(self@.rooms), i as int);
                }
                Ok(i)
            },
            None => Err(ChatError::RoomNotFound),
        }
    }

    /// A copy of the room `room`; `RoomNotFound` where no room has that
    /// identifier.
    pub fn get_room(&self, room: &String) -> (res: Result<Room, ChatError>)
        requires
            self.wf(),
        ensures
            match res {
                Ok(r) => room_of(self@.rooms, room@) == Some(r@),
                Err(e) => e == ChatError::RoomNotFound && room_of(self@.rooms, room@) is None,
            },
    {
        match self.get_room_index(room) {
            Err(e) => Err(e),
            Ok(i) => match self.redis.lindex(i) {
                Some(r) => Ok(r.clone()),
                None => Err(ChatError::RoomNotFound),
            },
        }
    }

    /// Whether a room has the identifier `room`.
    pub fn room_exists(&self, room: &String) -> (res: bool)
        requires
            self.wf(),
        ensures
            res == has_room(self@.rooms, room@),
    {
        self.get_room_index(room).is_ok()
    }

    /// An identifier that no room has: `candidate` itself where it is free,
    /// else `candidate` with as many `0` behind it as make it one longer than
    /// the longest identifier in use.
    pub fn fresh_room_id(&self, candidate: String) -> (id: String)
        requires
            self.wf(),
        ensures
            id@ == fresh_id(self@.rooms, candidate@),
            !has_room(self@.rooms, id@),
    {
        proof {
            lemma_fresh_id_is_free(self@.rooms, candidate@);
        }
        if !self.room_exists(&candidate) {
            return candidate;
        }
        let n = self.redis.llen();
        let mut longest: usize = 0;
        let mut i: usize = 0;
        assert(self@.rooms.take(0) =~= Seq::<RoomView>::empty());
        while i < n
            invariant
                i <= n,
                n == self@.rooms.len(),
                longest == longest_id(self@.rooms.take(i as int)),
            decreases n - i,
        {
            proof {
                assert(self@.rooms.take(i + 1).drop_last() =~= self@.rooms.take(i as int));
                assert(self@.rooms.take(i + 1).last() == self@.rooms[i as int]);
            }
            match self.redis.lindex(i) {
                Some(r) => {
                    let len = r.room.as_str().unicode_len();
                    if len > longest {
                        longest = len;
                    }
                },
                None => {},
            }
            i += 1;
        }
        assert(self@.rooms.take(n as int) =~= self@.rooms);
        let start: u128 = candidate.as_str().unicode_len() as u128;
        let ghost first = candidate@;
        let mut id = candidate;
        let mut len: u128 = start;
        proof {
            lemma_longest_id(self@.rooms, room_index(self@.rooms, first));
            assert(first + zeros(0) =~= first);
        }
        while len <= longest as u128
            invariant
                start == first.len(),
                start <= len <= longest + 1,
                id@ == first + zeros((len - start) as nat),
            decreases longest + 1 - len,
        {
            proof {
                reveal_strlit("0");
                assert("0"@ =~= seq!['0']);
                assert(first + zeros((len - start) as nat) + seq!['0'] =~= first + zeros(
                    (len + 1 - start) as nat,
                ));
            }
            id.append("0");
            len += 1;
        }
        id
    }

    /// Puts a new room at the head of the list.
    pub fn create_room(&mut self, room: &Room)
        requires
            old(self).wf(),
            room@.wf(),
            !has_room(old(self)@.rooms, room@.room),
        ensures
            final(self).wf(),
            final(self).connections == old(self).connections,
            final(self)@.rooms == seq![room@] + old(self)@.rooms,
            room_of(final(self)@.rooms, room@.room) == Some(room@),
    {
        self.redis.lpush(room);
        proof {
            let before = old(self)@.rooms;
            let after = self@.rooms;
            assert(room_ids(after) =~= seq![room@.room] + room_ids(before));
            assert(room_ids(after)[0] == room@.room);
            assert forall|i: int| 0 <= i < after.len() implies (#[trigger] after[i]).wf() by {
                if i > 0 {
                    assert(after[i] == before[i - 1]);
                }
            }
        }
    }

    /// Puts `room` in the place of the room at `index`, which has the same
    /// identifier.
    fn replace_room(&mut self, index: usize, room: &Room)
        requires
            old(self).wf(),
            index < old(self)@.rooms.len(),
            room@.room == old(self)@.rooms[index as int].room,
            room@.wf(),
        ensures
            final(self).wf(),
            final(self).connections == old(self).connections,
            final(self)@.rooms == old(self)@.rooms.update(index as int, room@),
            room_index(old(self)@.rooms, room@.room) == index,
            room_of(final(self)@.rooms, room@.room) == Some(room@),
    {
        let replaced = self.redis.lset(index, room);
        assert(replaced is Ok);
        proof {
            lemma_update_keeps_ids(old(self)@.rooms, index as int, room@);
        }
    }

    /// Takes the room at `index` out of the list.
    fn remove_room(&mut self, index: usize)
        requires
            old(self).wf(),
            index < old(self)@.rooms.len(),
        ensures
            final(self).wf(),
            final(self).connections == old(self).connections,
            final(self)@.rooms == old(self)@.rooms.remove(index as int),
            room_index(old(self)@.rooms, old(self)@.rooms[index as int].room) == index,
            !has_room(final(self)@.rooms, old(self)@.rooms[index as int].room),
    {
        let removed = self.redis.lset_delete(index);
        assert(removed is Ok);
        proof {
            lemma_remove_keeps_wf(old(self)@.rooms, index as int);
        }
    }

    /// Lets `user` join the room `room` and returns the room as it then is. A
    /// member already stays where it is. `RoomNotFound`, and no change, where
    /// no room has that identifier.
    pub fn add_to_room(&mut self, room: &String, user: &String) -> (res: Result<Room, ChatError>)
        requires
            old(self).wf(),
        ensures
            final(self).wf(),
            final(self).connections == old(self).connections,
            final(self)@.rooms == rooms_after_join(old(self)@.rooms, room@, user@),
            match res {
                Ok(r) => room_of(old(self)@.rooms, room@) matches Some(before) && r@
                    == before.joined(user@) && room_of(final(self)@.rooms, room@) == Some(r@),
                Err(e) => e == ChatError::RoomNotFound && !has_room(old(self)@.rooms, room@),
            },
    {
        let i = match self.get_room_index(room) {
            Err(e) => {
                return Err(e);
            },
            Ok(i) => i,
        };
        let mut r = match self.redis.lindex(i) {
            Some(r) => r.clone(),
            None => {
                return Err(ChatError::RoomNotFound);
            },
        };
        r.join(user);
        self.replace_room(i, &r);
        Ok(r)
    }

    /// Appends `message` to the log of the room `room` and returns its
    /// position in the log. `RoomNotFound`, and no change, where no room has
    /// that identifier.
    pub fn add_message(&mut self, room: &String, message: RoomMessages) -> (res: Result<
        usize,
        ChatError,
    >)
        requires
            old(self).wf(),
        ensures
            final(self).wf(),
            final(self).connections == old(self).connections,
            final(self)@.rooms == rooms_after_post(
                old(self)@.rooms,
                room@,
                message@.by,
                message@.message,
            ),
            match res {
                Ok(position) => room_of(old(self)@.rooms, room@) matches Some(before) && position
                    == before.messages.len() && room_of(final(self)@.rooms, room@) == Some(
                    before.posted(message@.by, message@.message),
                ),
                Err(e) => e == ChatError::RoomNotFound && !has_room(old(self)@.rooms, room@),
            },
    {
        let i = match self.get_room_index(room) {
            Err(e) => {
                return Err(e);
            },
            Ok(i) => i,
        };
        let mut r = match self.redis.lindex(i) {
            Some(r) => r.clone(),
            None => {
                return Err(ChatError::RoomNotFound);
            },
        };
        let position = r.post(message.by, message.message);
        self.replace_room(i, &r);
        Ok(position)
    }

    /// Lets `user` leave the room `room`. `Ok(None)`: `user` was its only
    /// member, and the room is deleted. `Ok(Some(..))`: the room as it then
    /// is; unchanged where `user` was no member; else without `user`, and with
    /// its longest-standing member as admin where `user` was the admin.
    /// `RoomNotFound`, and no change, where no room has that identifier.
    pub fn remove_from_room(&mut self, room: &String, user: &String) -> (res: Result<
        Option<Room>,
        ChatError,
    >)
        requires
            old(self).wf(),
        ensures
            final(self).wf(),
            final(self).connections == old(self).connections,
            final(self)@.rooms == rooms_after_leave(old(self)@.rooms, room@, user@),
            match res {
                Ok(Some(r)) => room_of(old(self)@.rooms, room@) matches Some(before)
                    && before.left(user@) == Some(r@) && room_of(final(self)@.rooms, room@)
                    == Some(r@),
                Ok(None) => room_of(old(self)@.rooms, room@) matches Some(before) && before.left(
                    user@,
                ) is None && !has_room(final(self)@.rooms, room@),
                Err(e) => e == ChatError::RoomNotFound && !has_room(old(self)@.rooms, room@),
            },
    {
        let i = match self.get_room_index(room) {
            Err(e) => {
                return Err(e);
            },
            Ok(i) => i,
        };
        let r = match self.redis.lindex(i) {
            Some(r) => r.clone(),
            None => {
                return Err(ChatError::RoomNotFound);
            },
        };
        match r.leave(user) {
            None => {
                self.remove_room(i);
                Ok(None)
            },
            Some(kept) => {
                self.replace_room(i, &kept);
                Ok(Some(kept))
            },
        }
    }

    /// Deletes the room `room`; where no room has that identifier, nothing
    /// changes. Tells whether a room was deleted.
    pub fn del_room(&mut self, room: &String) -> (deleted: bool)
        requires
            old(self).wf(),
        ensures
            final(self).wf(),
            final(self).connections == old(self).connections,
            final(self)@.rooms == rooms_after_delete(old(self)@.rooms, room@),
            deleted == has_room(old(self)@.rooms, room@),
            !has_room(final(self)@.rooms, room@),
    {
        match self.get_room_index(room) {
            Err(_) => false,
            Ok(i) => {
                self.remove_room(i);
                true
            },
        }
    }

    /// Lets `user` leave every room of which it is a member, as
    /// `remove_from_room` does for one room.
    pub fn remove_from_rooms(&mut self, user: &String)
        requires
            old(self).wf(),
        ensures
            final(self).wf(),
            final(self).connections == old(self).connections,
            final(self)@.rooms == rooms_after_departure(old(self)@.rooms, user@),
    {
        let rooms = self.get_rooms();
        let ghost before = self@.rooms;
        let mut k: usize = 0;
        assert(before.take(0) =~= Seq::<RoomView>::empty());
        assert(self@.rooms =~= rooms_after_departure(before.take(0), user@) + before.skip(0));
        while k < rooms.len()
            invariant
                k <= rooms.len(),
                room_views(rooms@) == before,
                rooms_wf(before),
                self.wf(),
                self.connections == old(self).connections,
                self@.rooms == rooms_after_departure(before.take(k as int), user@) + before.skip(
                    k as int,
                ),
            decreases rooms.len() - k,
        {
            let ghost done = rooms_after_departure(before.take(k as int), user@);
            let ghost current = self@.rooms;
            proof {
                assert(before.take(k + 1).drop_last() =~= before.take(k as int));
                assert(before.take(k + 1).last() == before[k as int]);
                assert(current[done.len() as int] == before[k as int]);
                lemma_index_unique(room_ids(current), done.len() as int);
                assert(rooms@[k as int]@ == before[k as int]);
            }
            if rooms[k].has_user(user) {
                let _ = self.remove_from_room(&rooms[k].room, user);
                proof {
                    match before[k as int].left(user@) {
                        None => {
                            assert(self@.rooms =~= done + before.skip(k + 1));
                        },
                        Some(r) => {
                            assert(self@.rooms =~= done.push(r) + before.skip(k + 1));
                        },
                    }
                }
            } else {
                assert(before[k as int].left(user@) == Some(before[k as int]));
                assert(self@.rooms =~= done.push(before[k as int]) + before.skip(k + 1));
            }
            k += 1;
        }
        assert(before.take(k as int) =~= before);
        assert(self@.rooms =~= rooms_after_departure(before, user@));
    }

    /// Deletes every room whose admin is `user`.
    pub fn delete_users_rooms(&mut self, user: &String)
        requires
            old(self).wf(),
        ensures
            final(self).wf(),
            final(self).connections == old(self).connections,
            final(self)@.rooms == rooms_not_owned_by(old(self)@.rooms, user@),
    {
        let rooms = self.get_rooms();
        let ghost before = self@.rooms;
        let ghost kept = |r: RoomView| r.admin != user@;
        let mut k: usize = 0;
        proof {
            reveal_with_fuel(Seq::filter, 1);
            assert(before.take(0) =~= Seq::<RoomView>::empty());
            assert(self@.rooms =~= before.take(0).filter(kept) + before.skip(0));
        }
        while k < rooms.len()
            invariant
                k <= rooms.len(),
                room_views(rooms@) == before,
                rooms_wf(before),
                self.wf(),
                self.connections == old(self).connections,
                kept == |r: RoomView| r.admin != user@,
                self@.rooms == before.take(k as int).filter(kept) + before.skip(k as int),
            decreases rooms.len() - k,
        {
            let ghost done = before.take(k as int).filter(kept);
            let ghost current = self@.rooms;
            proof {
                reveal_with_fuel(Seq::filter, 1);
                assert(before.take(k + 1).drop_last() =~= before.take(k as int));
                assert(before.take(k + 1).last() == before[k as int]);
                assert(current[done.len() as int] == before[k as int]);
                lemma_index_unique(room_ids(current), done.len() as int);
                assert(rooms@[k as int]@ == before[k as int]);
            }
            if rooms[k].admin == *user {
                let _ = self.del_room(&rooms[k].room);
                assert(self@.rooms =~= done + before.skip(k + 1));
            } else {
                assert(self@.rooms =~= done.push(before[k as int]) + before.skip(k + 1));
            }
            k += 1;
        }
        assert(before.take(k as int) =~= before);
    }
}

/// No identifier in the list is longer than the longest.
pub proof fn lemma_longest_id(rooms: Seq<RoomView>, i: int)
    requires
        0 <= i < rooms.len(),
    ensures
        rooms[i].room.len() <= longest_id(rooms),
    decreases rooms.len(),
{
    if i < rooms.len() - 1 {
        lemma_longest_id(rooms.drop_last(), i);
    }
}

/// No room has the identifier that `fresh_id` makes of a candidate.
pub proof fn lemma_fresh_id_is_free(rooms: Seq<RoomView>, candidate: Seq<char>)
    ensures
        !has_room(rooms, fresh_id(rooms, candidate)),
{
    if has_room(rooms, candidate) {
        let id = fresh_id(rooms, candidate);
        lemma_longest_id(rooms, room_index(rooms, candidate));
        assert(id.len() == longest_id(rooms) + 1);
        assert forall|j: int| 0 <= j < rooms.len() implies room_ids(rooms)[j] != id by {
            lemma_longest_id(rooms, j);
        }
    }
}

/// Putting a well-formed room in the place of one with the same identifier
/// keeps the list well formed, keeps every identifier in its place, and can be
/// found again under that identifier.
pub proof fn lemma_update_keeps_ids(rooms: Seq<RoomView>, i: int, r: RoomView)
    requires
        rooms_wf(rooms),
        0 <= i < rooms.len(),
        r.room == rooms[i].room,
        r.wf(),
    ensures
        rooms_wf(rooms.update(i, r)),
        room_ids(rooms.update(i, r)) == room_ids(rooms),
        room_of(rooms.update(i, r), r.room) == Some(r),
        room_index(rooms, r.room) == i,
{
    let after = rooms.update(i, r);
    assert(room_ids(after) =~= room_ids(rooms));
    assert(room_ids(rooms)[i] == r.room);
    lemma_index_unique(room_ids(rooms), i);
    assert forall|j: int| 0 <= j < after.len() implies (#[trigger] after[j]).wf() by {
        if j != i {
            assert(after[j] == rooms[j]);
        }
    }
}

/// Taking a room out of a well-formed list leaves a well-formed list in which
/// no room has its identifier.
pub proof fn lemma_remove_keeps_wf(rooms: Seq<RoomView>, i: int)
    requires
        rooms_wf(rooms),
        0 <= i < rooms.len(),
    ensures
        rooms_wf(rooms.remove(i)),
        !has_room(rooms.remove(i), rooms[i].room),
        room_index(rooms, rooms[i].room) == i,
        room_ids(rooms.remove(i)) == room_ids(rooms).remove(i),
{
    let after = rooms.remove(i);
    assert(room_ids(after) =~= room_ids(rooms).remove(i));
    assert(room_ids(rooms)[i] == rooms[i].room);
    lemma_remove_unique(room_ids(rooms), i);
    lemma_index_unique(room_ids(rooms), i);
    assert forall|j: int| 0 <= j < after.len() implies (#[trigger] after[j]).wf() by {
        let j0 = if j < i { j } else { j + 1 };
        assert(after[j] == rooms[j0]);
    }
}

} // verus!
