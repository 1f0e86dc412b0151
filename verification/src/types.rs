//! The records of the relay and their mathematical views.

use vstd::prelude::*;
use crate::unique::lemma_remove_unique;

verus! {

/// The views of a sequence of strings, in the same order.
pub open spec fn names(v: Seq<String>) -> Seq<Seq<char>> {
    v.map_values(|s: String| s@)
}

/// Why an operation of the relay did not take place.
#[derive(Debug, Clone, Copy, PartialEq, Eq, Structural)]
pub enum ChatError {
    /// No room has the identifier.
    RoomNotFound,
    /// No connection is registered under the identifier.
    NotFound,
    /// A connection is registered under the identifier already.
    DuplicateConnection,
    /// The connection's queue takes no more messages: its consumer is gone.
    TransportFailure,
    /// The list has no element at the position.
    IndexOutOfRange,
}

/// One entry of a room's log: who said it, and what.
#[derive(Debug, PartialEq, Eq)]
pub struct RoomMessages {
    pub by: String,
    pub message: String,
}

/// What a log entry holds.
pub struct RoomMessagesView {
    pub by: Seq<char>,
    pub message: Seq<char>,
}

impl View for RoomMessages {
    type V = RoomMessagesView;

    open spec fn view(&self) -> RoomMessagesView {
        RoomMessagesView { by: self.by@, message: self.message@ }
    }
}

impl Clone for RoomMessages {
    fn clone(&self) -> (res: Self)
        ensures
            res@ == self@,
    {
        RoomMessages { by: self.by.clone(), message: self.message.clone() }
    }
}

/// The views of a sequence of log entries, in the same order.
pub open spec fn entries(v: Seq<RoomMessages>) -> Seq<RoomMessagesView> {
    v.map_values(|m: RoomMessages| m@)
}

/// A copy of a list of strings.
pub fn clone_names(v: &Vec<String>) -> (res: Vec<String>)
    ensures
        names(res@) == names(v@),
{
    let mut res: Vec<String> = Vec::new();
    let mut i: usize = 0;
    while i < v.len()
        invariant
            i <= v.len(),
            res.len() == i,
            forall|j: int| 0 <= j < i ==> res@[j]@ == v@[j]@,
        decreases v.len() - i,
    {
        res.push(v[i].clone());
        i += 1;
    }
    assert(names(res@) =~= names(v@));
    res
}

/// A copy of a log.
pub fn clone_entries(v: &Vec<RoomMessages>) -> (res: Vec<RoomMessages>)
    ensures
        entries(res@) == entries(v@),
{
    let mut res: Vec<RoomMessages> = Vec::new();
    let mut i: usize = 0;
    while i < v.len()
        invariant
            i <= v.len(),
            res.len() == i,
            forall|j: int| 0 <= j < i ==> res@[j]@ == v@[j]@,
        decreases v.len() - i,
    {
        res.push(v[i].clone());
        i += 1;
    }
    assert(entries(res@) =~= entries(v@));
    res
}

/// A room: its identifier, its display name, its members in the order in which
/// they joined, its admin, and its log.
#[derive(Debug, PartialEq, Eq)]
pub struct Room {
    pub room_name: String,
    pub room: String,
    pub users: Vec<String>,
    pub admin: String,
    pub messages: Vec<RoomMessages>,
}

/// What a room holds.
pub struct RoomView {
    pub room_name: Seq<char>,
    pub room: Seq<char>,
    pub users: Seq<Seq<char>>,
    pub admin: Seq<char>,
    pub messages: Seq<RoomMessagesView>,
}

impl View for Room {
    type V = RoomView;

    open spec fn view(&self) -> RoomView {
        RoomView {
            room_name: self.room_name@,
            room: self.room@,
            users: names(self.users@),
            admin: self.admin@,
            messages: entries(self.messages@),
        }
    }
}

impl RoomView {
    /// A room is well formed when it has a member, no member occurs twice, and
    /// its admin is one of its members.
    pub open spec fn wf(self) -> bool {
        &&& self.users.len() > 0
        &&& self.users.no_duplicates()
        &&& self.users.contains(self.admin)
    }

    /// The members as a set.
    pub open spec fn members(self) -> Set<Seq<char>> {
        self.users.to_set()
    }

    /// The room that `creator` opens under `id`: the creator is its only member
    /// and its admin, and its log is empty.
    pub open spec fn created(id: Seq<char>, name: Seq<char>, creator: Seq<char>) -> RoomView {
        RoomView {
            room_name: name,
            room: id,
            users: seq![creator],
            admin: creator,
            messages: Seq::empty(),
        }
    }

    /// The room after `user` has joined: unchanged where `user` is a member
    /// already, else with `user` as its newest member.
    pub open spec fn joined(self, user: Seq<char>) -> RoomView {
        if self.users.contains(user) {
            self
        } else {
            RoomView { users: self.users.push(user), ..self }
        }
    }

    /// The room without its member `user`. Where `user` was the admin, the
    /// longest-standing member that is left becomes the admin.
    pub open spec fn without(self, user: Seq<char>) -> RoomView {
        let rest = self.users.remove(self.users.index_of(user));
        let admin = if self.admin == user {
            rest[0]
        } else {
            self.admin
        };
        RoomView { users: rest, admin, ..self }
    }

    /// The room after `user` has left: `None` where `user` was the only member,
    /// so that the room is gone; the room unchanged where `user` was no member;
    /// else the room without `user`.
    pub open spec fn left(self, user: Seq<char>) -> Option<RoomView> {
        if self.users =~= seq![user] {
            None
        } else if !self.users.contains(user) {
            Some(self)
        } else {
            Some(self.without(user))
        }
    }

    /// The room after `by` has said `message`: the entry is the last of the log.
    pub open spec fn posted(self, by: Seq<char>, message: Seq<char>) -> RoomView {
        RoomView { messages: self.messages.push(RoomMessagesView { by, message }), ..self }
    }
}

/// The first place at which `name` stands in `v`, if it stands there.
pub fn find_name(v: &Vec<String>, name: &String) -> (found: Option<usize>)
    ensures
        found is Some <==> names(v@).contains(name@),
        found matches Some(i) ==> i < v.len() && names(v@)[i as int] == name@ && forall|j: int|
            0 <= j < i ==> names(v@)[j] != name@,
{
    let mut i: usize = 0;
    while i < v.len()
        invariant
            i <= v.len(),
            forall|j: int| 0 <= j < i ==> names(v@)[j] != name@,
        decreases v.len() - i,
    {
        if v[i] == *name {
            assert(names(v@)[i as int] == name@);
            return Some(i);
        }
        i += 1;
    }
    None
}

impl Clone for Room {
    fn clone(&self) -> (res: Self)
        ensures
            res@ == self@,
    {
        Room {
            room_name: self.room_name.clone(),
            room: self.room.clone(),
            users: clone_names(&self.users),
            admin: self.admin.clone(),
            messages: clone_entries(&self.messages),
        }
    }
}

impl Room {
    /// The room that `creator` opens under the identifier `room`.
    pub fn new(room: String, room_name: String, creator: String) -> (res: Room)
        ensures
            res@ == RoomView::created(room@, room_name@, creator@),
            res@.wf(),
    {
        let mut users: Vec<String> = Vec::new();
        users.push(creator.clone());
        let res = Room { room_name, room, users, admin: creator, messages: Vec::new() };
        assert(res@.users =~= seq![creator@]);
        assert(res@.messages =~= Seq::empty());
        assert(res@.users[0] == creator@);
        res
    }

    /// Whether `user` is a member.
    pub fn has_user(&self, user: &String) -> (res: bool)
        ensures
            res == self@.users.contains(user@),
    {
        find_name(&self.users, user).is_some()
    }

    /// Whether the room is well formed.
    pub fn is_valid(&self) -> (res: bool)
        ensures
            res == self@.wf(),
    {
        if self.users.len() == 0 || !self.has_user(&self.admin) {
            return false;
        }
        let mut i: usize = 0;
        while i < self.users.len()
            invariant
                i <= self.users.len(),
                forall|a: int, b: int| 0 <= a < b < i ==> self@.users[a] != self@.users[b],
            decreases self.users.len() - i,
        {
            match find_name(&self.users, &self.users[i]) {
                Some(j) => {
                    if j != i {
                        assert(self@.users[j as int] == self@.users[i as int]);
                        return false;
                    }
                },
                None => {
                    assert(self@.users[i as int] == self.users@[i as int]@);
                    return false;
                },
            }
            i += 1;
        }
        true
    }

    /// Lets `user` join: a member already stays where it is, a new one becomes
    /// the newest member.
    pub fn join(&mut self, user: &String)
        ensures
            final(self)@ == old(self)@.joined(user@),
            old(self)@.wf() ==> final(self)@.wf(),
    {
        if !self.has_user(user) {
            self.users.push(user.clone());
            assert(self@.users =~= old(self)@.users.push(user@));
            proof {
                if old(self)@.wf() {
                    let a = old(self)@.users.index_of(old(self)@.admin);
                    assert(self@.users[a] == self@.admin);
                }
            }
        }
    }

    /// Lets `user` leave. `None`: `user` was the only member and the room is
    /// gone. Otherwise the room comes back: unchanged where `user` was no
    /// member; else without `user`, and with the longest-standing member that
    /// is left as admin where `user` was the admin.
    pub fn leave(self, user: &String) -> (res: Option<Room>)
        requires
            self@.wf(),
        ensures
            res is Some <==> self@.left(user@) is Some,
            res matches Some(r) ==> self@.left(user@) == Some(r@) && r@.wf(),
    {
        let ghost before = self@;
        let mut room = self;
        match find_name(&room.users, user) {
            None => Some(room),
            Some(i) => {
                assert(before.users[i as int] == user@);
                if room.users.len() == 1 {
                    assert(before.users =~= seq![user@]);
                    return None;
                }
                assert(before.users.len() >= 2);
                assert(before.users.index_of(user@) == i);
                room.users.remove(i);
                assert(room@.users =~= before.users.remove(i as int));
                if room.admin == *user {
                    room.admin = room.users[0].clone();
                }
                proof {
                    let rest = before.users.remove(i as int);
                    assert(room@ == before.without(user@));
                    lemma_remove_unique(before.users, i as int);
                    if before.admin == user@ {
                        assert(rest[0] == room@.admin);
                    }
                }
                Some(room)
            },
        }
    }

    /// Appends an entry to the log and returns its position.
    pub fn post(&mut self, by: String, message: String) -> (position: usize)
        ensures
            final(self)@ == old(self)@.posted(by@, message@),
            position == old(self)@.messages.len(),
    {
        let position = self.messages.len();
        self.messages.push(RoomMessages { by, message });
        assert(self@.messages =~= old(self)@.messages.push(
            RoomMessagesView { by: by@, message: message@ },
        ));
        position
    }
}

/// The views of a sequence of rooms, in the same order.
pub open spec fn room_views(v: Seq<Room>) -> Seq<RoomView> {
    v.map_values(|r: Room| r@)
}

/// A copy of a list of rooms.
pub fn clone_rooms(v: &Vec<Room>) -> (res: Vec<Room>)
    ensures
        room_views(res@) == room_views(v@),
{
    let mut res: Vec<Room> = Vec::new();
    let mut i: usize = 0;
    while i < v.len()
        invariant
            i <= v.len(),
            res.len() == i,
            forall|j: int| 0 <= j < i ==> res@[j]@ == v@[j]@,
        decreases v.len() - i,
    {
        res.push(v[i].clone());
        i += 1;
    }
    assert(room_views(res@) =~= room_views(v@));
    res
}

/// A copy of a list of bytes.
pub fn clone_bytes(v: &Vec<u8>) -> (res: Vec<u8>)
    ensures
        res@ == v@,
{
    let mut res: Vec<u8> = Vec::new();
    let mut i: usize = 0;
    while i < v.len()
        invariant
            i <= v.len(),
            res.len() == i,
            forall|j: int| 0 <= j < i ==> res@[j] == v@[j],
        decreases v.len() - i,
    {
        res.push(v[i]);
        i += 1;
    }
    assert(res@ =~= v@);
    res
}

/// A command of a client, decoded.
#[derive(Debug, PartialEq, Eq)]
pub enum ClientMessages {
    Join { room: String },
    Create { room_name: String },
    Info,
    GetClients,
    GetRooms,
    SendMessageToRoom { message: String, room: String },
    ListRoomMessages { room: String },
    RoomDetails { room: String },
    LeaveRoom { room: String, user: String },
    ListConn,
}

/// An event that the relay puts on a connection's queue.
#[derive(Debug, PartialEq, Eq)]
pub enum ServerMessages {
    /// The identifier of the connection that asked.
    Info { user_id: String },
    /// The caller is a member of the room.
    RoomJoined { room_id: String, room_name: String },
    /// The caller has opened the room.
    RoomCreated { room_id: String, room_name: String },
    /// A room has been opened.
    RoomAvailable { room_id: String, room_name: String },
    /// A member of a room has said something.
    RoomBroadcast { by: String, message: String },
    /// The log of a room.
    ListMessages { messages: Vec<RoomMessages> },
    /// `user` has left the room, or was no member of it.
    RoomLeft { room_id: String, user: String },
    /// The rooms that exist.
    RoomsAvailable { rooms: Vec<Room> },
    /// One room in full.
    RoomDetails { room: Room },
    /// The connections that are registered, and their number.
    Connections { connections: Vec<String>, total: usize },
    /// The connections that are registered.
    Clients { clients: Vec<String> },
    /// A command could not be carried out.
    Error { message: String },
    /// What came in could not be decoded, and goes back as it came.
    Echo { text: String },
    /// The answer to a ping, with the ping's payload.
    Pong { data: Vec<u8> },
}

/// What an event holds.
pub enum ServerMessagesView {
    Info { user_id: Seq<char> },
    RoomJoined { room_id: Seq<char>, room_name: Seq<char> },
    RoomCreated { room_id: Seq<char>, room_name: Seq<char> },
    RoomAvailable { room_id: Seq<char>, room_name: Seq<char> },
    RoomBroadcast { by: Seq<char>, message: Seq<char> },
    ListMessages { messages: Seq<RoomMessagesView> },
    RoomLeft { room_id: Seq<char>, user: Seq<char> },
    RoomsAvailable { rooms: Seq<RoomView> },
    RoomDetails { room: RoomView },
    Connections { connections: Seq<Seq<char>>, total: nat },
    Clients { clients: Seq<Seq<char>> },
    Error { message: Seq<char> },
    Echo { text: Seq<char> },
    Pong { data: Seq<u8> },
}

impl View for ServerMessages {
    type V = ServerMessagesView;

    open spec fn view(&self) -> ServerMessagesView {
        match self {
            ServerMessages::Info { user_id } => ServerMessagesView::Info { user_id: user_id@ },
            ServerMessages::RoomJoined { room_id, room_name } => ServerMessagesView::RoomJoined {
                room_id: room_id@,
                room_name: room_name@,
            },
            ServerMessages::RoomCreated { room_id, room_name } => ServerMessagesView::RoomCreated {
                room_id: room_id@,
                room_name: room_name@,
            },
            ServerMessages::RoomAvailable { room_id, room_name } => {
                ServerMessagesView::RoomAvailable { room_id: room_id@, room_name: room_name@ }
            },
            ServerMessages::RoomBroadcast { by, message } => ServerMessagesView::RoomBroadcast {
                by: by@,
                message: message@,
            },
            ServerMessages::ListMessages { messages } => ServerMessagesView::ListMessages {
                messages: entries(messages@),
            },
            ServerMessages::RoomLeft { room_id, user } => ServerMessagesView::RoomLeft {
                room_id: room_id@,
                user: user@,
            },
            ServerMessages::RoomsAvailable { rooms } => ServerMessagesView::RoomsAvailable {
                rooms: room_views(rooms@),
            },
            ServerMessages::RoomDetails { room } => ServerMessagesView::RoomDetails { room: room@ },
            ServerMessages::Connections { connections, total } => ServerMessagesView::Connections {
                connections: names(connections@),
                total: *total as nat,
            },
            ServerMessages::Clients { clients } => ServerMessagesView::Clients {
                clients: names(clients@),
            },
            ServerMessages::Error { message } => ServerMessagesView::Error { message: message@ },
            ServerMessages::Echo { text } => ServerMessagesView::Echo { text: text@ },
            ServerMessages::Pong { data } => ServerMessagesView::Pong { data: data@ },
        }
    }
}

impl ServerMessagesView {
    /// The word by which an event tells its kind on the wire; `None` for the
    /// events that go out without one.
    pub open spec fn type_tag(self) -> Option<Seq<char>> {
        match self {
            ServerMessagesView::Info { .. } => Some("info"@),
            ServerMessagesView::RoomJoined { .. } => Some("room_joined"@),
            ServerMessagesView::RoomCreated { .. } => Some("room_created"@),
            ServerMessagesView::RoomAvailable { .. } => Some("room_available"@),
            ServerMessagesView::RoomBroadcast { .. } => Some("room_broadcast"@),
            ServerMessagesView::ListMessages { .. } => Some("list_messages"@),
            ServerMessagesView::RoomLeft { .. } => Some("room_left"@),
            ServerMessagesView::RoomsAvailable { .. } => Some("rooms_available"@),
            ServerMessagesView::Clients { .. } => Some("get_client"@),
            ServerMessagesView::Error { .. } => Some("error"@),
            ServerMessagesView::RoomDetails { .. } => None,
            ServerMessagesView::Connections { .. } => None,
            ServerMessagesView::Echo { .. } => None,
            ServerMessagesView::Pong { .. } => None,
        }
    }
}

/// The view of a word, if there is one.
pub open spec fn word_view(word: Option<&'static str>) -> Option<Seq<char>> {
    match word {
        Some(w) => Some(w@),
        None => None,
    }
}

impl ServerMessages {
    /// The word by which the event tells its kind on the wire, if it has one.
    pub fn type_tag(&self) -> (tag: Option<&'static str>)
        ensures
            word_view(tag) == self@.type_tag(),
    {
        match self {
            ServerMessages::Info { .. } => Some("info"),
            ServerMessages::RoomJoined { .. } => Some("room_joined"),
            ServerMessages::RoomCreated { .. } => Some("room_created"),
            ServerMessages::RoomAvailable { .. } => Some("room_available"),
            ServerMessages::RoomBroadcast { .. } => Some("room_broadcast"),
            ServerMessages::ListMessages { .. } => Some("list_messages"),
            ServerMessages::RoomLeft { .. } => Some("room_left"),
            ServerMessages::RoomsAvailable { .. } => Some("rooms_available"),
            ServerMessages::Clients { .. } => Some("get_client"),
            ServerMessages::Error { .. } => Some("error"),
            ServerMessages::RoomDetails { .. } => None,
            ServerMessages::Connections { .. } => None,
            ServerMessages::Echo { .. } => None,
            ServerMessages::Pong { .. } => None,
        }
    }
}

impl Clone for ServerMessages {
    fn clone(&self) -> (res: Self)
        ensures
            res@ == self@,
    {
        match self {
            ServerMessages::Info { user_id } => ServerMessages::Info { user_id: user_id.clone() },
            ServerMessages::RoomJoined { room_id, room_name } => ServerMessages::RoomJoined {
                room_id: room_id.clone(),
                room_name: room_name.clone(),
            },
            ServerMessages::RoomCreated { room_id, room_name } => ServerMessages::RoomCreated {
                room_id: room_id.clone(),
                room_name: room_name.clone(),
            },
            ServerMessages::RoomAvailable { room_id, room_name } => ServerMessages::RoomAvailable {
                room_id: room_id.clone(),
                room_name: room_name.clone(),
            },
            ServerMessages::RoomBroadcast { by, message } => ServerMessages::RoomBroadcast {
                by: by.clone(),
                message: message.clone(),
            },
            ServerMessages::ListMessages { messages } => ServerMessages::ListMessages {
                messages: clone_entries(messages),
            },
            ServerMessages::RoomLeft { room_id, user } => ServerMessages::RoomLeft {
                room_id: room_id.clone(),
                user: user.clone(),
            },
            ServerMessages::RoomsAvailable { rooms } => ServerMessages::RoomsAvailable {
                rooms: clone_rooms(rooms),
            },
            ServerMessages::RoomDetails { room } => ServerMessages::RoomDetails {
                room: room.clone(),
            },
            ServerMessages::Connections { connections, total } => ServerMessages::Connections {
                connections: clone_names(connections),
                total: *total,
            },
            ServerMessages::Clients { clients } => ServerMessages::Clients {
                clients: clone_names(clients),
            },
            ServerMessages::Error { message } => ServerMessages::Error { message: message.clone() },
            ServerMessages::Echo { text } => ServerMessages::Echo { text: text.clone() },
            ServerMessages::Pong { data } => ServerMessages::Pong { data: clone_bytes(data) },
        }
    }
}

} // verus!
