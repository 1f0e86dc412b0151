//! The commands on connections, the dispatch of a decoded command, and the
//! life of one connection.

use vstd::prelude::*;
use crate::app_state::{rooms_after_departure, AppState, AppStateView};
use crate::handlers::room::{
    broadcast, create, created_as, created_id, details, details_reply, get, join, joined_as,
    leave, left_as, list_messages, messages_reply, sent_as,
};
use crate::handlers::{answer, room_not_found_event, Handled};
use crate::outside::random_id;
use crate::registry::without_id;
use crate::types::{ClientMessages, ServerMessages, ServerMessagesView};
use tokio::sync::mpsc::UnboundedSender;

verus! {

/// Answers with the identifiers of all connections, and their number.
pub fn list_connections(
    app_state: &AppState,
    tx: &UnboundedSender<ServerMessages>,
) -> (handled: Handled)
    ensures
        handled.only_replies(
            ServerMessagesView::Connections {
                connections: app_state@.connections,
                total: app_state@.connections.len(),
            },
        ),
{
    let connections = app_state.get_connections();
    let total = connections.len();
    answer(tx, ServerMessages::Connections { connections, total })
}

/// Answers with the identifiers of all connections.
pub fn get_clients(
    app_state: &AppState,
    tx: &UnboundedSender<ServerMessages>,
) -> (handled: Handled)
    ensures
        handled.only_replies(ServerMessagesView::Clients { clients: app_state@.connections }),
{
    answer(tx, ServerMessages::Clients { clients: app_state.get_connections() })
}

/// Answers with the caller's own identifier.
pub fn info(user_id: &String, tx: &UnboundedSender<ServerMessages>) -> (handled: Handled)
    ensures
        handled.only_replies(ServerMessagesView::Info { user_id: user_id@ }),
{
    answer(tx, ServerMessages::Info { user_id: user_id.clone() })
}

/// The command `command` of the caller `user` took the state from `before` to
/// `after` and did `handled`.
pub open spec fn handled_as(
    before: AppStateView,
    user: Seq<char>,
    command: ClientMessages,
    after: AppStateView,
    handled: Handled,
) -> bool {
    match command {
        ClientMessages::Join { room } => joined_as(before, user, room@, after, handled),
        ClientMessages::Create { room_name } => created_as(
            before,
            user,
            room_name@,
            created_id(handled),
            after,
            handled,
        ),
        ClientMessages::Info => after == before && handled.only_replies(
            ServerMessagesView::Info { user_id: user },
        ),
        ClientMessages::GetClients => after == before && handled.only_replies(
            ServerMessagesView::Clients { clients: before.connections },
        ),
        ClientMessages::GetRooms => after == before && handled.only_replies(
            ServerMessagesView::RoomsAvailable { rooms: before.rooms },
        ),
        ClientMessages::SendMessageToRoom { message, room } => sent_as(
            before,
            user,
            room@,
            message@,
            after,
            handled,
        ),
        ClientMessages::ListRoomMessages { room } => after == before && handled.only_replies(
            messages_reply(before.rooms, room@),
        ),
        ClientMessages::RoomDetails { room } => after == before && handled.only_replies(
            details_reply(before.rooms, room@),
        ),
        ClientMessages::LeaveRoom { room, user: who } => left_as(
            before,
            room@,
            who@,
            after,
            handled,
        ),
        ClientMessages::ListConn => after == before && handled.only_replies(
            ServerMessagesView::Connections {
                connections: before.connections,
                total: before.connections.len(),
            },
        ),
    }
}

/// Carries out one decoded command of the caller `user_id`.
pub fn handle_message(
    app_state: &mut AppState,
    user_id: &String,
    tx: &UnboundedSender<ServerMessages>,
    command: ClientMessages,
) -> (handled: Handled)
    requires
        old(app_state).wf(),
    ensures
        final(app_state).wf(),
        handled_as(old(app_state)@, user_id@, command, final(app_state)@, handled),
{
    match command {
        ClientMessages::Join { room } => join(app_state, user_id, &room, tx),
        ClientMessages::Create { room_name } => create(app_state, user_id, &room_name, tx),
        ClientMessages::Info => info(user_id, tx),
        ClientMessages::GetClients => get_clients(app_state, tx),
        ClientMessages::GetRooms => get(app_state, tx),
        ClientMessages::SendMessageToRoom { message, room } => {
            match broadcast(app_state, message.clone(), room, user_id.clone()) {
                Err(_) => answer(tx, room_not_found_event()),
                Ok(deliveries) => Handled {
                    reply: None,
                    accepted: true,
                    announcement: Some(
                        ServerMessages::RoomBroadcast { by: user_id.clone(), message },
                    ),
                    deliveries,
                },
            }
        },
        ClientMessages::ListRoomMessages { room } => list_messages(app_state, &room, tx),
        ClientMessages::RoomDetails { room } => details(app_state, tx, &room),
        ClientMessages::LeaveRoom { room, user } => leave(app_state, &room, &user, tx),
        ClientMessages::ListConn => list_connections(app_state, tx),
    }
}

/// Where a connection stands in its life.
#[derive(Debug, Clone, Copy, PartialEq, Eq, Structural)]
pub enum ConnectionState {
    /// Accepted by the transport, not yet registered.
    Connecting,
    /// Registered; commands are carried out.
    Active,
    /// Failed or closed by the client; its teardown is due.
    Closing,
    /// Torn down. Nothing is done for it any more.
    Closed,
}

/// What arrives on a connection, decoded.
#[derive(Debug, PartialEq, Eq)]
pub enum Inbound {
    /// A text frame that holds a command.
    Command(ClientMessages),
    /// A text frame that holds no command: its text.
    Malformed(String),
    /// A binary frame.
    Binary,
    /// A ping, with its payload.
    Ping(Vec<u8>),
    /// The client closes the connection.
    Close,
    /// Any other frame.
    Other,
    /// The transport failed on reading.
    Failed,
}

impl Inbound {
    /// Whether the connection ends with this.
    pub open spec fn ends(self) -> bool {
        self is Close || self is Failed
    }
}

impl ConnectionState {
    /// The state after registration was tried.
    pub open spec fn registered(self, success: bool) -> ConnectionState {
        if self != ConnectionState::Connecting {
            self
        } else if success {
            ConnectionState::Active
        } else {
            ConnectionState::Closed
        }
    }

    /// The state after something arrived: an active connection goes on unless
    /// what arrived ends it (`ends`) or its own queue did not take the answer
    /// (`accepted`).
    pub open spec fn received(self, ends: bool, accepted: bool) -> ConnectionState {
        if self != ConnectionState::Active {
            self
        } else if ends || !accepted {
            ConnectionState::Closing
        } else {
            ConnectionState::Active
        }
    }

    /// The state after the teardown.
    pub open spec fn torn_down(self) -> ConnectionState {
        if self == ConnectionState::Closing {
            ConnectionState::Closed
        } else {
            self
        }
    }

    /// The state after something arrived, computed.
    pub fn after_frame(self, ends: bool, accepted: bool) -> (next: ConnectionState)
        ensures
            next == self.received(ends, accepted),
    {
        match self {
            ConnectionState::Active => if ends || !accepted {
                ConnectionState::Closing
            } else {
                ConnectionState::Active
            },
            other => other,
        }
    }
}

/// `connect` under the identifier `id` took the state from `before` to
/// `after` and left the connection in `state`: it is registered and active;
/// or the identifier was registered already, nothing changed, and the new
/// connection is closed.
pub open spec fn connected_as(
    before: AppStateView,
    id: Seq<char>,
    after: AppStateView,
    state: ConnectionState,
) -> bool {
    &&& after.rooms == before.rooms
    &&& state == ConnectionState::Connecting.registered(!before.connections.contains(id))
    &&& after.connections == if before.connections.contains(id) {
        before.connections
    } else {
        before.connections.push(id)
    }
}

/// Registers a new connection under the identifier `user_id`, reachable
/// through `tx`.
pub fn connect_as(
    app_state: &mut AppState,
    user_id: String,
    tx: UnboundedSender<ServerMessages>,
) -> (state: ConnectionState)
    requires
        old(app_state).wf(),
    ensures
        final(app_state).wf(),
        connected_as(old(app_state)@, user_id@, final(app_state)@, state),
{
    match app_state.connections.register(user_id, tx) {
        Ok(()) => ConnectionState::Active,
        Err(_) => ConnectionState::Closed,
    }
}

/// Registers a new connection under a random identifier, reachable through
/// `tx`, and returns its state with the identifier.
pub fn connect(app_state: &mut AppState, tx: UnboundedSender<ServerMessages>) -> (res: (
    ConnectionState,
    String,
))
    requires
        old(app_state).wf(),
    ensures
        final(app_state).wf(),
        connected_as(old(app_state)@, res.1@, final(app_state)@, res.0),
{
    let user_id = random_id();
    let state = connect_as(app_state, user_id.clone(), tx);
    (state, user_id)
}

/// What `receive` does with `inbound` on an active connection of `user`.
pub open spec fn received_as(
    before: AppStateView,
    user: Seq<char>,
    inbound: Inbound,
    after: AppStateView,
    handled: Handled,
) -> bool {
    match inbound {
        Inbound::Command(command) => handled_as(before, user, command, after, handled),
        Inbound::Malformed(text) => after == before && handled.only_replies(
            ServerMessagesView::Echo { text: "Echo: "@ + text@ },
        ),
        Inbound::Ping(data) => after == before && handled.only_replies(
            ServerMessagesView::Pong { data: data@ },
        ),
        _ => after == before && handled.silent(),
    }
}

/// Takes what arrived on the connection of `user_id`. On an active connection
/// a command is carried out, text that holds none goes back as an echo, a ping
/// is answered; the connection then goes on, unless what arrived ends it or
/// its own queue did not take the answer. On any other connection nothing is
/// done.
pub fn receive(
    app_state: &mut AppState,
    state: ConnectionState,
    user_id: &String,
    tx: &UnboundedSender<ServerMessages>,
    inbound: Inbound,
) -> (res: (ConnectionState, Handled))
    requires
        old(app_state).wf(),
    ensures
        final(app_state).wf(),
        res.0 == state.received(inbound.ends(), res.1.accepted),
        state == ConnectionState::Active ==> received_as(
            old(app_state)@,
            user_id@,
            inbound,
            final(app_state)@,
            res.1,
        ),
        state != ConnectionState::Active ==> final(app_state)@ == old(app_state)@
            && res.1.silent(),
{
    let silent =
        Handled { reply: None, accepted: true, announcement: None, deliveries: Vec::new() };
    if state != ConnectionState::Active {
        return (state, silent);
    }
    let (ends, handled) = match inbound {
        Inbound::Command(command) => (false, handle_message(app_state, user_id, tx, command)),
        Inbound::Malformed(text) => {
            let echo = "Echo: ".to_owned().concat(text.as_str());
            (false, answer(tx, ServerMessages::Echo { text: echo }))
        },
        Inbound::Ping(data) => (false, answer(tx, ServerMessages::Pong { data })),
        Inbound::Binary => (false, silent),
        Inbound::Other => (false, silent),
        Inbound::Close => (true, silent),
        Inbound::Failed => (true, silent),
    };
    (state.after_frame(ends, handled.accepted), handled)
}

/// The state without the connection `user`: it is not registered, and it has
/// left every room.
pub open spec fn torn_down(before: AppStateView, user: Seq<char>) -> AppStateView {
    AppStateView {
        rooms: rooms_after_departure(before.rooms, user),
        connections: without_id(before.connections, user),
    }
}

/// Takes the connection `user_id` out of the registry and out of every room.
fn teardown(app_state: &mut AppState, user_id: &String)
    requires
        old(app_state).wf(),
    ensures
        final(app_state).wf(),
        final(app_state)@ == torn_down(old(app_state)@, user_id@),
        !final(app_state)@.connections.contains(user_id@),
{
    app_state.connections.unregister(user_id);
    app_state.remove_from_rooms(user_id);
}

/// Tears a closing connection down: it is no longer registered, and it has
/// left every room. On any other connection nothing is done.
pub fn disconnect(
    app_state: &mut AppState,
    state: ConnectionState,
    user_id: &String,
) -> (next: ConnectionState)
    requires
        old(app_state).wf(),
    ensures
        final(app_state).wf(),
        next == state.torn_down(),
        final(app_state)@ == if state == ConnectionState::Closing {
            torn_down(old(app_state)@, user_id@)
        } else {
            old(app_state)@
        },
{
    if state != ConnectionState::Closing {
        return state;
    }
    teardown(app_state, user_id);
    ConnectionState::Closed
}

/// The step of a connection's delivery pump after it has tried to write one
/// message to the transport. After a write that succeeded the pump goes on;
/// after one that failed it stops for good, and the connection is torn down
/// at once, so that no room keeps a member that cannot be reached.
pub fn after_write(app_state: &mut AppState, user_id: &String, written: bool) -> (go_on: bool)
    requires
        old(app_state).wf(),
    ensures
        final(app_state).wf(),
        go_on == written,
        final(app_state)@ == if written {
            old(app_state)@
        } else {
            torn_down(old(app_state)@, user_id@)
        },
{
    if !written {
        teardown(app_state, user_id);
    }
    written
}

} // verus!
