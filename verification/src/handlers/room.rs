//! The commands on rooms.

use vstd::prelude::*;
use crate::app_state::{
    fresh_id, has_room, room_of, rooms_after_join, rooms_after_leave, rooms_after_post, AppState,
    AppStateView,
};
use crate::handlers::{answer, event_view, room_not_found, room_not_found_event, Handled};
use crate::outside::{enqueue, random_id};
use crate::registry::{attempted, Delivery};
use crate::types::{ChatError, Room, RoomMessages, RoomView, ServerMessages, ServerMessagesView};
use tokio::sync::mpsc::UnboundedSender;

verus! {

/// `join` took the state from `before` to `after` and did `handled`: `user`
/// is a member of the room `room`, and the caller got `room_joined`; or no
/// such room exists, nothing changed, and the caller got the error.
pub open spec fn joined_as(
    before: AppStateView,
    user: Seq<char>,
    room: Seq<char>,
    after: AppStateView,
    handled: Handled,
) -> bool {
    &&& after.connections == before.connections
    &&& after.rooms == rooms_after_join(before.rooms, room, user)
    &&& match room_of(before.rooms, room) {
        Some(r) => handled.only_replies(
            ServerMessagesView::RoomJoined { room_id: r.room, room_name: r.room_name },
        ),
        None => handled.only_replies(room_not_found()),
    }
}

/// Lets the caller `user_id` join the room `room`.
pub fn join(
    app_state: &mut AppState,
    user_id: &String,
    room: &String,
    tx: &UnboundedSender<ServerMessages>,
) -> (handled: Handled)
    requires
        old(app_state).wf(),
    ensures
        final(app_state).wf(),
        joined_as(old(app_state)@, user_id@, room@, final(app_state)@, handled),
{
    match app_state.add_to_room(room, user_id) {
        Ok(r) => answer(tx, ServerMessages::RoomJoined { room_id: r.room, room_name: r.room_name }),
        Err(_) => answer(tx, room_not_found_event()),
    }
}

/// `create` under the identifier `id` took the state from `before` to `after`
/// and did `handled`: the new room stands at the head of the list with `user`
/// as its only member and its admin, the caller got `room_created`, and
/// `room_available` went out to every connection.
pub open spec fn created_as(
    before: AppStateView,
    user: Seq<char>,
    room_name: Seq<char>,
    id: Seq<char>,
    after: AppStateView,
    handled: Handled,
) -> bool {
    &&& after.connections == before.connections
    &&& !has_room(before.rooms, id)
    &&& after.rooms == seq![RoomView::created(id, room_name, user)] + before.rooms
    &&& event_view(handled.reply) == Some(
        ServerMessagesView::RoomCreated { room_id: id, room_name },
    )
    &&& handled.announces(
        ServerMessagesView::RoomAvailable { room_id: id, room_name },
        before.connections,
        before.connections,
    )
}

/// The identifier of the room that `handled` answers to have created.
pub open spec fn created_id(handled: Handled) -> Seq<char> {
    match event_view(handled.reply) {
        Some(ServerMessagesView::RoomCreated { room_id, room_name }) => room_id,
        _ => Seq::empty(),
    }
}

/// Opens a room for the caller `user_id` under the identifier that `fresh_id`
/// makes of `candidate`.
pub fn create_as(
    app_state: &mut AppState,
    user_id: &String,
    room_name: &String,
    candidate: String,
    tx: &UnboundedSender<ServerMessages>,
) -> (handled: Handled)
    requires
        old(app_state).wf(),
    ensures
        final(app_state).wf(),
        created_as(
            old(app_state)@,
            user_id@,
            room_name@,
            fresh_id(old(app_state)@.rooms, candidate@),
            final(app_state)@,
            handled,
        ),
{
    let room_id = app_state.fresh_room_id(candidate);
    let room = Room::new(room_id.clone(), room_name.clone(), user_id.clone());
    app_state.create_room(&room);
    let reply = ServerMessages::RoomCreated {
        room_id: room_id.clone(),
        room_name: room_name.clone(),
    };
    let accepted = enqueue(tx, reply.clone());
    let announcement = ServerMessages::RoomAvailable { room_id, room_name: room_name.clone() };
    let deliveries = app_state.connections.broadcast_to_all(&announcement);
    Handled { reply: Some(reply), accepted, announcement: Some(announcement), deliveries }
}

/// Opens a room for the caller `user_id` under a random identifier.
pub fn create(
    app_state: &mut AppState,
    user_id: &String,
    room_name: &String,
    tx: &UnboundedSender<ServerMessages>,
) -> (handled: Handled)
    requires
        old(app_state).wf(),
    ensures
        final(app_state).wf(),
        created_as(
            old(app_state)@,
            user_id@,
            room_name@,
            created_id(handled),
            final(app_state)@,
            handled,
        ),
{
    create_as(app_state, user_id, room_name, random_id(), tx)
}

/// Answers with all rooms.
pub fn get(app_state: &AppState, tx: &UnboundedSender<ServerMessages>) -> (handled: Handled)
    ensures
        handled.only_replies(ServerMessagesView::RoomsAvailable { rooms: app_state@.rooms }),
{
    answer(tx, ServerMessages::RoomsAvailable { rooms: app_state.get_rooms() })
}

/// `broadcast` for the caller `user` took the state from `before` to `after`
/// and did `handled`: what `user` said is the last entry of the room's log,
/// and `room_broadcast` went out to every member of the room; or no such room
/// exists, nothing changed, nothing went out, and the caller got the error.
pub open spec fn sent_as(
    before: AppStateView,
    user: Seq<char>,
    room: Seq<char>,
    message: Seq<char>,
    after: AppStateView,
    handled: Handled,
) -> bool {
    &&& after.connections == before.connections
    &&& after.rooms == rooms_after_post(before.rooms, room, user, message)
    &&& match room_of(before.rooms, room) {
        None => after.rooms == before.rooms && handled.only_replies(room_not_found()),
        Some(r) => handled.reply is None && handled.accepted && handled.announces(
            ServerMessagesView::RoomBroadcast { by: user, message },
            r.users,
            before.connections,
        ),
    }
}

/// Appends what `by` said to the log of the room `room`, then sends
/// `room_broadcast` to every member of the room, and goes on past a member
/// that is not registered. `RoomNotFound`, with no change and nothing sent,
/// where no room has that identifier.
pub fn broadcast(
    app_state: &mut AppState,
    message: String,
    room: String,
    by: String,
) -> (res: Result<Vec<Delivery>, ChatError>)
    requires
        old(app_state).wf(),
    ensures
        final(app_state).wf(),
        final(app_state)@.connections == old(app_state)@.connections,
        final(app_state)@.rooms == rooms_after_post(old(app_state)@.rooms, room@, by@, message@),
        match res {
            Ok(report) => room_of(old(app_state)@.rooms, room@) matches Some(r) && attempted(
                report@,
                r.users,
                old(app_state)@.connections,
            ),
            Err(e) => e == ChatError::RoomNotFound && !has_room(old(app_state)@.rooms, room@)
                && final(app_state)@.rooms == old(app_state)@.rooms,
        },
{
    let event = ServerMessages::RoomBroadcast { by: by.clone(), message: message.clone() };
    match app_state.add_message(&room, RoomMessages { by, message }) {
        Err(e) => {
            return Err(e);
        },
        Ok(_) => {},
    }
    match app_state.get_room(&room) {
        Err(e) => Err(e),
        Ok(r) => Ok(app_state.connections.fanout(&r.users, &event)),
    }
}

/// What `list_messages` answers: the log of the room, or the error where no
/// room has the identifier.
pub open spec fn messages_reply(rooms: Seq<RoomView>, room: Seq<char>) -> ServerMessagesView {
    match room_of(rooms, room) {
        Some(r) => ServerMessagesView::ListMessages { messages: r.messages },
        None => room_not_found(),
    }
}

/// Answers with the log of the room `room`.
pub fn list_messages(
    app_state: &AppState,
    room: &String,
    tx: &UnboundedSender<ServerMessages>,
) -> (handled: Handled)
    requires
        app_state.wf(),
    ensures
        handled.only_replies(messages_reply(app_state@.rooms, room@)),
{
    match app_state.get_room(room) {
        Ok(r) => answer(tx, ServerMessages::ListMessages { messages: r.messages }),
        Err(_) => answer(tx, room_not_found_event()),
    }
}

/// What `details` answers: the room in full, or the error where no room has
/// the identifier.
pub open spec fn details_reply(rooms: Seq<RoomView>, room: Seq<char>) -> ServerMessagesView {
    match room_of(rooms, room) {
        Some(r) => ServerMessagesView::RoomDetails { room: r },
        None => room_not_found(),
    }
}

/// Answers with the room `room` in full.
pub fn details(
    app_state: &AppState,
    tx: &UnboundedSender<ServerMessages>,
    room: &String,
) -> (handled: Handled)
    requires
        app_state.wf(),
    ensures
        handled.only_replies(details_reply(app_state@.rooms, room@)),
{
    match app_state.get_room(room) {
        Ok(r) => answer(tx, ServerMessages::RoomDetails { room: r }),
        Err(_) => answer(tx, room_not_found_event()),
    }
}

/// `leave` took the state from `before` to `after` and did `handled`: `user`
/// is no member of the room `room`, and the caller got `room_left`; where the
/// room is gone with its last member, the rooms that are left went out to
/// every connection; or no such room exists, nothing changed, and the caller
/// got the error.
pub open spec fn left_as(
    before: AppStateView,
    room: Seq<char>,
    user: Seq<char>,
    after: AppStateView,
    handled: Handled,
) -> bool {
    &&& after.connections == before.connections
    &&& after.rooms == rooms_after_leave(before.rooms, room, user)
    &&& match room_of(before.rooms, room) {
        None => handled.only_replies(room_not_found()),
        Some(r) => {
            &&& event_view(handled.reply) == Some(
                ServerMessagesView::RoomLeft { room_id: room, user },
            )
            &&& if r.left(user) is None {
                handled.announces(
                    ServerMessagesView::RoomsAvailable { rooms: after.rooms },
                    before.connections,
                    before.connections,
                )
            } else {
                handled.announcement is None && handled.deliveries@.len() == 0
            }
        },
    }
}

/// Lets `user` leave the room `room`.
pub fn leave(
    app_state: &mut AppState,
    room: &String,
    user: &String,
    tx: &UnboundedSender<ServerMessages>,
) -> (handled: Handled)
    requires
        old(app_state).wf(),
    ensures
        final(app_state).wf(),
        left_as(old(app_state)@, room@, user@, final(app_state)@, handled),
{
    match app_state.remove_from_room(room, user) {
        Err(_) => answer(tx, room_not_found_event()),
        Ok(Some(_)) => answer(
            tx,
            ServerMessages::RoomLeft { room_id: room.clone(), user: user.clone() },
        ),
        Ok(None) => {
            let reply = ServerMessages::RoomLeft { room_id: room.clone(), user: user.clone() };
            let accepted = enqueue(tx, reply.clone());
            let announcement = ServerMessages::RoomsAvailable { rooms: app_state.get_rooms() };
            let deliveries = app_state.connections.broadcast_to_all(&announcement);
            Handled { reply: Some(reply), accepted, announcement: Some(announcement), deliveries }
        },
    }
}

} // verus!
