use chat_relay::app_state::AppState;
use chat_relay::handlers::connections::{
    after_write, connect, connect_as, disconnect, get_clients, handle_message, info,
    list_connections, receive, ConnectionState, Inbound,
};
use chat_relay::handlers::room::{
    broadcast, create, create_as, details, get, join, leave, list_messages,
};
use chat_relay::handlers::{room_not_found_event, Handled};
use chat_relay::registry::Delivery;
use chat_relay::types::{ChatError, ClientMessages, Room, RoomMessages, ServerMessages};
use tokio::sync::mpsc::{unbounded_channel, UnboundedReceiver, UnboundedSender};

type Tx = UnboundedSender<ServerMessages>;
type Rx = UnboundedReceiver<ServerMessages>;

fn s(text: &str) -> String {
    text.to_string()
}

fn not_found() -> ServerMessages {
    ServerMessages::Error { message: s("Room not found") }
}

fn only_reply(reply: ServerMessages) -> Handled {
    Handled { reply: Some(reply), accepted: true, announcement: None, deliveries: Vec::new() }
}

fn delivered(to: &str) -> Delivery {
    Delivery { to: s(to), failure: None }
}

/// Registers a connection and returns both halves of its queue.
fn online(state: &mut AppState, id: &str) -> (Tx, Rx) {
    let (tx, rx) = unbounded_channel::<ServerMessages>();
    assert_eq!(connect_as(state, s(id), tx.clone()), ConnectionState::Active);
    (tx, rx)
}

fn drain(rx: &mut Rx) -> Vec<ServerMessages> {
    let mut out = Vec::new();
    while let Ok(m) = rx.try_recv() {
        out.push(m);
    }
    out
}

/// The identifier of the only room.
fn only_room(state: &AppState) -> String {
    let rooms = state.get_rooms();
    assert_eq!(rooms.len(), 1);
    rooms[0].room.clone()
}

#[test]
fn scenario_create_join_and_send() {
    let mut state = AppState::new();
    let (alice_tx, mut alice_rx) = online(&mut state, "alice");
    let (bob_tx, mut bob_rx) = online(&mut state, "bob");

    create(&mut state, &s("alice"), &s("R"), &alice_tx);
    let id = only_room(&state);
    let room = state.get_room(&id).unwrap();
    assert_eq!(room.room_name, "R");
    assert_eq!(room.users, vec!["alice"]);
    assert_eq!(room.admin, "alice");

    join(&mut state, &s("bob"), &id, &bob_tx);
    assert_eq!(state.get_room(&id).unwrap().users, vec!["alice", "bob"]);
    drain(&mut alice_rx);
    drain(&mut bob_rx);

    let handled = handle_message(
        &mut state,
        &s("bob"),
        &bob_tx,
        ClientMessages::SendMessageToRoom { message: s("hi"), room: id.clone() },
    );
    let event = ServerMessages::RoomBroadcast { by: s("bob"), message: s("hi") };
    assert_eq!(drain(&mut alice_rx), vec![event.clone()]);
    assert_eq!(drain(&mut bob_rx), vec![event.clone()]);
    assert_eq!(handled.reply, None);
    assert_eq!(handled.announcement, Some(event));
    assert_eq!(handled.deliveries, vec![delivered("alice"), delivered("bob")]);
    let log = state.get_room(&id).unwrap().messages;
    assert_eq!(log, vec![RoomMessages { by: s("bob"), message: s("hi") }]);
    assert_eq!(log.len() - 1, 0);
}

#[test]
fn scenario_admin_leaves_while_another_remains() {
    let mut state = AppState::new();
    let (alice_tx, _alice_rx) = online(&mut state, "alice");
    let (bob_tx, _bob_rx) = online(&mut state, "bob");
    create(&mut state, &s("alice"), &s("R"), &alice_tx);
    let id = only_room(&state);
    join(&mut state, &s("bob"), &id, &bob_tx);
    leave(&mut state, &id, &s("alice"), &alice_tx);
    let room = state.get_room(&id).unwrap();
    assert_eq!(room.users, vec!["bob"]);
    assert_eq!(room.admin, "bob");
}

#[test]
fn scenario_sole_member_leaves() {
    let mut state = AppState::new();
    let (alice_tx, _alice_rx) = online(&mut state, "alice");
    create(&mut state, &s("alice"), &s("R"), &alice_tx);
    let id = only_room(&state);
    leave(&mut state, &id, &s("alice"), &alice_tx);
    assert_eq!(state.get_room(&id), Err(ChatError::RoomNotFound));
    assert!(state.get_rooms().is_empty());
}

#[test]
fn scenario_send_to_a_room_that_does_not_exist() {
    let mut state = AppState::new();
    let (alice_tx, mut alice_rx) = online(&mut state, "alice");
    let (_bob_tx, mut bob_rx) = online(&mut state, "bob");
    create(&mut state, &s("alice"), &s("R"), &alice_tx);
    let id = only_room(&state);
    drain(&mut alice_rx);
    drain(&mut bob_rx);
    let before = state.get_rooms();

    let res = broadcast(&mut state, s("hi"), s("no such room"), s("alice"));
    assert_eq!(res, Err(ChatError::RoomNotFound));
    assert_eq!(state.get_rooms(), before);
    assert!(state.get_room(&id).unwrap().messages.is_empty());
    assert!(drain(&mut alice_rx).is_empty());
    assert!(drain(&mut bob_rx).is_empty());

    let handled = handle_message(
        &mut state,
        &s("alice"),
        &alice_tx,
        ClientMessages::SendMessageToRoom { message: s("hi"), room: s("no such room") },
    );
    assert_eq!(handled, only_reply(not_found()));
    assert_eq!(drain(&mut alice_rx), vec![not_found()]);
    assert!(drain(&mut bob_rx).is_empty());
    assert_eq!(state.get_rooms(), before);
}

#[test]
fn broadcast_reaches_members_only_and_skips_the_unreachable() {
    let mut state = AppState::new();
    let (alice_tx, mut alice_rx) = online(&mut state, "alice");
    let (_carol_tx, mut carol_rx) = online(&mut state, "carol");
    state.create_room(&Room::new(s("R"), s("lobby"), s("alice")));
    state.add_to_room(&s("R"), &s("ghost")).unwrap();
    state.add_to_room(&s("R"), &s("bob")).unwrap();
    let (bob_tx, bob_rx) = unbounded_channel::<ServerMessages>();
    assert_eq!(connect_as(&mut state, s("bob"), bob_tx), ConnectionState::Active);
    drop(bob_rx);

    let report = broadcast(&mut state, s("hello"), s("R"), s("alice")).unwrap();
    assert_eq!(
        report,
        vec![
            delivered("alice"),
            Delivery { to: s("ghost"), failure: Some(ChatError::NotFound) },
            Delivery { to: s("bob"), failure: Some(ChatError::TransportFailure) },
        ]
    );
    assert_eq!(
        drain(&mut alice_rx),
        vec![ServerMessages::RoomBroadcast { by: s("alice"), message: s("hello") }]
    );
    assert!(drain(&mut carol_rx).is_empty());
    assert_eq!(state.get_room(&s("R")).unwrap().messages.len(), 1);
    assert_eq!(state.get_connections(), vec!["alice", "carol", "bob"]);
    drop(alice_tx);
}

#[test]
fn broadcasts_are_logged_in_the_order_of_the_calls() {
    let mut state = AppState::new();
    let (_alice_tx, mut alice_rx) = online(&mut state, "alice");
    state.create_room(&Room::new(s("R"), s("lobby"), s("alice")));
    broadcast(&mut state, s("one"), s("R"), s("alice")).unwrap();
    broadcast(&mut state, s("two"), s("R"), s("bob")).unwrap();
    broadcast(&mut state, s("three"), s("R"), s("alice")).unwrap();
    let log = state.get_room(&s("R")).unwrap().messages;
    assert_eq!(
        log,
        vec![
            RoomMessages { by: s("alice"), message: s("one") },
            RoomMessages { by: s("bob"), message: s("two") },
            RoomMessages { by: s("alice"), message: s("three") },
        ]
    );
    assert_eq!(
        drain(&mut alice_rx),
        vec![
            ServerMessages::RoomBroadcast { by: s("alice"), message: s("one") },
            ServerMessages::RoomBroadcast { by: s("bob"), message: s("two") },
            ServerMessages::RoomBroadcast { by: s("alice"), message: s("three") },
        ]
    );
}

#[test]
fn join_answers_with_the_room() {
    let mut state = AppState::new();
    let (bob_tx, mut bob_rx) = online(&mut state, "bob");
    state.create_room(&Room::new(s("R"), s("lobby"), s("alice")));
    let handled = join(&mut state, &s("bob"), &s("R"), &bob_tx);
    let reply = ServerMessages::RoomJoined { room_id: s("R"), room_name: s("lobby") };
    assert_eq!(handled, only_reply(reply.clone()));
    assert_eq!(drain(&mut bob_rx), vec![reply.clone()]);
    let again = join(&mut state, &s("bob"), &s("R"), &bob_tx);
    assert_eq!(again, only_reply(reply));
    assert_eq!(state.get_room(&s("R")).unwrap().users, vec!["alice", "bob"]);
}

#[test]
fn join_of_an_unknown_room_answers_with_the_error() {
    let mut state = AppState::new();
    let (bob_tx, mut bob_rx) = online(&mut state, "bob");
    let handled = join(&mut state, &s("bob"), &s("nope"), &bob_tx);
    assert_eq!(handled, only_reply(not_found()));
    assert_eq!(drain(&mut bob_rx), vec![not_found()]);
    assert!(state.get_rooms().is_empty());
    assert_eq!(room_not_found_event(), not_found());
}

#[test]
fn create_answers_and_announces() {
    let mut state = AppState::new();
    let (alice_tx, mut alice_rx) = online(&mut state, "alice");
    let (_bob_tx, mut bob_rx) = online(&mut state, "bob");
    let handled = create_as(&mut state, &s("alice"), &s("lobby"), s("id-1"), &alice_tx);
    let created = ServerMessages::RoomCreated { room_id: s("id-1"), room_name: s("lobby") };
    let available = ServerMessages::RoomAvailable { room_id: s("id-1"), room_name: s("lobby") };
    assert_eq!(
        handled,
        Handled {
            reply: Some(created.clone()),
            accepted: true,
            announcement: Some(available.clone()),
            deliveries: vec![delivered("alice"), delivered("bob")],
        }
    );
    assert_eq!(drain(&mut alice_rx), vec![created, available.clone()]);
    assert_eq!(drain(&mut bob_rx), vec![available]);
    assert_eq!(state.get_rooms(), vec![Room::new(s("id-1"), s("lobby"), s("alice"))]);
}

#[test]
fn create_under_a_taken_identifier_takes_a_fresh_one() {
    let mut state = AppState::new();
    let (alice_tx, _alice_rx) = online(&mut state, "alice");
    create_as(&mut state, &s("alice"), &s("first"), s("id-1"), &alice_tx);
    let handled = create_as(&mut state, &s("alice"), &s("second"), s("id-1"), &alice_tx);
    assert_eq!(
        handled.reply,
        Some(ServerMessages::RoomCreated { room_id: s("id-10"), room_name: s("second") })
    );
    let rooms = state.get_rooms();
    assert_eq!(rooms.len(), 2);
    assert_eq!(rooms[0], Room::new(s("id-10"), s("second"), s("alice")));
    assert_eq!(rooms[1], Room::new(s("id-1"), s("first"), s("alice")));
}

#[test]
fn create_draws_a_new_identifier_each_time() {
    let mut state = AppState::new();
    let (alice_tx, _alice_rx) = online(&mut state, "alice");
    for _ in 0..20 {
        create(&mut state, &s("alice"), &s("same name"), &alice_tx);
    }
    let rooms = state.get_rooms();
    assert_eq!(rooms.len(), 20);
    for a in 0..rooms.len() {
        assert!(!rooms[a].room.is_empty());
        assert_eq!(rooms[a].room_name, "same name");
        assert_eq!(rooms[a].users, vec!["alice"]);
        for b in (a + 1)..rooms.len() {
            assert_ne!(rooms[a].room, rooms[b].room);
        }
    }
}

#[test]
fn get_answers_with_all_rooms() {
    let mut state = AppState::new();
    let (alice_tx, mut alice_rx) = online(&mut state, "alice");
    state.create_room(&Room::new(s("R"), s("lobby"), s("alice")));
    state.create_room(&Room::new(s("S"), s("second"), s("bob")));
    let handled = get(&state, &alice_tx);
    let reply = ServerMessages::RoomsAvailable {
        rooms: vec![Room::new(s("S"), s("second"), s("bob")), Room::new(s("R"), s("lobby"), s("alice"))],
    };
    assert_eq!(handled, only_reply(reply.clone()));
    assert_eq!(drain(&mut alice_rx), vec![reply]);
}

#[test]
fn list_messages_answers_with_the_log() {
    let mut state = AppState::new();
    let (alice_tx, mut alice_rx) = online(&mut state, "alice");
    state.create_room(&Room::new(s("R"), s("lobby"), s("alice")));
    let empty = list_messages(&state, &s("R"), &alice_tx);
    assert_eq!(empty, only_reply(ServerMessages::ListMessages { messages: Vec::new() }));
    state.add_message(&s("R"), RoomMessages { by: s("alice"), message: s("one") }).unwrap();
    let one = list_messages(&state, &s("R"), &alice_tx);
    let reply = ServerMessages::ListMessages {
        messages: vec![RoomMessages { by: s("alice"), message: s("one") }],
    };
    assert_eq!(one, only_reply(reply.clone()));
    let missing = list_messages(&state, &s("nope"), &alice_tx);
    assert_eq!(missing, only_reply(not_found()));
    assert_eq!(
        drain(&mut alice_rx),
        vec![ServerMessages::ListMessages { messages: Vec::new() }, reply, not_found()]
    );
}

#[test]
fn details_answers_with_the_room_in_full() {
    let mut state = AppState::new();
    let (alice_tx, mut alice_rx) = online(&mut state, "alice");
    state.create_room(&Room::new(s("R"), s("lobby"), s("alice")));
    state.add_to_room(&s("R"), &s("bob")).unwrap();
    let handled = details(&state, &alice_tx, &s("R"));
    let mut room = Room::new(s("R"), s("lobby"), s("alice"));
    room.users.push(s("bob"));
    assert_eq!(handled, only_reply(ServerMessages::RoomDetails { room: room.clone() }));
    assert_eq!(details(&state, &alice_tx, &s("nope")), only_reply(not_found()));
    assert_eq!(drain(&mut alice_rx), vec![ServerMessages::RoomDetails { room }, not_found()]);
}

#[test]
fn leave_answers_and_keeps_quiet_while_the_room_stays() {
    let mut state = AppState::new();
    let (alice_tx, mut alice_rx) = online(&mut state, "alice");
    let (_bob_tx, mut bob_rx) = online(&mut state, "bob");
    state.create_room(&Room::new(s("R"), s("lobby"), s("alice")));
    state.add_to_room(&s("R"), &s("bob")).unwrap();
    let handled = leave(&mut state, &s("R"), &s("alice"), &alice_tx);
    let reply = ServerMessages::RoomLeft { room_id: s("R"), user: s("alice") };
    assert_eq!(handled, only_reply(reply.clone()));
    assert_eq!(drain(&mut alice_rx), vec![reply]);
    assert!(drain(&mut bob_rx).is_empty());
}

#[test]
fn leave_of_the_last_member_announces_the_rooms_that_are_left() {
    let mut state = AppState::new();
    let (alice_tx, mut alice_rx) = online(&mut state, "alice");
    let (_bob_tx, mut bob_rx) = online(&mut state, "bob");
    state.create_room(&Room::new(s("R"), s("lobby"), s("alice")));
    state.create_room(&Room::new(s("S"), s("second"), s("bob")));
    let handled = leave(&mut state, &s("R"), &s("alice"), &alice_tx);
    let reply = ServerMessages::RoomLeft { room_id: s("R"), user: s("alice") };
    let directory = ServerMessages::RoomsAvailable {
        rooms: vec![Room::new(s("S"), s("second"), s("bob"))],
    };
    assert_eq!(
        handled,
        Handled {
            reply: Some(reply.clone()),
            accepted: true,
            announcement: Some(directory.clone()),
            deliveries: vec![delivered("alice"), delivered("bob")],
        }
    );
    assert_eq!(drain(&mut alice_rx), vec![reply, directory.clone()]);
    assert_eq!(drain(&mut bob_rx), vec![directory]);
}

#[test]
fn leave_of_an_unknown_room_answers_with_the_error() {
    let mut state = AppState::new();
    let (alice_tx, _alice_rx) = online(&mut state, "alice");
    assert_eq!(leave(&mut state, &s("nope"), &s("alice"), &alice_tx), only_reply(not_found()));
}

#[test]
fn connection_listings() {
    let mut state = AppState::new();
    let (alice_tx, mut alice_rx) = online(&mut state, "alice");
    let (_bob_tx, _bob_rx) = online(&mut state, "bob");
    let listed = list_connections(&state, &alice_tx);
    let clients = get_clients(&state, &alice_tx);
    let me = info(&s("alice"), &alice_tx);
    let expect_listed =
        ServerMessages::Connections { connections: vec![s("alice"), s("bob")], total: 2 };
    let expect_clients = ServerMessages::Clients { clients: vec![s("alice"), s("bob")] };
    let expect_me = ServerMessages::Info { user_id: s("alice") };
    assert_eq!(listed, only_reply(expect_listed.clone()));
    assert_eq!(clients, only_reply(expect_clients.clone()));
    assert_eq!(me, only_reply(expect_me.clone()));
    assert_eq!(drain(&mut alice_rx), vec![expect_listed, expect_clients, expect_me]);
}

#[test]
fn dispatch_of_every_command() {
    let mut state = AppState::new();
    let (tx, mut rx) = online(&mut state, "alice");
    let me = s("alice");
    state.create_room(&Room::new(s("R"), s("lobby"), s("bob")));

    let h = handle_message(&mut state, &me, &tx, ClientMessages::Info);
    assert_eq!(h, only_reply(ServerMessages::Info { user_id: s("alice") }));

    let h = handle_message(&mut state, &me, &tx, ClientMessages::ListConn);
    assert_eq!(
        h,
        only_reply(ServerMessages::Connections { connections: vec![s("alice")], total: 1 })
    );

    let h = handle_message(&mut state, &me, &tx, ClientMessages::GetClients);
    assert_eq!(h, only_reply(ServerMessages::Clients { clients: vec![s("alice")] }));

    let h = handle_message(&mut state, &me, &tx, ClientMessages::Join { room: s("R") });
    assert_eq!(
        h,
        only_reply(ServerMessages::RoomJoined { room_id: s("R"), room_name: s("lobby") })
    );

    let h = handle_message(&mut state, &me, &tx, ClientMessages::RoomDetails { room: s("R") });
    let mut room = Room::new(s("R"), s("lobby"), s("bob"));
    room.users.push(s("alice"));
    assert_eq!(h, only_reply(ServerMessages::RoomDetails { room: room.clone() }));

    let h = handle_message(&mut state, &me, &tx, ClientMessages::GetRooms);
    assert_eq!(h, only_reply(ServerMessages::RoomsAvailable { rooms: vec![room] }));

    let h = handle_message(
        &mut state,
        &me,
        &tx,
        ClientMessages::SendMessageToRoom { message: s("hi"), room: s("R") },
    );
    assert_eq!(
        h,
        Handled {
            reply: None,
            accepted: true,
            announcement: Some(ServerMessages::RoomBroadcast { by: s("alice"), message: s("hi") }),
            deliveries: vec![
                Delivery { to: s("bob"), failure: Some(ChatError::NotFound) },
                delivered("alice"),
            ],
        }
    );

    let h = handle_message(&mut state, &me, &tx, ClientMessages::ListRoomMessages { room: s("R") });
    assert_eq!(
        h,
        only_reply(ServerMessages::ListMessages {
            messages: vec![RoomMessages { by: s("alice"), message: s("hi") }],
        })
    );

    let h = handle_message(
        &mut state,
        &me,
        &tx,
        ClientMessages::LeaveRoom { room: s("R"), user: s("bob") },
    );
    assert_eq!(h, only_reply(ServerMessages::RoomLeft { room_id: s("R"), user: s("bob") }));
    assert_eq!(state.get_room(&s("R")).unwrap().admin, "alice");

    let h = handle_message(&mut state, &me, &tx, ClientMessages::Create { room_name: s("new") });
    let rooms = state.get_rooms();
    assert_eq!(rooms.len(), 2);
    let id = rooms[0].room.clone();
    assert_ne!(id, "R");
    assert_eq!(rooms[0], Room::new(id.clone(), s("new"), s("alice")));
    assert_eq!(
        h.reply,
        Some(ServerMessages::RoomCreated { room_id: id.clone(), room_name: s("new") })
    );
    assert_eq!(
        h.announcement,
        Some(ServerMessages::RoomAvailable { room_id: id, room_name: s("new") })
    );
    assert_eq!(h.deliveries, vec![delivered("alice")]);
    assert_eq!(drain(&mut rx).len(), 11);
}

#[test]
fn connect_registers_once() {
    let mut state = AppState::new();
    let (first, mut first_rx) = unbounded_channel::<ServerMessages>();
    let (second, mut second_rx) = unbounded_channel::<ServerMessages>();
    assert_eq!(connect_as(&mut state, s("alice"), first), ConnectionState::Active);
    assert_eq!(connect_as(&mut state, s("alice"), second), ConnectionState::Closed);
    assert_eq!(state.get_connections(), vec!["alice"]);
    state.connections.broadcast_to_all(&ServerMessages::Info { user_id: s("x") });
    assert_eq!(drain(&mut first_rx).len(), 1);
    assert!(drain(&mut second_rx).is_empty());
}

#[test]
fn receive_echoes_what_it_cannot_decode() {
    let mut state = AppState::new();
    let (tx, mut rx) = online(&mut state, "alice");
    let (next, handled) = receive(
        &mut state,
        ConnectionState::Active,
        &s("alice"),
        &tx,
        Inbound::Malformed(s("{not json")),
    );
    assert_eq!(next, ConnectionState::Active);
    let echo = ServerMessages::Echo { text: s("Echo: {not json") };
    assert_eq!(handled, only_reply(echo.clone()));
    assert_eq!(drain(&mut rx), vec![echo]);
}

#[test]
fn receive_answers_a_ping_with_its_payload() {
    let mut state = AppState::new();
    let (tx, mut rx) = online(&mut state, "alice");
    let (next, handled) =
        receive(&mut state, ConnectionState::Active, &s("alice"), &tx, Inbound::Ping(vec![1, 2, 3]));
    assert_eq!(next, ConnectionState::Active);
    assert_eq!(handled, only_reply(ServerMessages::Pong { data: vec![1, 2, 3] }));
    assert_eq!(drain(&mut rx), vec![ServerMessages::Pong { data: vec![1, 2, 3] }]);
}

#[test]
fn receive_carries_out_a_command() {
    let mut state = AppState::new();
    let (tx, mut rx) = online(&mut state, "alice");
    let (next, handled) = receive(
        &mut state,
        ConnectionState::Active,
        &s("alice"),
        &tx,
        Inbound::Command(ClientMessages::Info),
    );
    assert_eq!(next, ConnectionState::Active);
    assert_eq!(handled, only_reply(ServerMessages::Info { user_id: s("alice") }));
    assert_eq!(drain(&mut rx).len(), 1);
}

#[test]
fn receive_ignores_binary_and_other_frames() {
    let mut state = AppState::new();
    let (tx, mut rx) = online(&mut state, "alice");
    let silent = Handled { reply: None, accepted: true, announcement: None, deliveries: Vec::new() };
    for inbound in [Inbound::Binary, Inbound::Other] {
        let (next, handled) = receive(&mut state, ConnectionState::Active, &s("alice"), &tx, inbound);
        assert_eq!(next, ConnectionState::Active);
        assert_eq!(handled, silent);
    }
    assert!(drain(&mut rx).is_empty());
}

#[test]
fn receive_ends_on_close_and_on_failure() {
    let mut state = AppState::new();
    let (tx, mut rx) = online(&mut state, "alice");
    for inbound in [Inbound::Close, Inbound::Failed] {
        let (next, handled) = receive(&mut state, ConnectionState::Active, &s("alice"), &tx, inbound);
        assert_eq!(next, ConnectionState::Closing);
        assert_eq!(handled.reply, None);
    }
    assert!(drain(&mut rx).is_empty());
    assert_eq!(state.get_connections(), vec!["alice"]);
}

#[test]
fn receive_ends_when_the_own_queue_is_closed() {
    let mut state = AppState::new();
    let (tx, rx) = online(&mut state, "alice");
    drop(rx);
    let (next, handled) = receive(
        &mut state,
        ConnectionState::Active,
        &s("alice"),
        &tx,
        Inbound::Command(ClientMessages::Info),
    );
    assert_eq!(next, ConnectionState::Closing);
    assert!(!handled.accepted);
    assert_eq!(handled.reply, Some(ServerMessages::Info { user_id: s("alice") }));
}

#[test]
fn receive_does_nothing_on_a_connection_that_is_not_active() {
    let mut state = AppState::new();
    let (tx, mut rx) = online(&mut state, "alice");
    for st in [ConnectionState::Connecting, ConnectionState::Closing, ConnectionState::Closed] {
        let (next, handled) = receive(
            &mut state,
            st,
            &s("alice"),
            &tx,
            Inbound::Command(ClientMessages::Create { room_name: s("R") }),
        );
        assert_eq!(next, st);
        assert_eq!(handled.reply, None);
        assert_eq!(handled.announcement, None);
    }
    assert!(state.get_rooms().is_empty());
    assert!(drain(&mut rx).is_empty());
}

#[test]
fn state_after_a_frame() {
    let active = ConnectionState::Active;
    assert_eq!(active.after_frame(false, true), ConnectionState::Active);
    assert_eq!(active.after_frame(true, true), ConnectionState::Closing);
    assert_eq!(active.after_frame(false, false), ConnectionState::Closing);
    assert_eq!(active.after_frame(true, false), ConnectionState::Closing);
    for st in [ConnectionState::Connecting, ConnectionState::Closing, ConnectionState::Closed] {
        assert_eq!(st.after_frame(true, false), st);
        assert_eq!(st.after_frame(false, true), st);
    }
}

#[test]
fn disconnect_unregisters_and_leaves_every_room() {
    let mut state = AppState::new();
    let (alice_tx, _alice_rx) = online(&mut state, "alice");
    let (bob_tx, _bob_rx) = online(&mut state, "bob");
    create_as(&mut state, &s("alice"), &s("solo"), s("solo"), &alice_tx);
    create_as(&mut state, &s("alice"), &s("shared"), s("shared"), &alice_tx);
    join(&mut state, &s("bob"), &s("shared"), &bob_tx);
    let next = disconnect(&mut state, ConnectionState::Closing, &s("alice"));
    assert_eq!(next, ConnectionState::Closed);
    assert_eq!(state.get_connections(), vec!["bob"]);
    let rooms = state.get_rooms();
    assert_eq!(rooms.len(), 1);
    assert_eq!(rooms[0].room, "shared");
    assert_eq!(rooms[0].users, vec!["bob"]);
    assert_eq!(rooms[0].admin, "bob");
}

#[test]
fn disconnect_does_nothing_unless_the_connection_is_closing() {
    let mut state = AppState::new();
    let (alice_tx, _alice_rx) = online(&mut state, "alice");
    create_as(&mut state, &s("alice"), &s("solo"), s("solo"), &alice_tx);
    for st in [ConnectionState::Connecting, ConnectionState::Active, ConnectionState::Closed] {
        assert_eq!(disconnect(&mut state, st, &s("alice")), st);
    }
    assert_eq!(state.get_connections(), vec!["alice"]);
    assert_eq!(state.get_rooms().len(), 1);
}

#[test]
fn pump_goes_on_after_a_write_that_succeeded() {
    let mut state = AppState::new();
    let (alice_tx, _alice_rx) = online(&mut state, "alice");
    create_as(&mut state, &s("alice"), &s("solo"), s("solo"), &alice_tx);
    assert!(after_write(&mut state, &s("alice"), true));
    assert_eq!(state.get_connections(), vec!["alice"]);
    assert_eq!(state.get_rooms(), vec![Room::new(s("solo"), s("solo"), s("alice"))]);
}

#[test]
fn pump_stops_after_a_write_that_failed_and_the_connection_is_torn_down() {
    let mut state = AppState::new();
    let (alice_tx, _alice_rx) = online(&mut state, "alice");
    let (bob_tx, _bob_rx) = online(&mut state, "bob");
    create_as(&mut state, &s("alice"), &s("solo"), s("solo"), &alice_tx);
    create_as(&mut state, &s("bob"), &s("shared"), s("shared"), &bob_tx);
    join(&mut state, &s("alice"), &s("shared"), &alice_tx);
    assert!(!after_write(&mut state, &s("alice"), false));
    assert_eq!(state.get_connections(), vec!["bob"]);
    let rooms = state.get_rooms();
    assert_eq!(rooms.len(), 1);
    assert_eq!(rooms[0].room, "shared");
    assert_eq!(rooms[0].users, vec!["bob"]);
    assert!(state.is_valid());
    assert_eq!(disconnect(&mut state, ConnectionState::Closing, &s("alice")), ConnectionState::Closed);
    assert_eq!(state.get_connections(), vec!["bob"]);
    assert_eq!(state.get_rooms().len(), 1);
}

#[test]
fn members_of_rooms_are_registered_after_a_teardown() {
    let mut state = AppState::new();
    let (alice_tx, _alice_rx) = online(&mut state, "alice");
    let (bob_tx, _bob_rx) = online(&mut state, "bob");
    let (carol_tx, _carol_rx) = online(&mut state, "carol");
    create_as(&mut state, &s("alice"), &s("one"), s("one"), &alice_tx);
    create_as(&mut state, &s("bob"), &s("two"), s("two"), &bob_tx);
    join(&mut state, &s("bob"), &s("one"), &bob_tx);
    join(&mut state, &s("carol"), &s("one"), &carol_tx);
    join(&mut state, &s("carol"), &s("two"), &carol_tx);
    disconnect(&mut state, ConnectionState::Closing, &s("bob"));
    let registered = state.get_connections();
    for room in state.get_rooms() {
        for user in room.users.iter() {
            assert!(registered.contains(user));
        }
        assert!(room.users.contains(&room.admin));
    }
    assert_eq!(state.get_room(&s("two")).unwrap().admin, "carol");
    assert_eq!(state.get_room(&s("one")).unwrap().admin, "alice");
}

#[test]
fn connect_draws_a_new_identifier_each_time() {
    let mut state = AppState::new();
    let mut receivers = Vec::new();
    let mut drawn: Vec<String> = Vec::new();
    for _ in 0..20 {
        let (tx, rx) = unbounded_channel::<ServerMessages>();
        let (st, id) = connect(&mut state, tx);
        assert_eq!(st, ConnectionState::Active);
        assert!(!id.is_empty());
        assert!(!drawn.contains(&id));
        drawn.push(id);
        receivers.push(rx);
    }
    assert_eq!(state.get_connections(), drawn);
    state.connections.broadcast_to_all(&ServerMessages::Info { user_id: s("x") });
    for rx in receivers.iter_mut() {
        assert_eq!(drain(rx), vec![ServerMessages::Info { user_id: s("x") }]);
    }
}
