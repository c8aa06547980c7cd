use rchat_core::codec::encode_client_message;
use rchat_core::messages::{ChatType, ClientMessage, ServerMessage};
use rchat_core::relay::{
    handle_client_message, handle_disconnect, handle_frame, make_client_id, ChatRoom, ChatState,
    Delivery, Session, Uuid,
};

fn create_room(state: &mut ChatState, session: &mut Session, room: &str, who: &str, ct: ChatType) {
    let out = handle_client_message(
        state,
        session,
        ClientMessage::CreateChat {
            room_id: String::from(room),
            chat_type: ct,
            username: String::from(who),
        },
        0,
    );
    assert_eq!(out.len(), 1);
    assert!(out[0].client_id.is_none());
    match &out[0].message {
        ServerMessage::ChatCreated { room_id, chat_type } => {
            assert_eq!(room_id, room);
            assert_eq!(*chat_type, ct);
        }
        other => panic!("expected ChatCreated, got {:?}", other),
    }
}

fn join_room(state: &mut ChatState, session: &mut Session, room: &str, who: &str) -> Vec<Delivery> {
    handle_client_message(
        state,
        session,
        ClientMessage::JoinChat { room_id: String::from(room), username: String::from(who) },
        0,
    )
}

#[test]
fn one_to_one_room_refuses_the_third_joiner() {
    let mut state = ChatState::new();
    let mut alice = Session::new();
    create_room(&mut state, &mut alice, "room", "alice", ChatType::OneToOne);

    let mut bob = Session::new();
    let out = join_room(&mut state, &mut bob, "room", "bob");
    assert!(matches!(&out[0].message, ServerMessage::JoinedChat { participant_count: 2, .. }));

    let mut carol = Session::new();
    let out = join_room(&mut state, &mut carol, "room", "carol");
    assert_eq!(out.len(), 1);
    match &out[0].message {
        ServerMessage::Error { message } => assert_eq!(message, "Chat is full"),
        other => panic!("expected Error, got {:?}", other),
    }
}

#[test]
fn group_room_refuses_the_joiner_past_its_cap() {
    let mut state = ChatState::new();
    let mut creator = Session::new();
    create_room(
        &mut state,
        &mut creator,
        "g",
        "u0",
        ChatType::Group { max_participants: 3 },
    );
    let mut s1 = Session::new();
    let mut s2 = Session::new();
    assert!(matches!(&join_room(&mut state, &mut s1, "g", "u1")[0].message,
        ServerMessage::JoinedChat { participant_count: 2, .. }));
    assert!(matches!(&join_room(&mut state, &mut s2, "g", "u2")[0].message,
        ServerMessage::JoinedChat { participant_count: 3, .. }));
    let mut s3 = Session::new();
    match &join_room(&mut state, &mut s3, "g", "u3")[0].message {
        ServerMessage::Error { message } => assert_eq!(message, "Chat is full"),
        other => panic!("expected Error, got {:?}", other),
    }
}

#[test]
fn joining_an_unknown_room_reports_chat_not_found() {
    let mut state = ChatState::new();
    let mut s = Session::new();
    let out = join_room(&mut state, &mut s, "nowhere", "bob");
    assert_eq!(out.len(), 1);
    match &out[0].message {
        ServerMessage::Error { message } => assert_eq!(message, "Chat not found"),
        other => panic!("expected Error, got {:?}", other),
    }
}

#[test]
fn send_message_acks_once_and_echoes_to_every_participant() {
    let mut state = ChatState::new();
    let mut alice = Session::new();
    create_room(&mut state, &mut alice, "room", "alice", ChatType::OneToOne);
    let mut bob = Session::new();
    join_room(&mut state, &mut bob, "room", "bob");

    let out = handle_client_message(
        &mut state,
        &mut alice,
        ClientMessage::SendMessage {
            room_id: String::from("room"),
            encrypted_payload: vec![1, 2, 3],
            message_id: String::from("alice-0-1"),
        },
        1234,
    );
    // exactly one ACK to the sender, then exactly one MessageReceived per
    // participant, the sender included
    assert_eq!(out.len(), 3);
    assert!(out[0].client_id.is_none());
    assert!(matches!(&out[0].message, ServerMessage::MessageAck { message_id } if message_id == "alice-0-1"));
    let mut recipients = Vec::new();
    for d in &out[1..] {
        let cid = d.client_id.as_ref().expect("fan-out goes to participants");
        recipients.push(cid.clone());
        match &d.message {
            ServerMessage::MessageReceived { room_id, encrypted_payload, timestamp, message_id } => {
                assert_eq!(room_id, "room");
                assert_eq!(encrypted_payload, &vec![1, 2, 3]);
                assert_eq!(*timestamp, 1234);
                assert_eq!(message_id, "alice-0-1");
            }
            other => panic!("expected MessageReceived, got {:?}", other),
        }
    }
    // one per participant: alice's handle and bob's handle, no duplicates
    assert_eq!(recipients.len(), 2);
    assert_ne!(recipients[0], recipients[1]);
    let (alice_room, alice_cid) = alice.current.clone().unwrap();
    let (_, bob_cid) = bob.current.clone().unwrap();
    assert_eq!(alice_room, "room");
    assert!(recipients.contains(&alice_cid));
    assert!(recipients.contains(&bob_cid));
}

#[test]
fn send_to_an_unknown_room_only_acks() {
    let mut state = ChatState::new();
    let mut s = Session::new();
    let out = handle_client_message(
        &mut state,
        &mut s,
        ClientMessage::SendMessage {
            room_id: String::from("nowhere"),
            encrypted_payload: vec![1],
            message_id: String::from("m"),
        },
        0,
    );
    assert_eq!(out.len(), 1);
    assert!(matches!(&out[0].message, ServerMessage::MessageAck { .. }));
}

#[test]
fn join_notice_excludes_the_joiner() {
    let mut state = ChatState::new();
    let mut alice = Session::new();
    create_room(&mut state, &mut alice, "room", "alice", ChatType::OneToOne);
    let mut bob = Session::new();
    let out = join_room(&mut state, &mut bob, "room", "bob");
    // the joiner gets JoinedChat; everyone else gets UserJoined
    assert_eq!(out.len(), 2);
    assert!(out[0].client_id.is_none());
    assert!(matches!(&out[0].message, ServerMessage::JoinedChat { .. }));
    let (_, alice_cid) = alice.current.clone().unwrap();
    assert_eq!(out[1].client_id.as_deref(), Some(alice_cid.as_str()));
    assert!(matches!(&out[1].message, ServerMessage::UserLeft { .. }) == false);
    assert!(matches!(&out[1].message, ServerMessage::UserJoined { username, .. } if username == "bob"));
}

#[test]
fn leaving_notifies_the_rest_and_empties_the_room_away() {
    let mut state = ChatState::new();
    let mut alice = Session::new();
    create_room(&mut state, &mut alice, "room", "alice", ChatType::OneToOne);
    let mut bob = Session::new();
    join_room(&mut state, &mut bob, "room", "bob");

    let out = handle_client_message(
        &mut state,
        &mut bob,
        ClientMessage::LeaveChat { room_id: String::from("room") },
        0,
    );
    assert!(bob.current.is_none());
    // only alice hears about it
    assert_eq!(out.len(), 1);
    let (_, alice_cid) = alice.current.clone().unwrap();
    assert_eq!(out[0].client_id.as_deref(), Some(alice_cid.as_str()));
    assert!(matches!(&out[0].message, ServerMessage::UserLeft { username, .. } if username == "bob"));

    // alice leaves too; the empty room is destroyed, so a later join
    // finds nothing
    let out = handle_client_message(
        &mut state,
        &mut alice,
        ClientMessage::LeaveChat { room_id: String::from("room") },
        0,
    );
    assert_eq!(out.len(), 0);
    let mut carol = Session::new();
    match &join_room(&mut state, &mut carol, "room", "carol")[0].message {
        ServerMessage::Error { message } => assert_eq!(message, "Chat not found"),
        other => panic!("expected Error, got {:?}", other),
    }
}

#[test]
fn disconnect_cleanup_mirrors_a_leave() {
    let mut state = ChatState::new();
    let mut alice = Session::new();
    create_room(&mut state, &mut alice, "room", "alice", ChatType::OneToOne);
    let mut bob = Session::new();
    join_room(&mut state, &mut bob, "room", "bob");

    let out = handle_disconnect(&mut state, &mut bob);
    assert!(bob.current.is_none());
    assert_eq!(out.len(), 1);
    assert!(matches!(&out[0].message, ServerMessage::UserLeft { username, .. } if username == "bob"));
    // cleanup is idempotent: a second disconnect emits nothing
    let out = handle_disconnect(&mut state, &mut bob);
    assert_eq!(out.len(), 0);
}

#[test]
fn malformed_frames_terminate_the_session() {
    let mut state = ChatState::new();
    let mut s = Session::new();
    assert!(handle_frame(&mut state, &mut s, &[], 0).is_none());
    assert!(handle_frame(&mut state, &mut s, &[42, 42, 42], 0).is_none());
    let good = encode_client_message(&ClientMessage::LeaveChat { room_id: String::from("r") });
    assert!(handle_frame(&mut state, &mut s, &good, 0).is_some());
}

#[test]
fn room_primitives_enforce_the_cap() {
    let mut room = ChatRoom::new(ChatType::OneToOne);
    assert!(room.can_join());
    room.add_participant(String::from("a_1"), String::from("a"));
    assert!(room.can_join());
    room.add_participant(String::from("b_2"), String::from("b"));
    assert!(!room.can_join());
    assert_eq!(room.get_username("a_1").as_deref(), Some("a"));
    assert!(room.has_participant("b_2"));
    assert_eq!(room.remove_participant("a_1").as_deref(), Some("a"));
    assert!(!room.has_participant("a_1"));
    assert!(room.can_join());
}

#[test]
fn client_ids_carry_username_and_hex_groups() {
    let uuid = Uuid::new_v4();
    let cid = make_client_id("alice", &uuid);
    assert!(cid.starts_with("alice_"));
    let hex = &cid["alice_".len()..];
    // 8 hex chars, dash, 4, dash, 4
    assert_eq!(hex.len(), 8 + 1 + 4 + 1 + 4);
    assert_eq!(hex.as_bytes()[8], b'-');
    assert_eq!(hex.as_bytes()[13], b'-');
}

#[test]
fn a_framed_create_chat_round_trips_through_the_relay() {
    let mut state = ChatState::new();
    let mut s = Session::new();
    let body = encode_client_message(&ClientMessage::CreateChat {
        room_id: String::from("r"),
        chat_type: ChatType::OneToOne,
        username: String::from("alice"),
    });
    let framed = rchat_core::codec::frame_message(&body).unwrap();
    let len = rchat_core::codec::parse_frame_len(&framed[0..4]).unwrap();
    assert_eq!(len, body.len());
    let out = handle_frame(&mut state, &mut s, &framed[4..], 0).unwrap();
    assert_eq!(out.len(), 1);
    let reply = rchat_core::codec::encode_server_message(&out[0].message);
    let decoded = rchat_core::codec::decode_server_message(&reply).unwrap();
    assert!(matches!(decoded, ServerMessage::ChatCreated { .. }));
}

#[test]
fn a_repeated_create_leaves_the_occupied_room_untouched() {
    let mut state = ChatState::new();
    let mut alice = Session::new();
    create_room(&mut state, &mut alice, "room", "alice", ChatType::OneToOne);
    let mut bob = Session::new();
    join_room(&mut state, &mut bob, "room", "bob");

    // A second CreateChat under the same room id must not wipe the room:
    // it is created only on the first create, and it is full, so Carol is
    // not admitted either.
    let mut carol = Session::new();
    let out = handle_client_message(
        &mut state,
        &mut carol,
        ClientMessage::CreateChat {
            room_id: String::from("room"),
            chat_type: ChatType::OneToOne,
            username: String::from("carol"),
        },
        0,
    );
    assert_eq!(out.len(), 1);
    assert!(matches!(&out[0].message, ServerMessage::ChatCreated { .. }));
    assert!(carol.current.is_none());

    // Alice and Bob are still the participants: a send still fans out to
    // exactly the two of them.
    let send = handle_client_message(
        &mut state,
        &mut alice,
        ClientMessage::SendMessage {
            room_id: String::from("room"),
            encrypted_payload: vec![9],
            message_id: String::from("m"),
        },
        0,
    );
    assert_eq!(send.len(), 3);
}
