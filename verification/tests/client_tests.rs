use rchat_core::client::{
    auto_close_due, mark_sent, ChatContext, ChatMessage, PendingMessage, AppMode,
};
use rchat_core::envelope::ChatKey;
use rchat_core::identity::IdentityKey;
use rchat_core::messages::{ChatType, ClientMessage, ServerMessage};
use rchat_core::ratchet::ChainKey;
use rchat_core::relay::{handle_client_message, ChatState, Session};
use rchat_core::codec::encode_payload;
use rchat_core::identity::signing_input;
use rchat_core::messages::MessagePayload;

fn make_context(name: &str) -> ChatContext {
    ChatContext::from_parts(
        String::from(name),
        String::from("room"),
        ChatKey::from_key_bytes(vec![7u8; 32]),
        ChainKey::from_root_key(vec![9u8; 32]),
        IdentityKey::generate(),
    )
}

fn ui_entry(ctx_name: &str, shown: &ChatMessage) -> ChatMessage {
    ChatMessage {
        username: String::from(ctx_name),
        content: shown.content.clone(),
        timestamp: shown.timestamp,
        verified: shown.verified,
        sent: shown.sent,
        message_id: shown.message_id.clone(),
    }
}

#[test]
fn happy_one_to_one_flow() {
    // Alice creates a one-to-one room; Bob joins with the same code, so
    // both hold the same content key and ratchet root.
    let mut alice = make_context("alice");
    let mut bob = make_context("bob");

    let mut state = ChatState::new();
    let mut alice_session = Session::new();
    let mut bob_session = Session::new();
    handle_client_message(
        &mut state,
        &mut alice_session,
        ClientMessage::CreateChat {
            room_id: alice.room_id.clone(),
            chat_type: ChatType::OneToOne,
            username: String::from("alice"),
        },
        0,
    );
    handle_client_message(
        &mut state,
        &mut bob_session,
        ClientMessage::JoinChat {
            room_id: alice.room_id.clone(),
            username: String::from("bob"),
        },
        0,
    );

    // Alice sends "hello".
    let (wire, shown) = alice.prepare_send("hello", 1_000_000_123).unwrap();
    assert!(!shown.sent);
    assert!(shown.verified);
    let mut alice_ui = vec![ui_entry("alice", &shown)];
    assert_eq!(alice.pending_messages.len(), 1);

    let deliveries = handle_client_message(&mut state, &mut alice_session, wire, 55);

    // The first delivery is the ACK to Alice; it confirms the pending entry.
    match &deliveries[0].message {
        ServerMessage::MessageAck { message_id } => {
            alice.handle_ack(message_id);
            assert!(mark_sent(&mut alice_ui, message_id));
        }
        other => panic!("expected MessageAck, got {:?}", other),
    }
    assert_eq!(alice.pending_messages.len(), 0);
    assert!(alice_ui[0].sent);

    // Every participant, Alice included, gets one MessageReceived.
    assert_eq!(deliveries.len(), 3);
    let (_, bob_cid) = bob_session.current.clone().unwrap();
    let mut bob_got = false;
    for d in &deliveries[1..] {
        let payload = match &d.message {
            ServerMessage::MessageReceived { encrypted_payload, message_id, .. } => {
                // Alice recognizes her own echo by message id alone.
                if alice_ui[0].message_id.as_deref() == Some(message_id.as_str()) {
                    assert!(mark_sent(&mut alice_ui, message_id));
                }
                encrypted_payload.clone()
            }
            other => panic!("expected MessageReceived, got {:?}", other),
        };
        if d.client_id.as_deref() == Some(bob_cid.as_str()) {
            bob_got = true;
            let (payload, verified) = bob.receive_message(&payload).expect("bob decrypts");
            assert!(verified);
            assert_eq!(payload.username, "alice");
            assert_eq!(payload.content, "hello");
            assert_eq!(payload.chain_key_index, 0);
            assert_eq!(payload.sequence_number, 0);
        }
    }
    assert!(bob_got);
    assert_eq!(alice_ui.len(), 1, "the echo must not appear a second time");
}

#[test]
fn out_of_order_delivery_decrypts_both() {
    let mut alice = make_context("alice");
    let mut bob = make_context("bob");

    let (w1, _) = alice.prepare_send("first", 1).unwrap();
    let (w2, _) = alice.prepare_send("second", 2).unwrap();
    let p1 = match w1 {
        ClientMessage::SendMessage { encrypted_payload, .. } => encrypted_payload,
        _ => unreachable!(),
    };
    let p2 = match w2 {
        ClientMessage::SendMessage { encrypted_payload, .. } => encrypted_payload,
        _ => unreachable!(),
    };

    // The relay reorders: Bob sees the second message first.
    let (m2, v2) = bob.receive_message(&p2).expect("second message decrypts");
    assert!(v2);
    assert_eq!(m2.content, "second");
    assert_eq!(m2.chain_key_index, 1);

    let (m1, v1) = bob.receive_message(&p1).expect("first message still decrypts");
    assert!(v1);
    assert_eq!(m1.content, "first");
    assert_eq!(m1.chain_key_index, 0);

    // No key is ever reused: a replay of the first message now fails.
    assert!(bob.receive_message(&p1).is_none());
}

#[test]
fn swapped_public_key_is_surfaced_unverified() {
    let alice = make_context("alice");
    let mut bob = make_context("bob");
    let imposter = IdentityKey::generate();

    // Sign as Alice but embed a different public key before encryption.
    let mut chain = ChainKey::from_root_key(vec![9u8; 32]);
    let subkey = chain.next();
    let sig_input = signing_input(b"hi", 0, 0);
    let signature = alice.identity_key.sign(&sig_input);
    let payload = MessagePayload::new(
        String::from("alice"),
        String::from("hi"),
        0,
        0,
        imposter.public_key_bytes(),
        signature,
        0,
    );
    let encoded = encode_payload(&payload);
    let env = alice.chat_key.encrypt_with_chain(&encoded, &subkey).unwrap();

    // Decrypt succeeds, verification fails, and the message is surfaced.
    let (received, verified) = bob.receive_message(&env).expect("decrypt succeeds");
    assert!(!verified);
    assert_eq!(received.content, "hi");
}

#[test]
fn retry_exhaustion_surfaces_permanent_failure() {
    let mut alice = make_context("alice");
    let (_, shown) = alice.prepare_send("droppy", 0).unwrap();
    let id = shown.message_id.clone().unwrap();
    assert_eq!(alice.pending_messages.len(), 1);

    // Before the deadline, nothing happens.
    let (resend, failed) = alice.retry_tick(1999);
    assert!(resend.is_empty() && failed.is_empty());
    assert_eq!(alice.pending_messages.len(), 1);

    // Three resends at two-second deadlines, the relay drops every ACK.
    let mut clock = 0u64;
    for expected_retry in 1..=3u8 {
        clock += 2000;
        let (resend, failed) = alice.retry_tick(clock);
        assert_eq!(resend.len(), 1, "resend number {}", expected_retry);
        assert!(failed.is_empty());
        assert_eq!(alice.pending_messages[0].retry_count, expected_retry);
        match &resend[0] {
            ClientMessage::SendMessage { message_id, .. } => assert_eq!(message_id, &id),
            other => panic!("expected SendMessage, got {:?}", other),
        }
    }

    // The fourth deadline exhausts the budget: surfaced as failed, dropped.
    clock += 2000;
    let (resend, failed) = alice.retry_tick(clock);
    assert!(resend.is_empty());
    assert_eq!(failed, vec![id]);
    assert!(alice.pending_messages.is_empty());
}

#[test]
fn ack_removes_only_the_acknowledged_entry() {
    let mut alice = make_context("alice");
    let (_, s1) = alice.prepare_send("one", 1).unwrap();
    let (_, s2) = alice.prepare_send("two", 2).unwrap();
    let id1 = s1.message_id.unwrap();
    let id2 = s2.message_id.unwrap();
    assert_ne!(id1, id2);
    alice.handle_ack(&id1);
    assert_eq!(alice.pending_messages.len(), 1);
    assert_eq!(alice.pending_messages[0].message_id, id2);
}

#[test]
fn identical_texts_are_matched_by_id_not_content() {
    let mut alice = make_context("alice");
    let (_, s1) = alice.prepare_send("same text", 1).unwrap();
    let (_, s2) = alice.prepare_send("same text", 2).unwrap();
    let id1 = s1.message_id.clone().unwrap();
    let id2 = s2.message_id.clone().unwrap();
    assert_ne!(id1, id2, "sequence number makes the ids distinct");
    let mut ui = vec![ui_entry("alice", &s1), ui_entry("alice", &s2)];
    assert!(mark_sent(&mut ui, &id2));
    assert!(!ui[0].sent, "the first copy stays unconfirmed");
    assert!(ui[1].sent);
}

#[test]
fn graceful_leave_counts_down_five_seconds() {
    // Bob left at t=100; Alice's context closes at t=105, not before.
    assert!(!auto_close_due(100, 100));
    assert!(!auto_close_due(100, 104));
    assert!(auto_close_due(100, 105));
    assert!(auto_close_due(100, 1000));
}

#[test]
fn destroy_wipes_the_secret_state() {
    let mut ctx = make_context("alice");
    // Seal one message under the live content key.
    let before = ctx.chat_key.encrypt(b"secret").unwrap();
    ctx.prepare_send("x", 1).unwrap();
    assert!(!ctx.pending_messages.is_empty());

    ctx.destroy();

    // The pending queue is gone.
    assert!(ctx.pending_messages.is_empty());
    // The content key now holds zeros: what the wiped key seals, the
    // all-zero key opens, and the pre-wipe ciphertext no longer opens.
    let zero_key = ChatKey::from_key_bytes(vec![0u8; 32]);
    let after = ctx.chat_key.encrypt(b"probe").unwrap();
    assert_eq!(zero_key.decrypt(&after).unwrap(), b"probe");
    assert!(ctx.chat_key.decrypt(&before).is_err());
    // The chain key was reset to the zero chain: it now derives the same
    // subkeys as a chain whose root is all zeros.
    let mut fresh_zero = ChainKey::from_root_key(vec![0u8; 32]);
    assert_eq!(ctx.chain_key.next(), fresh_zero.next());
}

#[test]
fn own_messages_are_recognized() {
    let alice = make_context("alice");
    let payload = rchat_core::messages::MessagePayload::new(
        String::from("alice"),
        String::from("hi"),
        0,
        0,
        vec![0u8; 32],
        vec![0u8; 64],
        0,
    );
    assert!(alice.is_own_message(&payload));
    let other = rchat_core::messages::MessagePayload::new(
        String::from("bob"),
        String::from("hi"),
        0,
        0,
        vec![0u8; 32],
        vec![0u8; 64],
        0,
    );
    assert!(!alice.is_own_message(&other));
}

#[test]
fn pending_message_fields_are_plain_data() {
    let pm = PendingMessage {
        message_id: String::from("m"),
        room_id: String::from("r"),
        encrypted_payload: vec![1, 2],
        sent_at_millis: 5,
        retry_count: 0,
    };
    assert_eq!(pm.message_id, "m");
    assert_eq!(pm.retry_count, 0);
    let mode = AppMode::Welcome;
    assert_eq!(mode, AppMode::Welcome);
    assert_ne!(AppMode::Chat, AppMode::JoinChat);
}
