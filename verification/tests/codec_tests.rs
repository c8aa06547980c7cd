use rchat_core::codec::{
    bits_to_i64, decode_client_message, decode_payload, decode_server_message,
    encode_client_message, encode_payload, encode_server_message, frame_message, i64_to_bits,
    parse_frame_len,
};
use rchat_core::messages::{ChatType, ClientMessage, MessagePayload, ServerMessage};
use rchat_core::text::{bytes_to_hex_string, format_timestamp, u64_to_dec_string, NaiveDateTime};
use rchat_core::MAX_MESSAGE_SIZE;

fn sample_payload() -> MessagePayload {
    MessagePayload::new(
        String::from("alice"),
        String::from("hello"),
        1700000000,
        3,
        vec![1u8; 32],
        vec![2u8; 64],
        7,
    )
}

#[test]
fn client_messages_round_trip() {
    let cases = vec![
        ClientMessage::CreateChat {
            room_id: String::from("room-1"),
            chat_type: ChatType::OneToOne,
            username: String::from("alice"),
        },
        ClientMessage::CreateChat {
            room_id: String::from("room-2"),
            chat_type: ChatType::Group { max_participants: 8 },
            username: String::from("bob"),
        },
        ClientMessage::JoinChat { room_id: String::from("r"), username: String::from("émilie") },
        ClientMessage::SendMessage {
            room_id: String::from("room-1"),
            encrypted_payload: vec![0, 1, 2, 255],
            message_id: String::from("alice-0-99"),
        },
        ClientMessage::LeaveChat { room_id: String::from("room-1") },
    ];
    for m in cases {
        let bytes = encode_client_message(&m);
        let back = decode_client_message(&bytes).unwrap();
        assert_eq!(back, m);
    }
}

#[test]
fn server_messages_round_trip() {
    let cases = vec![
        ServerMessage::ChatCreated {
            room_id: String::from("room-1"),
            chat_type: ChatType::OneToOne,
        },
        ServerMessage::JoinedChat {
            room_id: String::from("room-1"),
            chat_type: ChatType::Group { max_participants: 5 },
            participant_count: 2,
        },
        ServerMessage::MessageReceived {
            room_id: String::from("room-1"),
            encrypted_payload: vec![9, 8, 7],
            timestamp: -5,
            message_id: String::from("m1"),
        },
        ServerMessage::MessageAck { message_id: String::from("m1") },
        ServerMessage::UserJoined { room_id: String::from("r"), username: String::from("bob") },
        ServerMessage::UserLeft { room_id: String::from("r"), username: String::from("bob") },
        ServerMessage::Error { message: String::from("Chat is full") },
    ];
    for m in cases {
        let bytes = encode_server_message(&m);
        let back = decode_server_message(&bytes).unwrap();
        assert_eq!(back, m);
    }
}

#[test]
fn payloads_round_trip() {
    let p = sample_payload();
    let bytes = encode_payload(&p);
    let back = decode_payload(&bytes).unwrap();
    assert_eq!(back, p);
}

#[test]
fn leave_chat_has_the_documented_layout() {
    let m = ClientMessage::LeaveChat { room_id: String::from("ab") };
    let bytes = encode_client_message(&m);
    // tag, then a big-endian 32-bit length, then the UTF-8 bytes
    assert_eq!(bytes, vec![3u8, 0, 0, 0, 2, b'a', b'b']);
}

#[test]
fn ack_has_the_documented_layout() {
    let m = ServerMessage::MessageAck { message_id: String::from("xy") };
    let bytes = encode_server_message(&m);
    assert_eq!(bytes, vec![3u8, 0, 0, 0, 2, b'x', b'y']);
}

#[test]
fn decoder_rejects_malformed_buffers() {
    assert!(decode_client_message(&[]).is_none());
    assert!(decode_client_message(&[99]).is_none());
    // truncated length prefix
    assert!(decode_client_message(&[3u8, 0, 0]).is_none());
    // declared string length exceeds the buffer
    assert!(decode_client_message(&[3u8, 0, 0, 0, 9, b'a']).is_none());
    // trailing garbage after a complete message
    let mut bytes = encode_client_message(&ClientMessage::LeaveChat {
        room_id: String::from("ab"),
    });
    bytes.push(0);
    assert!(decode_client_message(&bytes).is_none());
    // invalid UTF-8 in a string field
    assert!(decode_client_message(&[3u8, 0, 0, 0, 1, 0xFF]).is_none());
}

#[test]
fn i64_bits_round_trip_including_negatives() {
    for x in [0i64, 1, -1, 42, -42, i64::MAX, i64::MIN, 1700000000] {
        assert_eq!(bits_to_i64(i64_to_bits(x)), x);
    }
    assert_eq!(i64_to_bits(-1), u64::MAX);
    assert_eq!(i64_to_bits(0), 0);
}

#[test]
fn framing_enforces_the_size_window() {
    assert!(frame_message(&[]).is_none());
    assert!(frame_message(&vec![0u8; MAX_MESSAGE_SIZE + 1]).is_none());
    let framed = frame_message(&[1, 2, 3]).unwrap();
    assert_eq!(framed, vec![0u8, 0, 0, 3, 1, 2, 3]);
    assert_eq!(parse_frame_len(&framed[0..4]), Some(3));
    assert_eq!(parse_frame_len(&[0, 0, 0, 0]), None);
    assert_eq!(parse_frame_len(&[0xFF, 0xFF, 0xFF, 0xFF]), None);
    assert_eq!(parse_frame_len(&[0, 16, 0, 0]), Some(1048576));
}

#[test]
fn decimal_rendering_is_exact() {
    assert_eq!(u64_to_dec_string(0), "0");
    assert_eq!(u64_to_dec_string(42), "42");
    assert_eq!(u64_to_dec_string(999999), "999999");
    assert_eq!(u64_to_dec_string(u64::MAX), "18446744073709551615");
}

#[test]
fn hex_rendering_is_exact() {
    assert_eq!(bytes_to_hex_string(&[]), "");
    assert_eq!(bytes_to_hex_string(&[0x00, 0xFF, 0x1a]), "00ff1a");
}

#[test]
fn timestamps_render_as_clock_faces() {
    assert_eq!(format_timestamp(0), "00:00");
    assert_eq!(format_timestamp(3661), "01:01");
    assert_eq!(format_timestamp(86399), "23:59");
    let dt = NaiveDateTime::from_timestamp_opt(3661, 0).unwrap();
    assert_eq!(dt.format("%H:%M").render(), "01:01");
}
