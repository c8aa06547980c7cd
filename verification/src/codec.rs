//! The deterministic wire codec and framing.
//!
//! Every frame on the transport is a big-endian 32-bit length followed by
//! that many bytes; a frame of length zero or above `MAX_MESSAGE_SIZE`
//! terminates the session.  The frame body is a tagged encoding of one
//! message: one tag byte, then the fields in order, strings and byte
//! strings as a big-endian 32-bit length plus the bytes, integers in 8
//! little-endian bytes.  Decoding accepts exactly the canonical encodings
//! (`lemma_client_message_round_trip` and its siblings).

use vstd::prelude::*;
use vstd::bytes::{
    lemma_auto_spec_u64_to_from_le_bytes, spec_u64_from_le_bytes, spec_u64_to_le_bytes,
    u64_from_le_bytes, u64_to_le_bytes,
};
use vstd::string::StringSliceAdditionalSpecFns;
use vstd::utf8::{decode_utf8, encode_utf8, valid_utf8};
use crate::messages::{
    ChatType, ClientMessage, ClientMessageView, MessagePayload, MessagePayloadView, ServerMessage,
    ServerMessageView,
};
use crate::primitives::bytes_to_string;

verus! {

/// Upper bound on one encoded field, comfortably above the frame cap and
/// comfortably below every machine limit.
pub const MAX_FIELD_LEN: usize = 0x1000000;

// ----- big-endian 32-bit lengths -----

/// A `u32` as 4 big-endian bytes.
pub open spec fn spec_u32_to_be_bytes(x: u32) -> Seq<u8> {
    seq![
        ((x >> 24) & 0xff) as u8,
        ((x >> 16) & 0xff) as u8,
        ((x >> 8) & 0xff) as u8,
        (x & 0xff) as u8,
    ]
}

/// The `u32` of 4 big-endian bytes.
pub open spec fn spec_u32_from_be_bytes(s: Seq<u8>) -> u32
    recommends
        s.len() == 4,
{
    (((s[0] as u32) << 24) | ((s[1] as u32) << 16) | ((s[2] as u32) << 8) | (s[3] as u32)) as u32
}

/// Reading back the big-endian bytes of a `u32` yields the same value.
pub proof fn lemma_u32_be_round_trip(x: u32)
    ensures
        spec_u32_to_be_bytes(x).len() == 4,
        spec_u32_from_be_bytes(spec_u32_to_be_bytes(x)) == x,
{
    let b0 = ((x >> 24) & 0xff) as u8;
    let b1 = ((x >> 16) & 0xff) as u8;
    let b2 = ((x >> 8) & 0xff) as u8;
    let b3 = (x & 0xff) as u8;
    assert((((b0 as u32) << 24) | ((b1 as u32) << 16) | ((b2 as u32) << 8) | (b3 as u32)) as u32
        == x) by (bit_vector)
        requires
            b0 == ((x >> 24) & 0xff) as u8,
            b1 == ((x >> 16) & 0xff) as u8,
            b2 == ((x >> 8) & 0xff) as u8,
            b3 == (x & 0xff) as u8,
    ;
}

/// Appends a `u32` in big-endian order.
pub fn push_u32_be(out: &mut Vec<u8>, x: u32)
    ensures
        final(out)@ == old(out)@ + spec_u32_to_be_bytes(x),
{
    out.push(((x >> 24) & 0xff) as u8);
    out.push(((x >> 16) & 0xff) as u8);
    out.push(((x >> 8) & 0xff) as u8);
    out.push((x & 0xff) as u8);
    proof {
        assert(out@ =~= old(out)@ + spec_u32_to_be_bytes(x));
    }
}

/// Reads a big-endian `u32` from 4 bytes.
pub fn u32_from_be_slice(s: &[u8]) -> (r: u32)
    requires
        s@.len() == 4,
    ensures
        r == spec_u32_from_be_bytes(s@),
{
    let b0 = s[0];
    let b1 = s[1];
    let b2 = s[2];
    let b3 = s[3];
    ((b0 as u32) << 24) | ((b1 as u32) << 16) | ((b2 as u32) << 8) | (b3 as u32)
}

// ----- two's-complement bits of an i64 -----

/// The unsigned two's-complement bits of an `i64`.
pub open spec fn spec_i64_bits(x: i64) -> u64 {
    if x >= 0 {
        x as u64
    } else {
        (x + 0x10000000000000000) as u64
    }
}

/// The `i64` whose two's-complement bits the `u64` holds.
pub open spec fn spec_i64_of_bits(u: u64) -> i64 {
    if u < 0x8000000000000000 {
        u as i64
    } else {
        (u - 0x10000000000000000) as i64
    }
}

/// Bits-of and of-bits invert each other.
pub proof fn lemma_i64_bits_round_trip(x: i64)
    ensures
        spec_i64_of_bits(spec_i64_bits(x)) == x,
{
}

/// The two's-complement bits of an `i64`, computed without overflow.
pub fn i64_to_bits(x: i64) -> (r: u64)
    ensures
        r == spec_i64_bits(x),
{
    if x >= 0 {
        x as u64
    } else {
        let m = (-(x + 1)) as u64;
        u64::MAX - m
    }
}

/// The `i64` of two's-complement bits, computed without overflow.
pub fn bits_to_i64(u: u64) -> (r: i64)
    ensures
        r == spec_i64_of_bits(u),
{
    if u < 0x8000000000000000 {
        u as i64
    } else {
        let m = u64::MAX - u;
        -(m as i64) - 1
    }
}

// ----- encoded pieces -----

/// A byte string on the wire: its big-endian 32-bit length, then the bytes.
pub open spec fn spec_enc_bytes(b: Seq<u8>) -> Seq<u8> {
    spec_u32_to_be_bytes(b.len() as u32) + b
}

/// A string on the wire: its UTF-8 bytes as a byte string.
pub open spec fn spec_enc_str(s: Seq<char>) -> Seq<u8> {
    spec_enc_bytes(encode_utf8(s))
}

/// An `i64` on the wire: its two's-complement bits in little-endian order.
pub open spec fn spec_enc_i64(x: i64) -> Seq<u8> {
    spec_u64_to_le_bytes(spec_i64_bits(x))
}

/// A room kind on the wire: a tag byte, and a group's cap in 8 bytes.
pub open spec fn spec_enc_chat_type(t: ChatType) -> Seq<u8> {
    match t {
        ChatType::OneToOne => seq![0u8],
        ChatType::Group { max_participants } => seq![1u8] + spec_u64_to_le_bytes(
            max_participants as u64,
        ),
    }
}

/// What reading a `u64` at `pos` yields: the value and the next position.
pub open spec fn spec_dec_u64(buf: Seq<u8>, pos: int) -> Option<(u64, int)> {
    if pos + 8 > buf.len() {
        None
    } else {
        Some((spec_u64_from_le_bytes(buf.subrange(pos, pos + 8)), pos + 8))
    }
}

/// What reading a byte string at `pos` yields.
pub open spec fn spec_dec_bytes(buf: Seq<u8>, pos: int) -> Option<(Seq<u8>, int)> {
    if pos + 4 > buf.len() {
        None
    } else {
        let n = spec_u32_from_be_bytes(buf.subrange(pos, pos + 4)) as int;
        if pos + 4 + n > buf.len() {
            None
        } else {
            Some((buf.subrange(pos + 4, pos + 4 + n), pos + 4 + n))
        }
    }
}

/// What reading a string at `pos` yields: a byte string that must be
/// valid UTF-8.
pub open spec fn spec_dec_str(buf: Seq<u8>, pos: int) -> Option<(Seq<char>, int)> {
    match spec_dec_bytes(buf, pos) {
        Some((b, p)) => if valid_utf8(b) {
            Some((decode_utf8(b), p))
        } else {
            None
        },
        None => None,
    }
}

/// What reading a room kind at `pos` yields.
pub open spec fn spec_dec_chat_type(buf: Seq<u8>, pos: int) -> Option<(ChatType, int)> {
    if pos + 1 > buf.len() {
        None
    } else if buf[pos] == 0u8 {
        Some((ChatType::OneToOne, pos + 1))
    } else if buf[pos] == 1u8 {
        match spec_dec_u64(buf, pos + 1) {
            Some((v, p)) => if v <= usize::MAX as u64 {
                Some((ChatType::Group { max_participants: v as usize }, p))
            } else {
                None
            },
            None => None,
        }
    } else {
        None
    }
}

// ----- piece decoders -----

/// Reads a little-endian `u64`.
fn dec_u64(buf: &[u8], pos: usize) -> (r: Option<(u64, usize)>)
    ensures
        r matches Some(t) ==> spec_dec_u64(buf@, pos as int) == Some((t.0, t.1 as int)),
        r is None ==> spec_dec_u64(buf@, pos as int) is None,
{
    if pos > buf.len() || buf.len() - pos < 8 {
        return None;
    }
    let bytes = vstd::slice::slice_subrange(buf, pos, pos + 8);
    let x = u64_from_le_bytes(bytes);
    Some((x, pos + 8))
}

/// Reads a length-prefixed byte string.
fn dec_bytes(buf: &[u8], pos: usize) -> (r: Option<(Vec<u8>, usize)>)
    ensures
        r matches Some(t) ==> spec_dec_bytes(buf@, pos as int) == Some((t.0@, t.1 as int)),
        r is None ==> spec_dec_bytes(buf@, pos as int) is None,
{
    if pos > buf.len() || buf.len() - pos < 4 {
        return None;
    }
    let header = vstd::slice::slice_subrange(buf, pos, pos + 4);
    let n = u32_from_be_slice(header) as usize;
    if n > buf.len() - pos - 4 {
        return None;
    }
    let body = vstd::slice::slice_subrange(buf, pos + 4, pos + 4 + n);
    Some((vstd::slice::slice_to_vec(body), pos + 4 + n))
}

/// Reads a length-prefixed string; the bytes must be valid UTF-8.
fn dec_str(buf: &[u8], pos: usize) -> (r: Option<(String, usize)>)
    ensures
        r matches Some(t) ==> spec_dec_str(buf@, pos as int) == Some((t.0@, t.1 as int)),
        r is None ==> spec_dec_str(buf@, pos as int) is None,
{
    match dec_bytes(buf, pos) {
        Some((b, p)) => match bytes_to_string(b) {
            Some(s) => Some((s, p)),
            None => None,
        },
        None => None,
    }
}

/// Reads a room kind.
fn dec_chat_type(buf: &[u8], pos: usize) -> (r: Option<(ChatType, usize)>)
    ensures
        r matches Some(t) ==> spec_dec_chat_type(buf@, pos as int) == Some((t.0, t.1 as int)),
        r is None ==> spec_dec_chat_type(buf@, pos as int) is None,
{
    if pos >= buf.len() {
        return None;
    }
    let tag = buf[pos];
    if tag == 0 {
        Some((ChatType::OneToOne, pos + 1))
    } else if tag == 1 {
        match dec_u64(buf, pos + 1) {
            Some((v, p)) => {
                if v <= usize::MAX as u64 {
                    Some((ChatType::Group { max_participants: v as usize }, p))
                } else {
                    None
                }
            },
            None => None,
        }
    } else {
        None
    }
}

// ----- piece encoders -----

/// Appends a length-prefixed byte string.
fn enc_bytes(out: &mut Vec<u8>, b: &[u8])
    requires
        b@.len() <= MAX_FIELD_LEN,
    ensures
        final(out)@ == old(out)@ + spec_enc_bytes(b@),
{
    push_u32_be(out, b.len() as u32);
    out.extend_from_slice(b);
    proof {
        assert(out@ =~= old(out)@ + spec_enc_bytes(b@));
    }
}

/// Appends a length-prefixed string.
fn enc_str(out: &mut Vec<u8>, s: &str)
    requires
        s.spec_bytes().len() <= MAX_FIELD_LEN,
    ensures
        final(out)@ == old(out)@ + spec_enc_str(s@),
{
    enc_bytes(out, s.as_bytes());
}

/// Appends a little-endian `u64`.
fn enc_u64(out: &mut Vec<u8>, x: u64)
    ensures
        final(out)@ == old(out)@ + spec_u64_to_le_bytes(x),
{
    let bytes = u64_to_le_bytes(x);
    out.extend_from_slice(bytes.as_slice());
}

/// Appends an `i64` as its little-endian two's-complement bits.
fn enc_i64(out: &mut Vec<u8>, x: i64)
    ensures
        final(out)@ == old(out)@ + spec_enc_i64(x),
{
    enc_u64(out, i64_to_bits(x));
}

/// Appends a room kind.
fn enc_chat_type(out: &mut Vec<u8>, t: &ChatType)
    ensures
        final(out)@ == old(out)@ + spec_enc_chat_type(*t),
{
    match t {
        ChatType::OneToOne => {
            out.push(0u8);
            proof {
                assert(out@ =~= old(out)@ + spec_enc_chat_type(*t));
            }
        },
        ChatType::Group { max_participants } => {
            out.push(1u8);
            enc_u64(out, *max_participants as u64);
            proof {
                assert(out@ =~= old(out)@ + spec_enc_chat_type(*t));
            }
        },
    }
}

} // verus!

verus! {

// ----- whole messages -----

/// A string small enough to encode.
pub open spec fn spec_str_fits(s: Seq<char>) -> bool {
    encode_utf8(s).len() <= MAX_FIELD_LEN
}

/// A byte string small enough to encode.
pub open spec fn spec_bytes_fits(b: Seq<u8>) -> bool {
    b.len() <= MAX_FIELD_LEN
}

/// Every field of a client message is small enough to encode.
pub open spec fn spec_client_msg_fits(m: ClientMessageView) -> bool {
    match m {
        ClientMessageView::CreateChat { room_id, chat_type, username } => spec_str_fits(room_id)
            && spec_str_fits(username),
        ClientMessageView::JoinChat { room_id, username } => spec_str_fits(room_id)
            && spec_str_fits(username),
        ClientMessageView::SendMessage { room_id, encrypted_payload, message_id } => spec_str_fits(
            room_id,
        ) && spec_bytes_fits(encrypted_payload) && spec_str_fits(message_id),
        ClientMessageView::LeaveChat { room_id } => spec_str_fits(room_id),
    }
}

/// Every field of a server message is small enough to encode.
pub open spec fn spec_server_msg_fits(m: ServerMessageView) -> bool {
    match m {
        ServerMessageView::ChatCreated { room_id, chat_type } => spec_str_fits(room_id),
        ServerMessageView::JoinedChat { room_id, chat_type, participant_count } => spec_str_fits(
            room_id,
        ),
        ServerMessageView::MessageReceived { room_id, encrypted_payload, timestamp, message_id } =>
            spec_str_fits(room_id) && spec_bytes_fits(encrypted_payload) && spec_str_fits(
            message_id,
        ),
        ServerMessageView::MessageAck { message_id } => spec_str_fits(message_id),
        ServerMessageView::UserJoined { room_id, username } => spec_str_fits(room_id)
            && spec_str_fits(username),
        ServerMessageView::UserLeft { room_id, username } => spec_str_fits(room_id)
            && spec_str_fits(username),
        ServerMessageView::Error { message } => spec_str_fits(message),
    }
}

/// Every field of a payload is small enough to encode.
pub open spec fn spec_payload_fits(p: MessagePayloadView) -> bool {
    spec_str_fits(p.username) && spec_str_fits(p.content) && spec_bytes_fits(p.sender_public_key)
        && spec_bytes_fits(p.signature)
}

/// The encoding of a client message: a tag byte, then the fields in order.
pub open spec fn spec_enc_client(m: ClientMessageView) -> Seq<u8> {
    match m {
        ClientMessageView::CreateChat { room_id, chat_type, username } => seq![0u8] + spec_enc_str(
            room_id,
        ) + spec_enc_chat_type(chat_type) + spec_enc_str(username),
        ClientMessageView::JoinChat { room_id, username } => seq![1u8] + spec_enc_str(room_id)
            + spec_enc_str(username),
        ClientMessageView::SendMessage { room_id, encrypted_payload, message_id } => seq![2u8]
            + spec_enc_str(room_id) + spec_enc_bytes(encrypted_payload) + spec_enc_str(message_id),
        ClientMessageView::LeaveChat { room_id } => seq![3u8] + spec_enc_str(room_id),
    }
}

/// The encoding of a server message: a tag byte, then the fields in order.
pub open spec fn spec_enc_server(m: ServerMessageView) -> Seq<u8> {
    match m {
        ServerMessageView::ChatCreated { room_id, chat_type } => seq![0u8] + spec_enc_str(room_id)
            + spec_enc_chat_type(chat_type),
        ServerMessageView::JoinedChat { room_id, chat_type, participant_count } => seq![1u8]
            + spec_enc_str(room_id) + spec_enc_chat_type(chat_type) + spec_u64_to_le_bytes(
            participant_count as u64,
        ),
        ServerMessageView::MessageReceived { room_id, encrypted_payload, timestamp, message_id } =>
            seq![2u8] + spec_enc_str(room_id) + spec_enc_bytes(encrypted_payload) + spec_enc_i64(
            timestamp,
        ) + spec_enc_str(message_id),
        ServerMessageView::MessageAck { message_id } => seq![3u8] + spec_enc_str(message_id),
        ServerMessageView::UserJoined { room_id, username } => seq![4u8] + spec_enc_str(room_id)
            + spec_enc_str(username),
        ServerMessageView::UserLeft { room_id, username } => seq![5u8] + spec_enc_str(room_id)
            + spec_enc_str(username),
        ServerMessageView::Error { message } => seq![6u8] + spec_enc_str(message),
    }
}

/// The encoding of a message payload: the fields in order, no tag.
pub open spec fn spec_enc_payload(p: MessagePayloadView) -> Seq<u8> {
    spec_enc_str(p.username) + spec_enc_str(p.content) + spec_enc_i64(p.timestamp)
        + spec_u64_to_le_bytes(p.sequence_number) + spec_enc_bytes(p.sender_public_key)
        + spec_enc_bytes(p.signature) + spec_u64_to_le_bytes(p.chain_key_index)
}

/// What decoding a client message yields: the canonical parse, which must
/// consume the whole buffer.
pub open spec fn spec_dec_client(buf: Seq<u8>) -> Option<ClientMessageView> {
    if buf.len() < 1 {
        None
    } else if buf[0] == 0u8 {
        match spec_dec_str(buf, 1) {
            Some((room_id, p1)) => match spec_dec_chat_type(buf, p1) {
                Some((chat_type, p2)) => match spec_dec_str(buf, p2) {
                    Some((username, p3)) => if p3 == buf.len() {
                        Some(ClientMessageView::CreateChat { room_id, chat_type, username })
                    } else {
                        None
                    },
                    None => None,
                },
                None => None,
            },
            None => None,
        }
    } else if buf[0] == 1u8 {
        match spec_dec_str(buf, 1) {
            Some((room_id, p1)) => match spec_dec_str(buf, p1) {
                Some((username, p2)) => if p2 == buf.len() {
                    Some(ClientMessageView::JoinChat { room_id, username })
                } else {
                    None
                },
                None => None,
            },
            None => None,
        }
    } else if buf[0] == 2u8 {
        match spec_dec_str(buf, 1) {
            Some((room_id, p1)) => match spec_dec_bytes(buf, p1) {
                Some((encrypted_payload, p2)) => match spec_dec_str(buf, p2) {
                    Some((message_id, p3)) => if p3 == buf.len() {
                        Some(ClientMessageView::SendMessage {
                            room_id,
                            encrypted_payload,
                            message_id,
                        })
                    } else {
                        None
                    },
                    None => None,
                },
                None => None,
            },
            None => None,
        }
    } else if buf[0] == 3u8 {
        match spec_dec_str(buf, 1) {
            Some((room_id, p1)) => if p1 == buf.len() {
                Some(ClientMessageView::LeaveChat { room_id })
            } else {
                None
            },
            None => None,
        }
    } else {
        None
    }
}

/// What decoding a server message yields.
pub open spec fn spec_dec_server(buf: Seq<u8>) -> Option<ServerMessageView> {
    if buf.len() < 1 {
        None
    } else if buf[0] == 0u8 {
        match spec_dec_str(buf, 1) {
            Some((room_id, p1)) => match spec_dec_chat_type(buf, p1) {
                Some((chat_type, p2)) => if p2 == buf.len() {
                    Some(ServerMessageView::ChatCreated { room_id, chat_type })
                } else {
                    None
                },
                None => None,
            },
            None => None,
        }
    } else if buf[0] == 1u8 {
        match spec_dec_str(buf, 1) {
            Some((room_id, p1)) => match spec_dec_chat_type(buf, p1) {
                Some((chat_type, p2)) => match spec_dec_u64(buf, p2) {
                    Some((count, p3)) => if p3 == buf.len() && count <= usize::MAX as u64 {
                        Some(ServerMessageView::JoinedChat {
                            room_id,
                            chat_type,
                            participant_count: count as usize,
                        })
                    } else {
                        None
                    },
                    None => None,
                },
                None => None,
            },
            None => None,
        }
    } else if buf[0] == 2u8 {
        match spec_dec_str(buf, 1) {
            Some((room_id, p1)) => match spec_dec_bytes(buf, p1) {
                Some((encrypted_payload, p2)) => match spec_dec_u64(buf, p2) {
                    Some((ts, p3)) => match spec_dec_str(buf, p3) {
                        Some((message_id, p4)) => if p4 == buf.len() {
                            Some(ServerMessageView::MessageReceived {
                                room_id,
                                encrypted_payload,
                                timestamp: spec_i64_of_bits(ts),
                                message_id,
                            })
                        } else {
                            None
                        },
                        None => None,
                    },
                    None => None,
                },
                None => None,
            },
            None => None,
        }
    } else if buf[0] == 3u8 {
        match spec_dec_str(buf, 1) {
            Some((message_id, p1)) => if p1 == buf.len() {
                Some(ServerMessageView::MessageAck { message_id })
            } else {
                None
            },
            None => None,
        }
    } else if buf[0] == 4u8 {
        match spec_dec_str(buf, 1) {
            Some((room_id, p1)) => match spec_dec_str(buf, p1) {
                Some((username, p2)) => if p2 == buf.len() {
                    Some(ServerMessageView::UserJoined { room_id, username })
                } else {
                    None
                },
                None => None,
            },
            None => None,
        }
    } else if buf[0] == 5u8 {
        match spec_dec_str(buf, 1) {
            Some((room_id, p1)) => match spec_dec_str(buf, p1) {
                Some((username, p2)) => if p2 == buf.len() {
                    Some(ServerMessageView::UserLeft { room_id, username })
                } else {
                    None
                },
                None => None,
            },
            None => None,
        }
    } else if buf[0] == 6u8 {
        match spec_dec_str(buf, 1) {
            Some((message, p1)) => if p1 == buf.len() {
                Some(ServerMessageView::Error { message })
            } else {
                None
            },
            None => None,
        }
    } else {
        None
    }
}

/// What decoding a payload yields.
pub open spec fn spec_dec_payload(buf: Seq<u8>) -> Option<MessagePayloadView> {
    match spec_dec_str(buf, 0) {
        Some((username, p1)) => match spec_dec_str(buf, p1) {
            Some((content, p2)) => match spec_dec_u64(buf, p2) {
                Some((ts, p3)) => match spec_dec_u64(buf, p3) {
                    Some((sequence_number, p4)) => match spec_dec_bytes(buf, p4) {
                        Some((sender_public_key, p5)) => match spec_dec_bytes(buf, p5) {
                            Some((signature, p6)) => match spec_dec_u64(buf, p6) {
                                Some((chain_key_index, p7)) => if p7 == buf.len() {
                                    Some(MessagePayloadView {
                                        username,
                                        content,
                                        timestamp: spec_i64_of_bits(ts),
                                        sequence_number,
                                        sender_public_key,
                                        signature,
                                        chain_key_index,
                                    })
                                } else {
                                    None
                                },
                                None => None,
                            },
                            None => None,
                        },
                        None => None,
                    },
                    None => None,
                },
                None => None,
            },
            None => None,
        },
        None => None,
    }
}

/// Encodes a client message canonically.
pub fn encode_client_message(m: &ClientMessage) -> (r: Vec<u8>)
    requires
        spec_client_msg_fits(m@),
    ensures
        r@ == spec_enc_client(m@),
{
    let mut out: Vec<u8> = Vec::new();
    match m {
        ClientMessage::CreateChat { room_id, chat_type, username } => {
            out.push(0u8);
            enc_str(&mut out, room_id.as_str());
            enc_chat_type(&mut out, chat_type);
            enc_str(&mut out, username.as_str());
        },
        ClientMessage::JoinChat { room_id, username } => {
            out.push(1u8);
            enc_str(&mut out, room_id.as_str());
            enc_str(&mut out, username.as_str());
        },
        ClientMessage::SendMessage { room_id, encrypted_payload, message_id } => {
            out.push(2u8);
            enc_str(&mut out, room_id.as_str());
            enc_bytes(&mut out, encrypted_payload.as_slice());
            enc_str(&mut out, message_id.as_str());
        },
        ClientMessage::LeaveChat { room_id } => {
            out.push(3u8);
            enc_str(&mut out, room_id.as_str());
        },
    }
    proof {
        assert(out@ =~= spec_enc_client(m@));
    }
    out
}

/// Encodes a server message canonically.
pub fn encode_server_message(m: &ServerMessage) -> (r: Vec<u8>)
    requires
        spec_server_msg_fits(m@),
    ensures
        r@ == spec_enc_server(m@),
{
    let mut out: Vec<u8> = Vec::new();
    match m {
        ServerMessage::ChatCreated { room_id, chat_type } => {
            out.push(0u8);
            enc_str(&mut out, room_id.as_str());
            enc_chat_type(&mut out, chat_type);
        },
        ServerMessage::JoinedChat { room_id, chat_type, participant_count } => {
            out.push(1u8);
            enc_str(&mut out, room_id.as_str());
            enc_chat_type(&mut out, chat_type);
            enc_u64(&mut out, *participant_count as u64);
        },
        ServerMessage::MessageReceived { room_id, encrypted_payload, timestamp, message_id } => {
            out.push(2u8);
            enc_str(&mut out, room_id.as_str());
            enc_bytes(&mut out, encrypted_payload.as_slice());
            enc_i64(&mut out, *timestamp);
            enc_str(&mut out, message_id.as_str());
        },
        ServerMessage::MessageAck { message_id } => {
            out.push(3u8);
            enc_str(&mut out, message_id.as_str());
        },
        ServerMessage::UserJoined { room_id, username } => {
            out.push(4u8);
            enc_str(&mut out, room_id.as_str());
            enc_str(&mut out, username.as_str());
        },
        ServerMessage::UserLeft { room_id, username } => {
            out.push(5u8);
            enc_str(&mut out, room_id.as_str());
            enc_str(&mut out, username.as_str());
        },
        ServerMessage::Error { message } => {
            out.push(6u8);
            enc_str(&mut out, message.as_str());
        },
    }
    proof {
        assert(out@ =~= spec_enc_server(m@));
    }
    out
}

/// Encodes a payload canonically.
pub fn encode_payload(p: &MessagePayload) -> (r: Vec<u8>)
    requires
        spec_payload_fits(p@),
    ensures
        r@ == spec_enc_payload(p@),
{
    let mut out: Vec<u8> = Vec::new();
    enc_str(&mut out, p.username.as_str());
    enc_str(&mut out, p.content.as_str());
    enc_i64(&mut out, p.timestamp);
    enc_u64(&mut out, p.sequence_number);
    enc_bytes(&mut out, p.sender_public_key.as_slice());
    enc_bytes(&mut out, p.signature.as_slice());
    enc_u64(&mut out, p.chain_key_index);
    proof {
        assert(out@ =~= spec_enc_payload(p@));
    }
    out
}

/// Decodes a client message; exactly the canonical encodings are accepted.
pub fn decode_client_message(buf: &[u8]) -> (r: Option<ClientMessage>)
    ensures
        r matches Some(m) ==> spec_dec_client(buf@) == Some(m@),
        r is None ==> spec_dec_client(buf@) is None,
{
    if buf.len() < 1 {
        return None;
    }
    let tag = buf[0];
    if tag == 0 {
        let (room_id, p1) = match dec_str(buf, 1) {
            Some(t) => t,
            None => { return None },
        };
        let (chat_type, p2) = match dec_chat_type(buf, p1) {
            Some(t) => t,
            None => { return None },
        };
        let (username, p3) = match dec_str(buf, p2) {
            Some(t) => t,
            None => { return None },
        };
        if p3 != buf.len() {
            return None;
        }
        Some(ClientMessage::CreateChat { room_id, chat_type, username })
    } else if tag == 1 {
        let (room_id, p1) = match dec_str(buf, 1) {
            Some(t) => t,
            None => { return None },
        };
        let (username, p2) = match dec_str(buf, p1) {
            Some(t) => t,
            None => { return None },
        };
        if p2 != buf.len() {
            return None;
        }
        Some(ClientMessage::JoinChat { room_id, username })
    } else if tag == 2 {
        let (room_id, p1) = match dec_str(buf, 1) {
            Some(t) => t,
            None => { return None },
        };
        let (encrypted_payload, p2) = match dec_bytes(buf, p1) {
            Some(t) => t,
            None => { return None },
        };
        let (message_id, p3) = match dec_str(buf, p2) {
            Some(t) => t,
            None => { return None },
        };
        if p3 != buf.len() {
            return None;
        }
        Some(ClientMessage::SendMessage { room_id, encrypted_payload, message_id })
    } else if tag == 3 {
        let (room_id, p1) = match dec_str(buf, 1) {
            Some(t) => t,
            None => { return None },
        };
        if p1 != buf.len() {
            return None;
        }
        Some(ClientMessage::LeaveChat { room_id })
    } else {
        None
    }
}

/// Decodes a server message; exactly the canonical encodings are accepted.
pub fn decode_server_message(buf: &[u8]) -> (r: Option<ServerMessage>)
    ensures
        r matches Some(m) ==> spec_dec_server(buf@) == Some(m@),
        r is None ==> spec_dec_server(buf@) is None,
{
    if buf.len() < 1 {
        return None;
    }
    let tag = buf[0];
    if tag == 0 {
        let (room_id, p1) = match dec_str(buf, 1) {
            Some(t) => t,
            None => { return None },
        };
        let (chat_type, p2) = match dec_chat_type(buf, p1) {
            Some(t) => t,
            None => { return None },
        };
        if p2 != buf.len() {
            return None;
        }
        Some(ServerMessage::ChatCreated { room_id, chat_type })
    } else if tag == 1 {
        let (room_id, p1) = match dec_str(buf, 1) {
            Some(t) => t,
            None => { return None },
        };
        let (chat_type, p2) = match dec_chat_type(buf, p1) {
            Some(t) => t,
            None => { return None },
        };
        let (count, p3) = match dec_u64(buf, p2) {
            Some(t) => t,
            None => { return None },
        };
        if p3 != buf.len() || count > usize::MAX as u64 {
            return None;
        }
        Some(ServerMessage::JoinedChat {
            room_id,
            chat_type,
            participant_count: count as usize,
        })
    } else if tag == 2 {
        let (room_id, p1) = match dec_str(buf, 1) {
            Some(t) => t,
            None => { return None },
        };
        let (encrypted_payload, p2) = match dec_bytes(buf, p1) {
            Some(t) => t,
            None => { return None },
        };
        let (ts, p3) = match dec_u64(buf, p2) {
            Some(t) => t,
            None => { return None },
        };
        let (message_id, p4) = match dec_str(buf, p3) {
            Some(t) => t,
            None => { return None },
        };
        if p4 != buf.len() {
            return None;
        }
        Some(ServerMessage::MessageReceived {
            room_id,
            encrypted_payload,
            timestamp: bits_to_i64(ts),
            message_id,
        })
    } else if tag == 3 {
        let (message_id, p1) = match dec_str(buf, 1) {
            Some(t) => t,
            None => { return None },
        };
        if p1 != buf.len() {
            return None;
        }
        Some(ServerMessage::MessageAck { message_id })
    } else if tag == 4 {
        let (room_id, p1) = match dec_str(buf, 1) {
            Some(t) => t,
            None => { return None },
        };
        let (username, p2) = match dec_str(buf, p1) {
            Some(t) => t,
            None => { return None },
        };
        if p2 != buf.len() {
            return None;
        }
        Some(ServerMessage::UserJoined { room_id, username })
    } else if tag == 5 {
        let (room_id, p1) = match dec_str(buf, 1) {
            Some(t) => t,
            None => { return None },
        };
        let (username, p2) = match dec_str(buf, p1) {
            Some(t) => t,
            None => { return None },
        };
        if p2 != buf.len() {
            return None;
        }
        Some(ServerMessage::UserLeft { room_id, username })
    } else if tag == 6 {
        let (message, p1) = match dec_str(buf, 1) {
            Some(t) => t,
            None => { return None },
        };
        if p1 != buf.len() {
            return None;
        }
        Some(ServerMessage::Error { message })
    } else {
        None
    }
}

/// Decodes a payload; exactly the canonical encodings are accepted.
pub fn decode_payload(buf: &[u8]) -> (r: Option<MessagePayload>)
    ensures
        r matches Some(p) ==> spec_dec_payload(buf@) == Some(p@),
        r is None ==> spec_dec_payload(buf@) is None,
{
    let (username, p1) = match dec_str(buf, 0) {
        Some(t) => t,
        None => { return None },
    };
    let (content, p2) = match dec_str(buf, p1) {
        Some(t) => t,
        None => { return None },
    };
    let (ts, p3) = match dec_u64(buf, p2) {
        Some(t) => t,
        None => { return None },
    };
    let (sequence_number, p4) = match dec_u64(buf, p3) {
        Some(t) => t,
        None => { return None },
    };
    let (sender_public_key, p5) = match dec_bytes(buf, p4) {
        Some(t) => t,
        None => { return None },
    };
    let (signature, p6) = match dec_bytes(buf, p5) {
        Some(t) => t,
        None => { return None },
    };
    let (chain_key_index, p7) = match dec_u64(buf, p6) {
        Some(t) => t,
        None => { return None },
    };
    if p7 != buf.len() {
        return None;
    }
    Some(MessagePayload {
        username,
        content,
        timestamp: bits_to_i64(ts),
        sequence_number,
        sender_public_key,
        signature,
        chain_key_index,
    })
}

} // verus!

verus! {

// ----- decoding where an encoded piece sits -----

/// Reading a `u64` where one was encoded yields it back.
pub proof fn lemma_dec_u64_piece(buf: Seq<u8>, pos: int, x: u64)
    requires
        0 <= pos,
        pos + 8 <= buf.len(),
        buf.subrange(pos, pos + 8) == spec_u64_to_le_bytes(x),
    ensures
        spec_dec_u64(buf, pos) == Some((x, pos + 8)),
{
    lemma_auto_spec_u64_to_from_le_bytes();
}

/// Reading a byte string where one was encoded yields it back.
pub proof fn lemma_dec_bytes_piece(buf: Seq<u8>, pos: int, b: Seq<u8>)
    requires
        0 <= pos,
        b.len() <= 0xFFFFFFFF,
        pos + spec_enc_bytes(b).len() <= buf.len(),
        buf.subrange(pos, pos + spec_enc_bytes(b).len() as int) == spec_enc_bytes(b),
    ensures
        spec_enc_bytes(b).len() == 4 + b.len(),
        spec_dec_bytes(buf, pos) == Some((b, pos + 4 + b.len())),
{
    lemma_u32_be_round_trip(b.len() as u32);
    let whole = spec_enc_bytes(b);
    assert(buf.subrange(pos, pos + 4) =~= spec_u32_to_be_bytes(b.len() as u32)) by {
        assert forall|i: int| 0 <= i < 4 implies #[trigger] buf.subrange(pos, pos + 4)[i]
            == spec_u32_to_be_bytes(b.len() as u32)[i] by {
            assert(buf.subrange(pos, pos + whole.len() as int)[i] == whole[i]);
        }
    }
    assert(buf.subrange(pos + 4, pos + 4 + b.len() as int) =~= b) by {
        assert forall|i: int| 0 <= i < b.len() implies #[trigger] buf.subrange(
            pos + 4,
            pos + 4 + b.len() as int,
        )[i] == b[i] by {
            assert(buf.subrange(pos, pos + whole.len() as int)[4 + i] == whole[4 + i]);
        }
    }
}

/// Reading a string where one was encoded yields it back.
pub proof fn lemma_dec_str_piece(buf: Seq<u8>, pos: int, s: Seq<char>)
    requires
        0 <= pos,
        encode_utf8(s).len() <= 0xFFFFFFFF,
        pos + spec_enc_str(s).len() <= buf.len(),
        buf.subrange(pos, pos + spec_enc_str(s).len() as int) == spec_enc_str(s),
    ensures
        spec_enc_str(s).len() == 4 + encode_utf8(s).len(),
        spec_dec_str(buf, pos) == Some((s, pos + 4 + encode_utf8(s).len())),
{
    lemma_dec_bytes_piece(buf, pos, encode_utf8(s));
    vstd::utf8::encode_utf8_valid_utf8(s);
    vstd::utf8::encode_utf8_decode_utf8(s);
}

/// Reading a room kind where one was encoded yields it back.
pub proof fn lemma_dec_chat_type_piece(buf: Seq<u8>, pos: int, t: ChatType)
    requires
        0 <= pos,
        pos + spec_enc_chat_type(t).len() <= buf.len(),
        buf.subrange(pos, pos + spec_enc_chat_type(t).len() as int) == spec_enc_chat_type(t),
    ensures
        spec_dec_chat_type(buf, pos) == Some((t, pos + spec_enc_chat_type(t).len() as int)),
{
    lemma_auto_spec_u64_to_from_le_bytes();
    let whole = spec_enc_chat_type(t);
    match t {
        ChatType::OneToOne => {
            assert(buf.subrange(pos, pos + 1)[0] == whole[0]);
            assert(buf[pos] == 0u8);
        },
        ChatType::Group { max_participants } => {
            assert(buf.subrange(pos, pos + whole.len() as int)[0] == whole[0]);
            assert(buf[pos] == 1u8);
            assert(buf.subrange(pos + 1, pos + 9) =~= spec_u64_to_le_bytes(
                max_participants as u64,
            )) by {
                assert forall|i: int| 0 <= i < 8 implies #[trigger] buf.subrange(pos + 1, pos + 9)[i]
                    == spec_u64_to_le_bytes(max_participants as u64)[i] by {
                    assert(buf.subrange(pos, pos + whole.len() as int)[1 + i] == whole[1 + i]);
                }
            }
            lemma_dec_u64_piece(buf, pos + 1, max_participants as u64);
        },
    }
}

// ----- the codec round trips -----

/// Decoding inverts encoding for every client message that fits.
pub proof fn lemma_client_message_round_trip(m: ClientMessageView)
    requires
        spec_client_msg_fits(m),
    ensures
        spec_dec_client(spec_enc_client(m)) == Some(m),
{
    let buf = spec_enc_client(m);
    match m {
        ClientMessageView::CreateChat { room_id, chat_type, username } => {
            let a = spec_enc_str(room_id);
            let b = spec_enc_chat_type(chat_type);
            let c = spec_enc_str(username);
            assert(buf == seq![0u8] + a + b + c);
            assert(buf[0] == 0u8);
            let q1 = 1int;
            let q2 = 1 + a.len() as int;
            let q3 = q2 + b.len() as int;
            assert(buf.subrange(q1, q2) =~= a);
            assert(buf.subrange(q2, q3) =~= b);
            assert(buf.subrange(q3, buf.len() as int) =~= c);
            lemma_dec_str_piece(buf, q1, room_id);
            lemma_dec_chat_type_piece(buf, q2, chat_type);
            lemma_dec_str_piece(buf, q3, username);
            assert(q3 + c.len() as int == buf.len());
        },
        ClientMessageView::JoinChat { room_id, username } => {
            let a = spec_enc_str(room_id);
            let c = spec_enc_str(username);
            assert(buf == seq![1u8] + a + c);
            assert(buf[0] == 1u8);
            let q1 = 1int;
            let q2 = 1 + a.len() as int;
            assert(buf.subrange(q1, q2) =~= a);
            assert(buf.subrange(q2, buf.len() as int) =~= c);
            lemma_dec_str_piece(buf, q1, room_id);
            lemma_dec_str_piece(buf, q2, username);
        },
        ClientMessageView::SendMessage { room_id, encrypted_payload, message_id } => {
            let a = spec_enc_str(room_id);
            let b = spec_enc_bytes(encrypted_payload);
            let c = spec_enc_str(message_id);
            assert(buf == seq![2u8] + a + b + c);
            assert(buf[0] == 2u8);
            let q1 = 1int;
            let q2 = 1 + a.len() as int;
            let q3 = q2 + b.len() as int;
            assert(buf.subrange(q1, q2) =~= a);
            assert(buf.subrange(q2, q3) =~= b);
            assert(buf.subrange(q3, buf.len() as int) =~= c);
            lemma_dec_str_piece(buf, q1, room_id);
            lemma_dec_bytes_piece(buf, q2, encrypted_payload);
            lemma_dec_str_piece(buf, q3, message_id);
        },
        ClientMessageView::LeaveChat { room_id } => {
            let a = spec_enc_str(room_id);
            assert(buf == seq![3u8] + a);
            assert(buf[0] == 3u8);
            assert(buf.subrange(1, buf.len() as int) =~= a);
            lemma_dec_str_piece(buf, 1, room_id);
        },
    }
}

/// Decoding inverts encoding for every server message that fits.
#[verifier::rlimit(100)]
#[verifier::spinoff_prover]
pub proof fn lemma_server_message_round_trip(m: ServerMessageView)
    requires
        spec_server_msg_fits(m),
    ensures
        spec_dec_server(spec_enc_server(m)) == Some(m),
{
    let buf = spec_enc_server(m);
    match m {
        ServerMessageView::ChatCreated { room_id, chat_type } => {
            let a = spec_enc_str(room_id);
            let b = spec_enc_chat_type(chat_type);
            assert(buf == seq![0u8] + a + b);
            assert(buf[0] == 0u8);
            let q1 = 1int;
            let q2 = 1 + a.len() as int;
            assert(buf.subrange(q1, q2) =~= a);
            assert(buf.subrange(q2, buf.len() as int) =~= b);
            lemma_dec_str_piece(buf, q1, room_id);
            lemma_dec_chat_type_piece(buf, q2, chat_type);
        },
        ServerMessageView::JoinedChat { room_id, chat_type, participant_count } => {
            let a = spec_enc_str(room_id);
            let b = spec_enc_chat_type(chat_type);
            let c = spec_u64_to_le_bytes(participant_count as u64);
            assert(buf == seq![1u8] + a + b + c);
            assert(buf[0] == 1u8);
            let q1 = 1int;
            let q2 = 1 + a.len() as int;
            let q3 = q2 + b.len() as int;
            lemma_auto_spec_u64_to_from_le_bytes();
            assert(buf.subrange(q1, q2) =~= a);
            assert(buf.subrange(q2, q3) =~= b);
            assert(buf.subrange(q3, buf.len() as int) =~= c);
            lemma_dec_str_piece(buf, q1, room_id);
            lemma_dec_chat_type_piece(buf, q2, chat_type);
            lemma_dec_u64_piece(buf, q3, participant_count as u64);
        },
        ServerMessageView::MessageReceived { room_id, encrypted_payload, timestamp, message_id } => {
            let a = spec_enc_str(room_id);
            let b = spec_enc_bytes(encrypted_payload);
            let c = spec_enc_i64(timestamp);
            let d = spec_enc_str(message_id);
            assert(buf == seq![2u8] + a + b + c + d);
            assert(buf[0] == 2u8);
            let q1 = 1int;
            let q2 = 1 + a.len() as int;
            let q3 = q2 + b.len() as int;
            let q4 = q3 + c.len() as int;
            lemma_auto_spec_u64_to_from_le_bytes();
            assert(buf.subrange(q1, q2) =~= a);
            assert(buf.subrange(q2, q3) =~= b);
            assert(buf.subrange(q3, q4) =~= c);
            assert(buf.subrange(q4, buf.len() as int) =~= d);
            lemma_dec_str_piece(buf, q1, room_id);
            lemma_dec_bytes_piece(buf, q2, encrypted_payload);
            lemma_dec_u64_piece(buf, q3, spec_i64_bits(timestamp));
            lemma_dec_str_piece(buf, q4, message_id);
            lemma_i64_bits_round_trip(timestamp);
        },
        ServerMessageView::MessageAck { message_id } => {
            let a = spec_enc_str(message_id);
            assert(buf == seq![3u8] + a);
            assert(buf[0] == 3u8);
            assert(buf.subrange(1, buf.len() as int) =~= a);
            lemma_dec_str_piece(buf, 1, message_id);
        },
        ServerMessageView::UserJoined { room_id, username } => {
            let a = spec_enc_str(room_id);
            let c = spec_enc_str(username);
            assert(buf == seq![4u8] + a + c);
            assert(buf[0] == 4u8);
            let q1 = 1int;
            let q2 = 1 + a.len() as int;
            assert(buf.subrange(q1, q2) =~= a);
            assert(buf.subrange(q2, buf.len() as int) =~= c);
            lemma_dec_str_piece(buf, q1, room_id);
            lemma_dec_str_piece(buf, q2, username);
        },
        ServerMessageView::UserLeft { room_id, username } => {
            let a = spec_enc_str(room_id);
            let c = spec_enc_str(username);
            assert(buf == seq![5u8] + a + c);
            assert(buf[0] == 5u8);
            let q1 = 1int;
            let q2 = 1 + a.len() as int;
            assert(buf.subrange(q1, q2) =~= a);
            assert(buf.subrange(q2, buf.len() as int) =~= c);
            lemma_dec_str_piece(buf, q1, room_id);
            lemma_dec_str_piece(buf, q2, username);
        },
        ServerMessageView::Error { message } => {
            let a = spec_enc_str(message);
            assert(buf == seq![6u8] + a);
            assert(buf[0] == 6u8);
            assert(buf.subrange(1, buf.len() as int) =~= a);
            lemma_dec_str_piece(buf, 1, message);
        },
    }
}

/// Decoding inverts encoding for every payload that fits.
#[verifier::rlimit(100)]
#[verifier::spinoff_prover]
pub proof fn lemma_payload_round_trip(p: MessagePayloadView)
    requires
        spec_payload_fits(p),
    ensures
        spec_dec_payload(spec_enc_payload(p)) == Some(p),
{
    let buf = spec_enc_payload(p);
    let a = spec_enc_str(p.username);
    let b = spec_enc_str(p.content);
    let c = spec_enc_i64(p.timestamp);
    let d = spec_u64_to_le_bytes(p.sequence_number);
    let e = spec_enc_bytes(p.sender_public_key);
    let f = spec_enc_bytes(p.signature);
    let g = spec_u64_to_le_bytes(p.chain_key_index);
    lemma_auto_spec_u64_to_from_le_bytes();
    assert(buf == a + b + c + d + e + f + g);
    let q1 = a.len() as int;
    let q2 = q1 + b.len() as int;
    let q3 = q2 + c.len() as int;
    let q4 = q3 + d.len() as int;
    let q5 = q4 + e.len() as int;
    let q6 = q5 + f.len() as int;
    assert(buf.subrange(0, q1) =~= a);
    assert(buf.subrange(q1, q2) =~= b);
    assert(buf.subrange(q2, q3) =~= c);
    assert(buf.subrange(q3, q4) =~= d);
    assert(buf.subrange(q4, q5) =~= e);
    assert(buf.subrange(q5, q6) =~= f);
    assert(buf.subrange(q6, buf.len() as int) =~= g);
    lemma_dec_str_piece(buf, 0, p.username);
    lemma_dec_str_piece(buf, q1, p.content);
    lemma_dec_u64_piece(buf, q2, spec_i64_bits(p.timestamp));
    lemma_dec_u64_piece(buf, q3, p.sequence_number);
    lemma_dec_bytes_piece(buf, q4, p.sender_public_key);
    lemma_dec_bytes_piece(buf, q5, p.signature);
    lemma_dec_u64_piece(buf, q6, p.chain_key_index);
    lemma_i64_bits_round_trip(p.timestamp);
}

/// Checks that every field of a server message is small enough to encode,
/// so an unverified caller can test `encode_server_message`'s precondition.
pub fn server_message_fits(m: &ServerMessage) -> (r: bool)
    ensures
        r == spec_server_msg_fits(m@),
{
    match m {
        ServerMessage::ChatCreated { room_id, chat_type } => str_fits(room_id.as_str()),
        ServerMessage::JoinedChat { room_id, chat_type, participant_count } => str_fits(
            room_id.as_str(),
        ),
        ServerMessage::MessageReceived { room_id, encrypted_payload, timestamp, message_id } =>
            str_fits(room_id.as_str()) && encrypted_payload.len() <= MAX_FIELD_LEN && str_fits(
            message_id.as_str(),
        ),
        ServerMessage::MessageAck { message_id } => str_fits(message_id.as_str()),
        ServerMessage::UserJoined { room_id, username } => str_fits(room_id.as_str()) && str_fits(
            username.as_str(),
        ),
        ServerMessage::UserLeft { room_id, username } => str_fits(room_id.as_str()) && str_fits(
            username.as_str(),
        ),
        ServerMessage::Error { message } => str_fits(message.as_str()),
    }
}

/// Whether a string's UTF-8 bytes fit one encoded field.
fn str_fits(s: &str) -> (r: bool)
    ensures
        r == spec_str_fits(s@),
{
    s.as_bytes().len() <= MAX_FIELD_LEN
}

// ----- framing -----

/// A frame on the transport: the body length in 4 big-endian bytes, then
/// the body.
pub open spec fn spec_frame(body: Seq<u8>) -> Seq<u8> {
    spec_u32_to_be_bytes(body.len() as u32) + body
}

/// Frames a message body; a body that is empty or over the cap cannot be
/// framed and must terminate the session instead.
pub fn frame_message(body: &[u8]) -> (r: Option<Vec<u8>>)
    ensures
        r matches Some(f) ==> 1 <= body@.len() <= crate::MAX_MESSAGE_SIZE && f@ == spec_frame(
            body@,
        ),
        r is None ==> body@.len() == 0 || body@.len() > crate::MAX_MESSAGE_SIZE,
{
    if body.len() == 0 || body.len() > crate::MAX_MESSAGE_SIZE {
        return None;
    }
    let mut out: Vec<u8> = Vec::new();
    push_u32_be(&mut out, body.len() as u32);
    out.extend_from_slice(body);
    proof {
        assert(out@ =~= spec_frame(body@));
    }
    Some(out)
}

/// Reads a frame header: the body length that follows, or nothing for a
/// length that must terminate the session.
pub fn parse_frame_len(header: &[u8]) -> (r: Option<usize>)
    requires
        header@.len() == 4,
    ensures
        r matches Some(n) ==> n == spec_u32_from_be_bytes(header@) && 1 <= n
            <= crate::MAX_MESSAGE_SIZE,
        r is None ==> spec_u32_from_be_bytes(header@) == 0 || spec_u32_from_be_bytes(header@)
            > crate::MAX_MESSAGE_SIZE,
{
    let n = u32_from_be_slice(header) as usize;
    if n == 0 || n > crate::MAX_MESSAGE_SIZE {
        None
    } else {
        Some(n)
    }
}

} // verus!
