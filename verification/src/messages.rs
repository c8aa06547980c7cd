//! The client/relay message taxonomy and the encrypted message payload.
//!
//! Each exec type has a spec-level view (`@`) over character and byte
//! sequences; the wire codec's contracts are stated over those views.

use vstd::prelude::*;

verus! {

/// The kind of a room: a pair, or a group with a configured cap.
#[derive(Clone, Copy, Debug, PartialEq, Eq, Structural)]
pub enum ChatType {
    OneToOne,
    Group { max_participants: usize },
}

impl ChatType {
    /// The participant cap of this room kind.
    pub open spec fn spec_cap(self) -> int {
        match self {
            ChatType::OneToOne => 2,
            ChatType::Group { max_participants } => max_participants as int,
        }
    }

    /// Returns the participant cap.
    pub fn cap(&self) -> (r: usize)
        ensures
            r as int == self.spec_cap(),
    {
        match self {
            ChatType::OneToOne => 2,
            ChatType::Group { max_participants } => *max_participants,
        }
    }
}

/// What a client sends to the relay.
#[derive(Debug, PartialEq)]
pub enum ClientMessage {
    CreateChat { room_id: String, chat_type: ChatType, username: String },
    JoinChat { room_id: String, username: String },
    SendMessage { room_id: String, encrypted_payload: Vec<u8>, message_id: String },
    LeaveChat { room_id: String },
}

/// The view of a `ClientMessage`: the same shape over sequences.
pub enum ClientMessageView {
    CreateChat { room_id: Seq<char>, chat_type: ChatType, username: Seq<char> },
    JoinChat { room_id: Seq<char>, username: Seq<char> },
    SendMessage { room_id: Seq<char>, encrypted_payload: Seq<u8>, message_id: Seq<char> },
    LeaveChat { room_id: Seq<char> },
}

impl View for ClientMessage {
    type V = ClientMessageView;

    open spec fn view(&self) -> ClientMessageView {
        match self {
            ClientMessage::CreateChat { room_id, chat_type, username } =>
                ClientMessageView::CreateChat {
                    room_id: room_id@,
                    chat_type: *chat_type,
                    username: username@,
                },
            ClientMessage::JoinChat { room_id, username } => ClientMessageView::JoinChat {
                room_id: room_id@,
                username: username@,
            },
            ClientMessage::SendMessage { room_id, encrypted_payload, message_id } =>
                ClientMessageView::SendMessage {
                    room_id: room_id@,
                    encrypted_payload: encrypted_payload@,
                    message_id: message_id@,
                },
            ClientMessage::LeaveChat { room_id } => ClientMessageView::LeaveChat {
                room_id: room_id@,
            },
        }
    }
}

/// What the relay sends to a client.
#[derive(Debug, PartialEq)]
pub enum ServerMessage {
    ChatCreated { room_id: String, chat_type: ChatType },
    JoinedChat { room_id: String, chat_type: ChatType, participant_count: usize },
    MessageReceived { room_id: String, encrypted_payload: Vec<u8>, timestamp: i64, message_id: String },
    MessageAck { message_id: String },
    UserJoined { room_id: String, username: String },
    UserLeft { room_id: String, username: String },
    Error { message: String },
}

/// The view of a `ServerMessage`: the same shape over sequences.
pub enum ServerMessageView {
    ChatCreated { room_id: Seq<char>, chat_type: ChatType },
    JoinedChat { room_id: Seq<char>, chat_type: ChatType, participant_count: usize },
    MessageReceived {
        room_id: Seq<char>,
        encrypted_payload: Seq<u8>,
        timestamp: i64,
        message_id: Seq<char>,
    },
    MessageAck { message_id: Seq<char> },
    UserJoined { room_id: Seq<char>, username: Seq<char> },
    UserLeft { room_id: Seq<char>, username: Seq<char> },
    Error { message: Seq<char> },
}

impl View for ServerMessage {
    type V = ServerMessageView;

    open spec fn view(&self) -> ServerMessageView {
        match self {
            ServerMessage::ChatCreated { room_id, chat_type } => ServerMessageView::ChatCreated {
                room_id: room_id@,
                chat_type: *chat_type,
            },
            ServerMessage::JoinedChat { room_id, chat_type, participant_count } =>
                ServerMessageView::JoinedChat {
                    room_id: room_id@,
                    chat_type: *chat_type,
                    participant_count: *participant_count,
                },
            ServerMessage::MessageReceived { room_id, encrypted_payload, timestamp, message_id } =>
                ServerMessageView::MessageReceived {
                    room_id: room_id@,
                    encrypted_payload: encrypted_payload@,
                    timestamp: *timestamp,
                    message_id: message_id@,
                },
            ServerMessage::MessageAck { message_id } => ServerMessageView::MessageAck {
                message_id: message_id@,
            },
            ServerMessage::UserJoined { room_id, username } => ServerMessageView::UserJoined {
                room_id: room_id@,
                username: username@,
            },
            ServerMessage::UserLeft { room_id, username } => ServerMessageView::UserLeft {
                room_id: room_id@,
                username: username@,
            },
            ServerMessage::Error { message } => ServerMessageView::Error { message: message@ },
        }
    }
}

impl Clone for ServerMessage {
    /// A clone carries the same view.
    fn clone(&self) -> (r: ServerMessage)
        ensures
            r@ == self@,
    {
        match self {
            ServerMessage::ChatCreated { room_id, chat_type } => ServerMessage::ChatCreated {
                room_id: room_id.clone(),
                chat_type: *chat_type,
            },
            ServerMessage::JoinedChat { room_id, chat_type, participant_count } =>
                ServerMessage::JoinedChat {
                    room_id: room_id.clone(),
                    chat_type: *chat_type,
                    participant_count: *participant_count,
                },
            ServerMessage::MessageReceived { room_id, encrypted_payload, timestamp, message_id } =>
                ServerMessage::MessageReceived {
                    room_id: room_id.clone(),
                    encrypted_payload: crate::bytes_util::clone_bytes(encrypted_payload),
                    timestamp: *timestamp,
                    message_id: message_id.clone(),
                },
            ServerMessage::MessageAck { message_id } => ServerMessage::MessageAck {
                message_id: message_id.clone(),
            },
            ServerMessage::UserJoined { room_id, username } => ServerMessage::UserJoined {
                room_id: room_id.clone(),
                username: username.clone(),
            },
            ServerMessage::UserLeft { room_id, username } => ServerMessage::UserLeft {
                room_id: room_id.clone(),
                username: username.clone(),
            },
            ServerMessage::Error { message } => ServerMessage::Error {
                message: message.clone(),
            },
        }
    }
}

/// The plaintext that is signed, encrypted and sent: the visible message
/// plus the sender's identity and ordering data.
#[derive(Debug, PartialEq)]
pub struct MessagePayload {
    pub username: String,
    pub content: String,
    pub timestamp: i64,
    pub sequence_number: u64,
    pub sender_public_key: Vec<u8>,
    pub signature: Vec<u8>,
    pub chain_key_index: u64,
}

/// The view of a `MessagePayload` over sequences.
pub struct MessagePayloadView {
    pub username: Seq<char>,
    pub content: Seq<char>,
    pub timestamp: i64,
    pub sequence_number: u64,
    pub sender_public_key: Seq<u8>,
    pub signature: Seq<u8>,
    pub chain_key_index: u64,
}

impl View for MessagePayload {
    type V = MessagePayloadView;

    open spec fn view(&self) -> MessagePayloadView {
        MessagePayloadView {
            username: self.username@,
            content: self.content@,
            timestamp: self.timestamp,
            sequence_number: self.sequence_number,
            sender_public_key: self.sender_public_key@,
            signature: self.signature@,
            chain_key_index: self.chain_key_index,
        }
    }
}

impl MessagePayload {
    /// Assembles a payload; the caller supplies the timestamp, since only
    /// the application layer can read the clock.
    pub fn new(
        username: String,
        content: String,
        timestamp: i64,
        sequence_number: u64,
        sender_public_key: Vec<u8>,
        signature: Vec<u8>,
        chain_key_index: u64,
    ) -> (r: MessagePayload)
        ensures
            r@.username == username@,
            r@.content == content@,
            r@.timestamp == timestamp,
            r@.sequence_number == sequence_number,
            r@.sender_public_key == sender_public_key@,
            r@.signature == signature@,
            r@.chain_key_index == chain_key_index,
    {
        MessagePayload {
            username,
            content,
            timestamp,
            sequence_number,
            sender_public_key,
            signature,
            chain_key_index,
        }
    }
}

} // verus!
