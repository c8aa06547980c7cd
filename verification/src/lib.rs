//! Core of an end-to-end encrypted ephemeral chat: chat-code and room-id
//! derivation, content-key derivation, a forward-secure message ratchet,
//! AEAD envelopes with length-hiding padding, per-message signatures, a
//! deterministic wire codec, and the relay's room state machine.

pub mod envelope;
pub mod errors;
pub mod identity;
pub mod bytes_util;
pub mod client;
pub mod codec;
pub mod codes;
pub mod messages;
pub mod primitives;
pub mod ratchet;
pub mod relay;
pub mod text;

use vstd::prelude::*;

verus! {

/// Upper bound on a frame body; a frame of zero length or above this
/// bound terminates the session.
pub const MAX_MESSAGE_SIZE: usize = 1048576;

} // verus!
