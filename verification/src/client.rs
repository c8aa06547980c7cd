//! The client-side pipelines: sending (ratchet, sign, encrypt, enqueue),
//! receiving (trial-decrypt over a ratchet window, verify, order), the
//! ACK/retry bookkeeping, and the teardown that wipes the secrets.

use vstd::prelude::*;
use vstd::string::StringSliceAdditionalSpecFns;
use vstd::utf8::encode_utf8;
use crate::bytes_util::clone_bytes;
use crate::codec::{
    decode_payload, encode_payload, spec_dec_payload, spec_enc_payload, spec_str_fits,
};
use crate::codes::chat_code_to_room_id;
use crate::envelope::{spec_open_envelope, ChatKey};
use crate::errors::CryptoError;
use crate::identity::{
    ed25519_pk_valid, ed25519_verifies, signing_input, spec_signing_input, IdentityKey,
};
use crate::messages::{ClientMessage, ClientMessageView, MessagePayload, MessagePayloadView};
use crate::ratchet::{spec_chain_key_at, spec_zero_key, ChainKey};
use crate::text::{dec_chars, u64_to_dec_string};

verus! {

/// How long an unacknowledged message waits before a resend.
pub const RETRY_TIMEOUT_MILLIS: u64 = 2000;

/// How many resends an unacknowledged message gets before it is surfaced
/// as permanently failed.
pub const MAX_RETRIES: u8 = 3;

/// How long a one-to-one chat lingers after the peer leaves.
pub const AUTO_CLOSE_SECS: u64 = 5;

/// How far behind the canonical ratchet index the trial window starts.
pub const WINDOW_BEHIND: u64 = 5;

/// How far ahead of the canonical ratchet index the trial window ends.
pub const WINDOW_AHEAD: u64 = 20;

/// The presentation modes of a client.
#[derive(Clone, Copy, Debug, PartialEq, Eq, Structural)]
pub enum AppMode {
    Welcome,
    CreateChat,
    JoinChat,
    WaitingForChatCode,
    Chat,
}

/// One message as presented: who said what, whether the signature checked
/// out, and whether the relay has confirmed it.
#[derive(Debug)]
pub struct ChatMessage {
    pub username: String,
    pub content: String,
    pub timestamp: i64,
    pub verified: bool,
    pub sent: bool,
    pub message_id: Option<String>,
}

/// An outbound message awaiting its acknowledgement.
#[derive(Debug)]
pub struct PendingMessage {
    pub message_id: String,
    pub room_id: String,
    pub encrypted_payload: Vec<u8>,
    pub sent_at_millis: u64,
    pub retry_count: u8,
}

/// The view of a `PendingMessage` over sequences.
pub struct PendingMessageView {
    pub message_id: Seq<char>,
    pub room_id: Seq<char>,
    pub encrypted_payload: Seq<u8>,
    pub sent_at_millis: u64,
    pub retry_count: u8,
}

impl View for PendingMessage {
    type V = PendingMessageView;

    open spec fn view(&self) -> PendingMessageView {
        PendingMessageView {
            message_id: self.message_id@,
            room_id: self.room_id@,
            encrypted_payload: self.encrypted_payload@,
            sent_at_millis: self.sent_at_millis,
            retry_count: self.retry_count,
        }
    }
}

/// A byte-for-byte copy of a pending entry.
fn clone_pending(p: &PendingMessage) -> (r: PendingMessage)
    ensures
        r@ == p@,
{
    PendingMessage {
        message_id: p.message_id.clone(),
        room_id: p.room_id.clone(),
        encrypted_payload: clone_bytes(&p.encrypted_payload),
        sent_at_millis: p.sent_at_millis,
        retry_count: p.retry_count,
    }
}

/// The predicate an acknowledgement filters the pending list by: keep
/// every entry whose message id is not the acknowledged one.
pub open spec fn spec_keep_pred(id: Seq<char>) -> spec_fn(PendingMessage) -> bool {
    |p: PendingMessage| p.message_id@ != id
}

/// The views of a pending list.
pub open spec fn spec_pending_views(v: Seq<PendingMessage>) -> Seq<PendingMessageView> {
    v.map_values(|p: PendingMessage| p@)
}

/// The message id a sender mints: username, sequence number and clock
/// nanoseconds, dash-separated.
pub open spec fn spec_message_id(username: Seq<char>, seq: u64, nanos: u64) -> Seq<char> {
    username + seq!['-'] + dec_chars(seq as nat) + seq!['-'] + dec_chars(nanos as nat)
}

/// Mints a message id.
pub fn make_message_id(username: &str, seq: u64, nanos: u64) -> (r: String)
    ensures
        r@ == spec_message_id(username@, seq, nanos),
{
    proof {
        reveal_strlit("-");
    }
    let mut s = String::from_str(username);
    s.append("-");
    let seq_str = u64_to_dec_string(seq);
    s.append(seq_str.as_str());
    s.append("-");
    let nanos_str = u64_to_dec_string(nanos);
    s.append(nanos_str.as_str());
    proof {
        assert(s@ =~= spec_message_id(username@, seq, nanos));
    }
    s
}

/// Whether a payload passes signature verification: the embedded public
/// key parses and the signature covers the canonical signing input of the
/// content, sequence number and ratchet index.
pub open spec fn spec_payload_verified(p: MessagePayloadView) -> bool {
    &&& p.sender_public_key.len() == 32
    &&& ed25519_pk_valid(p.sender_public_key)
    &&& p.signature.len() == 64
    &&& ed25519_verifies(
        p.sender_public_key,
        spec_signing_input(encode_utf8(p.content), p.sequence_number, p.chain_key_index),
        p.signature,
    )
}

/// Verifies a payload's signature over its canonical signing input.
pub fn verify_payload(payload: &MessagePayload) -> (r: bool)
    ensures
        r == spec_payload_verified(payload@),
{
    let sig_input = signing_input(
        payload.content.as_str().as_bytes(),
        payload.sequence_number,
        payload.chain_key_index,
    );
    match IdentityKey::verify(
        payload.sender_public_key.as_slice(),
        sig_input.as_slice(),
        payload.signature.as_slice(),
    ) {
        Ok(_) => true,
        Err(_) => false,
    }
}

/// What trying one ratchet index against an envelope yields: the payload,
/// if the envelope opens under exactly that index's subkey, decodes, and
/// embeds exactly that index.
pub open spec fn spec_index_payload(root: Seq<u8>, env: Seq<u8>, t: u64) -> Option<
    MessagePayloadView,
>
    recommends
        t < u64::MAX,
{
    match spec_open_envelope(spec_chain_key_at(root, (t + 1) as u64), env) {
        Some(bytes) => match spec_dec_payload(bytes) {
            Some(p) => if p.chain_key_index == t {
                Some(p)
            } else {
                None
            },
            None => None,
        },
        None => None,
    }
}

/// The per-participant state of one chat session.
pub struct ChatContext {
    pub username: String,
    pub room_id: String,
    pub chat_key: ChatKey,
    pub chain_key: ChainKey,
    pub identity_key: IdentityKey,
    pub sequence_number: u64,
    pub pending_messages: Vec<PendingMessage>,
    pub skipped_keys: Vec<(u64, Vec<u8>)>,
}

impl ChatContext {
    /// Well-formedness: both keys are intact, the identity's public key
    /// has its 32 bytes, and every cached skipped subkey is the subkey of
    /// the ratchet index it is cached under.
    pub open spec fn wf(&self) -> bool {
        &&& self.chat_key.wf()
        &&& self.chain_key.wf()
        &&& self.identity_key.spec_pk().len() == 32
        &&& (forall|k: int|
            0 <= k < self.skipped_keys@.len() ==> (#[trigger] self.skipped_keys@[k]).0
                < self.chain_key.spec_index() && self.skipped_keys@[k].1@.len() == 32
                && self.skipped_keys@[k].1@ == spec_chain_key_at(
                self.chain_key.spec_root(),
                (self.skipped_keys@[k].0 + 1) as u64,
            ))
    }

    /// Builds the session state for a chat code: derives the room id, the
    /// content key and the ratchet root, and mints a fresh signing keypair.
    /// Only an invalid chat code is refused.
    pub fn new(username: String, chat_code: &str) -> (r: Result<ChatContext, CryptoError>)
        requires
            chat_code@.len() <= 0x3FFFFFFF,
        ensures
            r matches Ok(c) ==> {
                &&& c.wf()
                &&& crate::envelope::spec_code_valid(chat_code@)
                &&& c.username@ == username@
                &&& c.room_id@ == crate::codes::spec_room_id(chat_code.spec_bytes())
                &&& c.chat_key@ == crate::envelope::spec_content_key(
                    crate::envelope::spec_secret_of_code(chat_code),
                )
                &&& c.chain_key.spec_index() == 0
                &&& c.chain_key.spec_root() == crate::ratchet::spec_chain_root(
                    chat_code.spec_bytes(),
                )
                &&& c.sequence_number == 0
                &&& c.pending_messages@.len() == 0
                &&& c.skipped_keys@.len() == 0
            },
            r matches Err(e) ==> e == CryptoError::InvalidChatCode
                && !crate::envelope::spec_code_valid(chat_code@),
    {
        let room_id = chat_code_to_room_id(chat_code);
        let chat_key = match ChatKey::derive_from_code(chat_code) {
            Ok(k) => k,
            Err(e) => {
                return Err(e);
            },
        };
        let chain_key = match ChainKey::from_chat_code(chat_code) {
            Ok(c) => c,
            Err(e) => {
                return Err(e);
            },
        };
        let identity_key = IdentityKey::generate();
        Ok(
            ChatContext {
                username,
                room_id,
                chat_key,
                chain_key,
                identity_key,
                sequence_number: 0,
                pending_messages: Vec::new(),
                skipped_keys: Vec::new(),
            },
        )
    }

    /// Assembles the session state from already-derived parts.
    pub fn from_parts(
        username: String,
        room_id: String,
        chat_key: ChatKey,
        chain_key: ChainKey,
        identity_key: IdentityKey,
    ) -> (r: ChatContext)
        requires
            chat_key.wf(),
            chain_key.wf(),
            identity_key.spec_pk().len() == 32,
        ensures
            r.wf(),
            r.username@ == username@,
            r.room_id@ == room_id@,
            r.chat_key == chat_key,
            r.chain_key == chain_key,
            r.sequence_number == 0,
            r.pending_messages@.len() == 0,
            r.skipped_keys@.len() == 0,
    {
        ChatContext {
            username,
            room_id,
            chat_key,
            chain_key,
            identity_key,
            sequence_number: 0,
            pending_messages: Vec::new(),
            skipped_keys: Vec::new(),
        }
    }

    /// The send pipeline: one ratchet step, a signature over the canonical
    /// signing input, the encoded payload sealed under the fresh subkey, a
    /// minted message id, and a pending entry awaiting the ACK.
    pub fn prepare_send(&mut self, content: &str, now_nanos: u64) -> (r: Result<
        (ClientMessage, ChatMessage),
        CryptoError,
    >)
        requires
            old(self).wf(),
            old(self).sequence_number < u64::MAX,
            old(self).chain_key.spec_index() < u64::MAX,
            spec_str_fits(old(self).username@),
            spec_str_fits(content@),
            spec_str_fits(old(self).room_id@),
        ensures
            r is Ok,
            final(self).wf(),
            final(self).username@ == old(self).username@,
            final(self).room_id@ == old(self).room_id@,
            final(self).sequence_number == old(self).sequence_number + 1,
            final(self).chain_key.spec_root() == old(self).chain_key.spec_root(),
            final(self).chain_key.spec_index() == old(self).chain_key.spec_index() + 1,
            r matches Ok((wire, shown)) ==> {
                let subkey = spec_chain_key_at(
                    old(self).chain_key.spec_root(),
                    (old(self).chain_key.spec_index() + 1) as u64,
                );
                let mid = spec_message_id(
                    old(self).username@,
                    old(self).sequence_number,
                    now_nanos,
                );
                &&& (wire@ matches ClientMessageView::SendMessage {
                    room_id,
                    encrypted_payload,
                    message_id,
                } ==> room_id == old(self).room_id@ && message_id == mid && (exists|
                    sig: Seq<u8>,
                |
                    {
                        &&& sig.len() == 64
                        &&& ed25519_verifies(
                            old(self).identity_key.spec_pk(),
                            spec_signing_input(
                                encode_utf8(content@),
                                old(self).sequence_number,
                                old(self).chain_key.spec_index(),
                            ),
                            sig,
                        )
                        &&& spec_open_envelope(subkey, encrypted_payload) == Some(
                            spec_enc_payload(
                                MessagePayloadView {
                                    username: old(self).username@,
                                    content: content@,
                                    timestamp: (now_nanos / 1000000000) as i64,
                                    sequence_number: old(self).sequence_number,
                                    sender_public_key: old(self).identity_key.spec_pk(),
                                    signature: sig,
                                    chain_key_index: old(self).chain_key.spec_index(),
                                },
                            ),
                        )
                    }))
                &&& (wire@ is SendMessage)
                &&& shown.username@ == old(self).username@
                &&& shown.content@ == content@
                &&& shown.verified == true
                &&& shown.sent == false
                &&& (shown.message_id matches Some(m) && m@ == mid)
                &&& final(self).pending_messages@.len() == old(self).pending_messages@.len() + 1
                &&& spec_pending_views(final(self).pending_messages@) == spec_pending_views(
                    old(self).pending_messages@,
                ).push(final(self).pending_messages@.last()@)
                &&& final(self).pending_messages@.last()@.message_id == mid
                &&& final(self).pending_messages@.last()@.room_id == old(self).room_id@
                &&& final(self).pending_messages@.last()@.sent_at_millis == now_nanos / 1000000
                &&& final(self).pending_messages@.last()@.retry_count == 0
                &&& (wire@ matches ClientMessageView::SendMessage { encrypted_payload, .. } ==>
                    final(self).pending_messages@.last()@.encrypted_payload == encrypted_payload)
            },
    {
        let subkey = self.chain_key.next();
        let chain_index = self.chain_key.index() - 1;
        let sig_input = signing_input(
            content.as_bytes(),
            self.sequence_number,
            chain_index,
        );
        let signature = self.identity_key.sign(sig_input.as_slice());
        let public_key = self.identity_key.public_key_bytes();
        let now_secs = (now_nanos / 1000000000) as i64;
        let message_id = make_message_id(self.username.as_str(), self.sequence_number, now_nanos);
        let payload = MessagePayload::new(
            self.username.clone(),
            String::from_str(content),
            now_secs,
            self.sequence_number,
            public_key,
            signature,
            chain_index,
        );
        proof {
            assert(crate::codec::spec_payload_fits(payload@));
        }
        let mut serialized = encode_payload(&payload);
        proof {
            vstd::bytes::lemma_auto_spec_u64_to_from_le_bytes();
            crate::text::lemma_encode_utf8_len(self.username@);
            crate::text::lemma_encode_utf8_len(content@);
            assert(serialized@.len() <= 2 * crate::codec::MAX_FIELD_LEN + 136);
        }
        let encrypted = match self.chat_key.encrypt_with_chain(
            serialized.as_slice(),
            subkey.as_slice(),
        ) {
            Ok(env) => env,
            Err(e) => {
                return Err(e);
            },
        };
        crate::primitives::zeroize_bytes(&mut serialized);
        let shown = ChatMessage {
            username: self.username.clone(),
            content: String::from_str(content),
            timestamp: now_secs,
            verified: true,
            sent: false,
            message_id: Some(message_id.clone()),
        };
        let pending = PendingMessage {
            message_id: message_id.clone(),
            room_id: self.room_id.clone(),
            encrypted_payload: clone_bytes(&encrypted),
            sent_at_millis: now_nanos / 1000000,
            retry_count: 0,
        };
        let ghost pending_before = self.pending_messages@;
        self.pending_messages.push(pending);
        self.sequence_number = self.sequence_number + 1;
        let wire = ClientMessage::SendMessage {
            room_id: self.room_id.clone(),
            encrypted_payload: encrypted,
            message_id,
        };
        proof {
            assert(spec_pending_views(self.pending_messages@) =~= spec_pending_views(
                pending_before,
            ).push(self.pending_messages@.last()@));
        }
        Ok((wire, shown))
    }

    /// The receive pipeline: tries the cached skipped subkeys, then
    /// trial-decrypts across the look-ahead window, insisting the embedded
    /// index is the trial index.  A match ahead of the canonical chain
    /// caches the subkeys it skips (so reordered messages still decrypt),
    /// advances the canonical chain past the match, and prunes the cache
    /// to the look-behind window; a used cache entry is wiped and dropped,
    /// so no subkey ever decrypts twice.  A window miss drops the frame
    /// and changes nothing.
    pub fn receive_message(&mut self, encrypted_payload: &[u8]) -> (r: Option<(
        MessagePayload,
        bool,
    )>)
        requires
            old(self).wf(),
            old(self).chain_key.spec_index() + WINDOW_AHEAD + 1 < u64::MAX,
        ensures
            final(self).wf(),
            final(self).chain_key.spec_root() == old(self).chain_key.spec_root(),
            final(self).username@ == old(self).username@,
            final(self).pending_messages@ == old(self).pending_messages@,
            old(self).chain_key.spec_index() <= final(self).chain_key.spec_index(),
            r matches Some((p, verified)) ==> exists|t: u64|
                #![auto]
                t <= old(self).chain_key.spec_index() + WINDOW_AHEAD && spec_index_payload(
                    old(self).chain_key.spec_root(),
                    encrypted_payload@,
                    t,
                ) == Some(p@) && verified == spec_payload_verified(p@) && final(self).chain_key.spec_index() == (if old(self).chain_key.spec_index() >= t + 1 {
                    old(self).chain_key.spec_index()
                } else {
                    (t + 1) as u64
                }),
            r is None ==> final(self).chain_key.spec_index() == old(self).chain_key.spec_index()
                && final(self).skipped_keys@ == old(self).skipped_keys@ && (forall|t: u64|
                old(self).chain_key.spec_index() <= t <= old(self).chain_key.spec_index()
                    + WINDOW_AHEAD ==> spec_index_payload(
                    old(self).chain_key.spec_root(),
                    encrypted_payload@,
                    t,
                ) is None),
    {
        let ghost root = self.chain_key.spec_root();
        // first, the subkeys that earlier matches skipped over
        let mut ci: usize = 0;
        while ci < self.skipped_keys.len()
            invariant
                self == old(self),
                self.wf(),
                root == self.chain_key.spec_root(),
                ci <= self.skipped_keys@.len(),
            decreases self.skipped_keys@.len() - ci,
        {
            let cached_index = self.skipped_keys[ci].0;
            match self.chat_key.decrypt_with_chain(
                encrypted_payload,
                self.skipped_keys[ci].1.as_slice(),
            ) {
                Ok(decrypted) => {
                    let mut decrypted = decrypted;
                    let decoded = decode_payload(decrypted.as_slice());
                    crate::primitives::zeroize_bytes(&mut decrypted);
                    match decoded {
                        Some(payload) => {
                            if payload.chain_key_index == cached_index {
                                let verified = verify_payload(&payload);
                                proof {
                                    assert(spec_index_payload(
                                        root,
                                        encrypted_payload@,
                                        cached_index,
                                    ) == Some(payload@));
                                    assert(cached_index <= self.chain_key.spec_index()
                                        + WINDOW_AHEAD);
                                }
                                let (_, mut used) = self.skipped_keys.remove(ci);
                                crate::primitives::zeroize_bytes(&mut used);
                                return Some((payload, verified));
                            }
                        },
                        None => {},
                    }
                },
                Err(_) => {},
            }
            ci = ci + 1;
        }
        // then the look-ahead window from the canonical index
        let current = self.chain_key.index();
        let end = current + WINDOW_AHEAD;
        let mut t = current;
        while t <= end
            invariant
                self == old(self),
                self.wf(),
                root == self.chain_key.spec_root(),
                current == self.chain_key.spec_index(),
                end == current + WINDOW_AHEAD,
                current + WINDOW_AHEAD + 1 < u64::MAX,
                current <= t <= end + 1,
                forall|t2: u64|
                    current <= t2 < t ==> spec_index_payload(root, encrypted_payload@, t2) is None,
            decreases end + 1 - t,
        {
            let mut trial = self.chain_key.clone_chain();
            trial.advance_to(t);
            let trial_key = trial.next();
            proof {
                assert(trial_key@ == spec_chain_key_at(root, (t + 1) as u64));
            }
            match self.chat_key.decrypt_with_chain(encrypted_payload, trial_key.as_slice()) {
                Ok(decrypted) => {
                    let mut decrypted = decrypted;
                    let decoded = decode_payload(decrypted.as_slice());
                    crate::primitives::zeroize_bytes(&mut decrypted);
                    match decoded {
                        Some(payload) => {
                            if payload.chain_key_index == t {
                                let verified = verify_payload(&payload);
                                proof {
                                    assert(spec_index_payload(root, encrypted_payload@, t)
                                        == Some(payload@));
                                }
                                // cache the subkeys this match skips over
                                while self.chain_key.index() < t
                                    invariant
                                        self.wf(),
                                        root == self.chain_key.spec_root(),
                                        self.chain_key.spec_index() <= t,
                                        current <= self.chain_key.spec_index(),
                                        t < u64::MAX,
                                        self.username == old(self).username,
                                        self.room_id == old(self).room_id,
                                        self.chat_key == old(self).chat_key,
                                        self.identity_key == old(self).identity_key,
                                        self.sequence_number == old(self).sequence_number,
                                        self.pending_messages == old(self).pending_messages,
                                    decreases t - self.chain_key.spec_index(),
                                {
                                    let skipped_index = self.chain_key.index();
                                    let skipped_key = self.chain_key.next();
                                    self.skipped_keys.push((skipped_index, skipped_key));
                                }
                                // consume the matched subkey itself
                                let mut used = self.chain_key.next();
                                crate::primitives::zeroize_bytes(&mut used);
                                self.prune_skipped();
                                return Some((payload, verified));
                            }
                        },
                        None => {},
                    }
                },
                Err(_) => {},
            }
            t = t + 1;
        }
        None
    }

    /// Drops (and wipes) every cached subkey that has fallen behind the
    /// look-behind window.
    fn prune_skipped(&mut self)
        requires
            old(self).wf(),
        ensures
            final(self).wf(),
            final(self).chain_key == old(self).chain_key,
            final(self).chat_key == old(self).chat_key,
            final(self).identity_key == old(self).identity_key,
            final(self).username == old(self).username,
            final(self).room_id == old(self).room_id,
            final(self).pending_messages == old(self).pending_messages,
            final(self).sequence_number == old(self).sequence_number,
    {
        let cutoff = self.chain_key.index();
        let mut kept: Vec<(u64, Vec<u8>)> = Vec::new();
        let mut old_list: Vec<(u64, Vec<u8>)> = Vec::new();
        core::mem::swap(&mut self.skipped_keys, &mut old_list);
        while old_list.len() > 0
            invariant
                self.chain_key == old(self).chain_key,
                self.chat_key == old(self).chat_key,
                self.identity_key == old(self).identity_key,
                self.username == old(self).username,
                self.room_id == old(self).room_id,
                self.pending_messages == old(self).pending_messages,
                self.sequence_number == old(self).sequence_number,
                old(self).wf(),
                forall|k: int|
                    0 <= k < old_list@.len() ==> (#[trigger] old_list@[k]).0
                        < self.chain_key.spec_index() && old_list@[k].1@.len() == 32
                        && old_list@[k].1@ == spec_chain_key_at(
                        self.chain_key.spec_root(),
                        (old_list@[k].0 + 1) as u64,
                    ),
                forall|k: int|
                    0 <= k < kept@.len() ==> (#[trigger] kept@[k]).0
                        < self.chain_key.spec_index() && kept@[k].1@.len() == 32 && kept@[k].1@
                        == spec_chain_key_at(
                        self.chain_key.spec_root(),
                        (kept@[k].0 + 1) as u64,
                    ),
            decreases old_list@.len(),
        {
            let (idx, mut key) = old_list.remove(0);
            if idx >= cutoff || cutoff - idx <= WINDOW_BEHIND {
                kept.push((idx, key));
            } else {
                crate::primitives::zeroize_bytes(&mut key);
            }
        }
        self.skipped_keys = kept;
    }

    /// Whether an arriving payload is this client's own message echoed
    /// back by the relay.
    pub fn is_own_message(&self, payload: &MessagePayload) -> (r: bool)
        ensures
            r == (payload@.username == self.username@),
    {
        crate::text::str_eq(payload.username.as_str(), self.username.as_str())
    }

    /// Handles a relay acknowledgement: drops exactly the pending entries
    /// carrying that message id.
    pub fn handle_ack(&mut self, message_id: &str)
        ensures
            final(self).username@ == old(self).username@,
            final(self).chain_key == old(self).chain_key,
            final(self).chat_key == old(self).chat_key,
            final(self).sequence_number == old(self).sequence_number,
            final(self).pending_messages@ == old(self).pending_messages@.filter(
                spec_keep_pred(message_id@),
            ),
    {
        let ghost target = old(self).pending_messages@;
        let mut kept: Vec<PendingMessage> = Vec::new();
        let mut old_list: Vec<PendingMessage> = Vec::new();
        core::mem::swap(&mut self.pending_messages, &mut old_list);
        while old_list.len() > 0
            invariant
                target.len() >= old_list@.len(),
                old_list@ == target.subrange(
                    target.len() - old_list@.len(),
                    target.len() as int,
                ),
                kept@ == target.subrange(0, target.len() - old_list@.len()).filter(
                    spec_keep_pred(message_id@),
                ),
            decreases old_list@.len(),
        {
            let ghost done = target.len() - old_list@.len();
            let p = old_list.remove(0);
            proof {
                assert(p == target[done as int]);
                assert(old_list@ =~= target.subrange(done + 1, target.len() as int));
            }
            let keep_it = !crate::text::str_eq(p.message_id.as_str(), message_id);
            if keep_it {
                kept.push(p);
            }
            proof {
                let next = target.subrange(0, done + 1);
                assert(next.drop_last() =~= target.subrange(0, done));
                assert(next.last() == target[done as int]);
                reveal(Seq::filter);
                assert(kept@ =~= next.filter(spec_keep_pred(message_id@)));
            }
        }
        proof {
            assert(target.subrange(0, target.len() as int) =~= target);
        }
        self.pending_messages = kept;
    }

    /// The retry tick: every pending entry past its deadline is resent
    /// with a bumped retry count, or surfaced as permanently failed once
    /// its retries are spent; the rest wait on.
    pub fn retry_tick(&mut self, now_millis: u64) -> (r: (Vec<ClientMessage>, Vec<String>))
        ensures
            final(self).username@ == old(self).username@,
            final(self).chain_key == old(self).chain_key,
            final(self).chat_key == old(self).chat_key,
            final(self).sequence_number == old(self).sequence_number,
            ({
                let (keep, resend, failed) = spec_retry_split(
                    spec_pending_views(old(self).pending_messages@),
                    now_millis,
                );
                &&& spec_pending_views(final(self).pending_messages@) == keep
                &&& r.0@.len() == resend.len()
                &&& (forall|k: int|
                    0 <= k < resend.len() ==> (#[trigger] r.0@[k])@
                        == (ClientMessageView::SendMessage {
                        room_id: resend[k].room_id,
                        encrypted_payload: resend[k].encrypted_payload,
                        message_id: resend[k].message_id,
                    }))
                &&& r.1@.len() == failed.len()
                &&& (forall|k: int| 0 <= k < failed.len() ==> (#[trigger] r.1@[k])@ == failed[k])
            }),
    {
        let ghost target = spec_pending_views(old(self).pending_messages@);
        let mut kept: Vec<PendingMessage> = Vec::new();
        let mut resend: Vec<ClientMessage> = Vec::new();
        let mut failed: Vec<String> = Vec::new();
        let mut old_list: Vec<PendingMessage> = Vec::new();
        core::mem::swap(&mut self.pending_messages, &mut old_list);
        let n = old_list.len();
        let mut i: usize = 0;
        while i < n
            invariant
                n == old_list@.len(),
                spec_pending_views(old_list@) == target,
                i <= n,
                ({
                    let (keep, rs, fl) = spec_retry_split(
                        target.subrange(0, i as int),
                        now_millis,
                    );
                    &&& spec_pending_views(kept@) == keep
                    &&& resend@.len() == rs.len()
                    &&& (forall|k: int|
                        0 <= k < rs.len() ==> (#[trigger] resend@[k])@
                            == (ClientMessageView::SendMessage {
                            room_id: rs[k].room_id,
                            encrypted_payload: rs[k].encrypted_payload,
                            message_id: rs[k].message_id,
                        }))
                    &&& failed@.len() == fl.len()
                    &&& (forall|k: int| 0 <= k < fl.len() ==> (#[trigger] failed@[k])@ == fl[k])
                }),
            decreases n - i,
        {
            let ghost prefix = target.subrange(0, i as int);
            let p = &old_list[i];
            proof {
                assert(old_list@[i as int]@ == target[i as int]);
            }
            let elapsed = if now_millis >= p.sent_at_millis {
                now_millis - p.sent_at_millis
            } else {
                0
            };
            if elapsed >= RETRY_TIMEOUT_MILLIS {
                if p.retry_count < MAX_RETRIES {
                    let bumped = PendingMessage {
                        message_id: p.message_id.clone(),
                        room_id: p.room_id.clone(),
                        encrypted_payload: clone_bytes(&p.encrypted_payload),
                        sent_at_millis: now_millis,
                        retry_count: p.retry_count + 1,
                    };
                    resend.push(
                        ClientMessage::SendMessage {
                            room_id: p.room_id.clone(),
                            encrypted_payload: clone_bytes(&p.encrypted_payload),
                            message_id: p.message_id.clone(),
                        },
                    );
                    kept.push(bumped);
                } else {
                    failed.push(p.message_id.clone());
                }
            } else {
                kept.push(clone_pending(p));
            }
            proof {
                let next = target.subrange(0, i + 1 as int);
                assert(next.drop_last() =~= prefix);
                assert(next.last() == target[i as int]);
                assert(spec_pending_views(kept@) =~= spec_retry_split(next, now_millis).0);
            }
            i = i + 1;
        }
        proof {
            assert(target.subrange(0, n as int) =~= target);
        }
        self.pending_messages = kept;
        (resend, failed)
    }

    /// Tears the session down: the content key and chain key are
    /// overwritten with zeros and the pending queue is dropped.  The
    /// signing key erases itself when the context is dropped.
    pub fn destroy(&mut self)
        requires
            old(self).wf(),
        ensures
            final(self).wf(),
            final(self).chat_key@ == spec_zero_key(),
            final(self).chain_key.spec_key() == spec_zero_key(),
            final(self).chain_key.spec_root() == spec_zero_key(),
            final(self).pending_messages@.len() == 0,
            final(self).sequence_number == 0,
            final(self).skipped_keys@.len() == 0,
    {
        while self.skipped_keys.len() > 0
            invariant
                self.identity_key == old(self).identity_key,
            decreases self.skipped_keys@.len(),
        {
            match self.skipped_keys.pop() {
                Some(entry) => {
                    let (_, mut key) = entry;
                    crate::primitives::zeroize_bytes(&mut key);
                },
                None => {},
            }
        }
        self.chat_key.wipe();
        self.chain_key.wipe();
        self.pending_messages = Vec::new();
        self.sequence_number = 0;
    }
}

/// What one retry tick does to a pending list: entries past their deadline
/// are split into resends (bumped and restamped) and permanent failures
/// (retries spent); the rest are kept as they are.
pub open spec fn spec_retry_split(pending: Seq<PendingMessageView>, now: u64) -> (
    Seq<PendingMessageView>,
    Seq<PendingMessageView>,
    Seq<Seq<char>>,
)
    decreases pending.len(),
{
    if pending.len() == 0 {
        (Seq::empty(), Seq::empty(), Seq::empty())
    } else {
        let (keep, resend, failed) = spec_retry_split(pending.drop_last(), now);
        let p = pending.last();
        let elapsed: u64 = if now >= p.sent_at_millis {
            (now - p.sent_at_millis) as u64
        } else {
            0
        };
        if elapsed >= RETRY_TIMEOUT_MILLIS {
            if p.retry_count < MAX_RETRIES {
                let bumped = PendingMessageView {
                    message_id: p.message_id,
                    room_id: p.room_id,
                    encrypted_payload: p.encrypted_payload,
                    sent_at_millis: now,
                    retry_count: (p.retry_count + 1) as u8,
                };
                (keep.push(bumped), resend.push(bumped), failed)
            } else {
                (keep, resend, failed.push(p.message_id))
            }
        } else {
            (keep.push(p), resend, failed)
        }
    }
}

/// Whether a presented message carries the given id.
pub open spec fn spec_msg_has_id(m: ChatMessage, id: Seq<char>) -> bool {
    m.message_id matches Some(x) && x@ == id
}

/// Marks the newest presented message carrying a message id as delivered;
/// matching is by id, never by content, so two identical texts stay two
/// entries and only the addressed one is confirmed.
pub fn mark_sent(messages: &mut Vec<ChatMessage>, message_id: &str) -> (r: bool)
    ensures
        final(messages)@.len() == old(messages)@.len(),
        !r ==> final(messages)@ == old(messages)@ && (forall|i: int|
            0 <= i < old(messages)@.len() ==> !spec_msg_has_id(
                #[trigger] old(messages)@[i],
                message_id@,
            )),
        r ==> exists|i: int|
            #![auto]
            {
                &&& 0 <= i < old(messages)@.len()
                &&& spec_msg_has_id(old(messages)@[i], message_id@)
                &&& (forall|j: int|
                    i < j < old(messages)@.len() ==> !spec_msg_has_id(
                        #[trigger] old(messages)@[j],
                        message_id@,
                    ))
                &&& final(messages)@ == old(messages)@.update(i, final(messages)@[i])
                &&& final(messages)@[i].sent == true
                &&& spec_msg_has_id(final(messages)@[i], message_id@)
                &&& final(messages)@[i].username == old(messages)@[i].username
                &&& final(messages)@[i].content == old(messages)@[i].content
                &&& final(messages)@[i].timestamp == old(messages)@[i].timestamp
                &&& final(messages)@[i].verified == old(messages)@[i].verified
            },
{
    let n = messages.len();
    let mut i: usize = n;
    while i > 0
        invariant
            i <= n,
            n == messages@.len(),
            messages@ == old(messages)@,
            forall|j: int|
                i <= j < n ==> !spec_msg_has_id(#[trigger] messages@[j], message_id@),
        decreases i,
    {
        i = i - 1;
        let found = match &messages[i].message_id {
            Some(m) => crate::text::str_eq(m.as_str(), message_id),
            None => false,
        };
        if found {
            let old_msg = &messages[i];
            let updated = ChatMessage {
                username: old_msg.username.clone(),
                content: old_msg.content.clone(),
                timestamp: old_msg.timestamp,
                verified: old_msg.verified,
                sent: true,
                message_id: Some(String::from_str(message_id)),
            };
            messages.remove(i);
            messages.insert(i, updated);
            proof {
                assert(messages@ =~= old(messages)@.update(i as int, messages@[i as int]));
            }
            return true;
        }
    }
    false
}

/// Whether the auto-close countdown that started when the peer left has
/// expired.
pub fn auto_close_due(left_at_secs: u64, now_secs: u64) -> (r: bool)
    ensures
        r == (now_secs >= left_at_secs && now_secs - left_at_secs >= AUTO_CLOSE_SECS),
{
    now_secs >= left_at_secs && now_secs - left_at_secs >= AUTO_CLOSE_SECS
}

} // verus!
