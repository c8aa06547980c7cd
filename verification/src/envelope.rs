//! Content-key derivation and the AEAD envelope.
//!
//! A `ChatKey` holds the 256-bit content key derived from a chat code by
//! Argon2id.  Envelopes are XChaCha20-Poly1305 with a random 24-byte nonce;
//! before encryption the plaintext is prefixed with its 4-byte little-endian
//! length and padded with a constant byte to the next 256-byte boundary, so
//! the ciphertext length hides the message length.

use vstd::prelude::*;
use vstd::bytes::{spec_u32_from_le_bytes, spec_u32_to_le_bytes, u32_from_le_bytes, u32_to_le_bytes};
use vstd::string::StringSliceAdditionalSpecFns;
use crate::errors::CryptoError;
use crate::codes::spec_is_numeric_code;
use crate::primitives::{
    argon2id_derive, argon2id_output, b64url, b64url_decode, blake3_digest, blake3_hash,
    fill_random_bytes, xchacha_open, xchacha_open_exec, xchacha_seal,
};
use crate::text::lemma_encode_utf8_len;

verus! {

/// The largest plaintext that the padding scheme accepts: the length must
/// fit the 4-byte header and the padded buffer must fit a `u32`.
pub const MAX_PAD_INPUT_LEN: usize = 0xFFFFFB00;

/// The padded form of a plaintext: its length in 4 little-endian bytes,
/// the plaintext, then constant filler up to the next 256-byte boundary.
pub open spec fn spec_pad(data: Seq<u8>) -> Seq<u8> {
    spec_u32_to_le_bytes(data.len() as u32) + data + Seq::new(
        spec_pad_fill_len(data.len() as int) as nat,
        |i: int| spec_pad_fill_byte(data.len() as int),
    )
}

/// How many filler bytes padding appends: up to the next 256-byte boundary,
/// and a full block when the length is already a multiple of 256.
pub open spec fn spec_pad_fill_len(n: int) -> int {
    (n / 256 + 1) * 256 - n
}

/// The filler byte value: the filler length reduced mod 256.
pub open spec fn spec_pad_fill_byte(n: int) -> u8 {
    (spec_pad_fill_len(n) % 256) as u8
}

/// What unpadding yields: the declared prefix of the buffer, or nothing
/// when the buffer is shorter than the header or the declared length.
pub open spec fn spec_unpad(padded: Seq<u8>) -> Option<Seq<u8>> {
    if padded.len() < 4 {
        None
    } else {
        let n = spec_u32_from_le_bytes(padded.subrange(0, 4)) as int;
        if n + 4 > padded.len() {
            None
        } else {
            Some(padded.subrange(4, 4 + n))
        }
    }
}

/// What opening an envelope under a key yields: `None` for a truncated
/// envelope, a failed authentication, or a bad length header.
pub open spec fn spec_open_envelope(key: Seq<u8>, env: Seq<u8>) -> Option<Seq<u8>> {
    if env.len() < 24 {
        None
    } else {
        match xchacha_open(key, env.subrange(0, 24), env.subrange(24, env.len() as int)) {
            Some(padded) => spec_unpad(padded),
            None => None,
        }
    }
}

/// Prefixes the plaintext with its length and pads to the next 256-byte
/// boundary, exactly as `spec_pad` states.
pub fn apply_padding(data: &[u8]) -> (r: Vec<u8>)
    requires
        data@.len() <= MAX_PAD_INPUT_LEN,
    ensures
        r@ == spec_pad(data@),
        r@.len() == 4 + data@.len() + spec_pad_fill_len(data@.len() as int),
{
    let n = data.len();
    let padded_len = (n / 256 + 1) * 256;
    let fill = ((padded_len - n) % 256) as u8;
    let mut out = u32_to_le_bytes(n as u32);
    out.extend_from_slice(data);
    let ghost before = out@;
    out.resize(padded_len + 4, fill);
    proof {
        let target = spec_pad(data@);
        assert(fill == spec_pad_fill_byte(n as int));
        assert(out@.len() == target.len());
        assert forall|i: int| 0 <= i < out@.len() implies out@[i] == target[i] by {
            if i < before.len() {
                assert(out@.subrange(0, before.len() as int)[i] == out@[i]);
            } else {
                assert(vstd::pervasive::cloned::<u8>(fill, out@[i]));
            }
        }
        assert(out@ =~= target);
    }
    out
}

/// Recovers the plaintext from a padded buffer, exactly as `spec_unpad`
/// states; a malformed buffer is a decryption failure.
pub fn remove_padding(padded: &[u8]) -> (r: Result<Vec<u8>, CryptoError>)
    ensures
        r matches Ok(p) ==> spec_unpad(padded@) == Some(p@),
        r matches Err(e) ==> spec_unpad(padded@) is None && e == CryptoError::DecryptionFailed,
{
    if padded.len() < 4 {
        return Err(CryptoError::DecryptionFailed);
    }
    let header = vstd::slice::slice_subrange(padded, 0, 4);
    let n = u32_from_le_bytes(header) as usize;
    if n > padded.len() - 4 {
        return Err(CryptoError::DecryptionFailed);
    }
    let body = vstd::slice::slice_subrange(padded, 4, 4 + n);
    Ok(vstd::slice::slice_to_vec(body))
}

/// Unpadding inverts padding: every plaintext the scheme accepts comes back
/// exactly from its padded form.
pub proof fn lemma_unpad_pad(data: Seq<u8>)
    requires
        data.len() <= MAX_PAD_INPUT_LEN,
    ensures
        spec_unpad(spec_pad(data)) == Some(data),
{
    let padded = spec_pad(data);
    vstd::bytes::lemma_auto_spec_u32_to_from_le_bytes();
    assert(padded.subrange(0, 4) =~= spec_u32_to_le_bytes(data.len() as u32));
    assert(spec_u32_from_le_bytes(padded.subrange(0, 4)) == data.len() as u32);
    assert(padded.subrange(4, 4 + data.len() as int) =~= data);
}

/// Round trip: an envelope whose ciphertext opens to the padded form of a
/// plaintext yields back exactly that plaintext.  `encrypt_with_chain`
/// ensures its result opens that way under the subkey it was sealed with,
/// and `decrypt_with_chain` returns whatever `spec_open_envelope` yields,
/// so a message encrypted under a ratchet subkey decrypts to itself under
/// the same subkey, whatever the plaintext and whatever the index.
pub proof fn lemma_envelope_round_trip(key: Seq<u8>, env: Seq<u8>, plaintext: Seq<u8>)
    requires
        plaintext.len() <= MAX_PAD_INPUT_LEN,
        env.len() >= 24,
        xchacha_open(key, env.subrange(0, 24), env.subrange(24, env.len() as int)) == Some(
            spec_pad(plaintext),
        ),
    ensures
        spec_open_envelope(key, env) == Some(plaintext),
{
    lemma_unpad_pad(plaintext);
}

/// A derived 256-bit content key; the view is the key bytes.
pub struct ChatKey {
    key: Vec<u8>,
}

impl View for ChatKey {
    type V = Seq<u8>;

    closed spec fn view(&self) -> Seq<u8> {
        self.key@
    }
}

/// The numeric-code expansion: Argon2id (512 MiB, t=8, p=4, 64 bytes) of
/// the six digit characters under the numeric salt.
pub open spec fn spec_numeric_secret(code_bytes: Seq<u8>) -> Seq<u8> {
    argon2id_output(code_bytes, "rchat-v3-numeric-extreme-salt".spec_bytes(), 524288, 8, 4, 64)
}

/// The 64 bytes a strong code decodes to (unique when it exists).
pub open spec fn spec_strong_code_bytes(code: Seq<char>) -> Seq<u8> {
    choose|b: Seq<u8>| b.len() == 64 && b64url(b) == code
}

/// A chat code the key derivation accepts: six digits, or the unpadded
/// URL-safe base64 of exactly 64 bytes.
pub open spec fn spec_code_valid(code: Seq<char>) -> bool {
    spec_is_numeric_code(code) || (exists|b: Seq<u8>| b.len() == 64 && b64url(b) == code)
}

/// The normalized secret of a chat code: the Argon2id expansion of a
/// numeric code, or the decoded bytes of a strong code.
pub open spec fn spec_secret_of_code(code: &str) -> Seq<u8> {
    if spec_is_numeric_code(code@) {
        spec_numeric_secret(code.spec_bytes())
    } else {
        spec_strong_code_bytes(code@)
    }
}

/// The content key of a normalized secret: Argon2id (256 MiB, t=6, p=8,
/// 32 bytes) under a salt drawn from BLAKE3 of the secret.
pub open spec fn spec_content_key(secret: Seq<u8>) -> Seq<u8> {
    argon2id_output(
        secret,
        blake3_digest("rchat-v3-e2ee-salt-domain:".spec_bytes() + secret).subrange(0, 32),
        262144,
        6,
        8,
        32,
    )
}

impl ChatKey {
    /// Well-formedness: the key is 32 bytes.
    pub closed spec fn wf(&self) -> bool {
        self.key@.len() == 32
    }

    /// Derives the content key from a chat code.  A numeric code is first
    /// expanded by the deliberately expensive Argon2id parameters; any other
    /// code must decode to exactly 64 bytes, else `InvalidChatCode`.
    pub fn derive_from_code(chat_code: &str) -> (r: Result<ChatKey, CryptoError>)
        ensures
            r matches Ok(k) ==> k.wf() && spec_code_valid(chat_code@) && k@ == spec_content_key(
                spec_secret_of_code(chat_code),
            ),
            r matches Err(e) ==> !spec_code_valid(chat_code@) && e == CryptoError::InvalidChatCode,
    {
        let chat_secret: Vec<u8> = if crate::codes::is_numeric_code(chat_code) {
            let salt = "rchat-v3-numeric-extreme-salt";
            proof {
                reveal_strlit("rchat-v3-numeric-extreme-salt");
                lemma_encode_utf8_len(salt@);
                lemma_encode_utf8_len(chat_code@);
            }
            argon2id_derive(chat_code.as_bytes(), salt.as_bytes(), 524288, 8, 4, 64)
        } else {
            match b64url_decode(chat_code) {
                Some(decoded) => {
                    if decoded.len() != 64 {
                        proof {
                            assert forall|b: Seq<u8>| !(b.len() == 64 && b64url(b) == chat_code@)
                            by {
                                if b64url(b) == chat_code@ {
                                    assert(b == decoded@);
                                }
                            }
                        }
                        return Err(CryptoError::InvalidChatCode);
                    }
                    proof {
                        assert(spec_strong_code_bytes(chat_code@) == decoded@);
                    }
                    decoded
                },
                None => {
                    return Err(CryptoError::InvalidChatCode);
                },
            }
        };
        let mut chat_secret = chat_secret;
        let key = Self::content_key_of_secret(&chat_secret);
        crate::primitives::zeroize_bytes(&mut chat_secret);
        Ok(ChatKey { key })
    }

    /// The final Argon2id derivation shared by both code formats.
    fn content_key_of_secret(secret: &Vec<u8>) -> (r: Vec<u8>)
        requires
            secret@.len() == 64,
        ensures
            r@ == spec_content_key(secret@),
            r@.len() == 32,
    {
        let mut salt_input: Vec<u8> = Vec::new();
        salt_input.extend_from_slice("rchat-v3-e2ee-salt-domain:".as_bytes());
        salt_input.extend_from_slice(secret.as_slice());
        proof {
            assert(salt_input@ =~= "rchat-v3-e2ee-salt-domain:".spec_bytes() + secret@);
        }
        let mut salt = blake3_hash(salt_input.as_slice());
        salt.truncate(32);
        let key = argon2id_derive(secret.as_slice(), salt.as_slice(), 262144, 6, 8, 32);
        crate::primitives::zeroize_bytes(&mut salt_input);
        crate::primitives::zeroize_bytes(&mut salt);
        key
    }

    /// Wraps 32 raw key bytes as a content key.
    pub fn from_key_bytes(key: Vec<u8>) -> (r: ChatKey)
        requires
            key@.len() == 32,
        ensures
            r.wf(),
            r@ == key@,
    {
        ChatKey { key }
    }

    /// Overwrites the content key with zeros; the value stays well-formed
    /// but no longer holds the secret.
    pub fn wipe(&mut self)
        ensures
            final(self).wf(),
            final(self)@ == Seq::new(32, |i: int| 0u8),
    {
        crate::primitives::zeroize_bytes(&mut self.key);
        self.key = crate::bytes_util::zero_bytes(32);
    }

    /// Seals a plaintext under the content key: a fresh random 24-byte
    /// nonce followed by the ciphertext and tag.  No padding is applied.
    pub fn encrypt(&self, plaintext: &[u8]) -> (r: Result<Vec<u8>, CryptoError>)
        requires
            self.wf(),
            plaintext@.len() <= 0x100000000,
        ensures
            r matches Ok(env) ==> env@.len() == plaintext@.len() + 40 && xchacha_open(
                self@,
                env@.subrange(0, 24),
                env@.subrange(24, env@.len() as int),
            ) == Some(plaintext@),
            r is Ok,
    {
        Ok(seal_envelope(self.key.as_slice(), plaintext))
    }

    /// Opens an envelope sealed with `encrypt`: fails with
    /// `DecryptionFailed` on a short envelope or a bad tag.
    pub fn decrypt(&self, encrypted: &[u8]) -> (r: Result<Vec<u8>, CryptoError>)
        requires
            self.wf(),
        ensures
            r matches Ok(p) ==> encrypted@.len() >= 24 && xchacha_open(
                self@,
                encrypted@.subrange(0, 24),
                encrypted@.subrange(24, encrypted@.len() as int),
            ) == Some(p@),
            r matches Err(e) ==> e == CryptoError::DecryptionFailed && (encrypted@.len() < 24
                || xchacha_open(
                self@,
                encrypted@.subrange(0, 24),
                encrypted@.subrange(24, encrypted@.len() as int),
            ) is None),
    {
        if encrypted.len() < 24 {
            return Err(CryptoError::DecryptionFailed);
        }
        let nonce = vstd::slice::slice_subrange(encrypted, 0, 24);
        let ct = vstd::slice::slice_subrange(encrypted, 24, encrypted.len());
        match xchacha_open_exec(self.key.as_slice(), nonce, ct) {
            Some(p) => Ok(p),
            None => Err(CryptoError::DecryptionFailed),
        }
    }

    /// Seals a plaintext under a ratchet subkey instead of the content key,
    /// padding it first so the envelope length hides the message length.
    pub fn encrypt_with_chain(&self, plaintext: &[u8], chain_key: &[u8]) -> (r: Result<
        Vec<u8>,
        CryptoError,
    >)
        requires
            chain_key@.len() == 32,
            plaintext@.len() <= MAX_PAD_INPUT_LEN,
        ensures
            r matches Ok(env) ==> env@.len() == 40 + spec_pad(plaintext@).len() && xchacha_open(
                chain_key@,
                env@.subrange(0, 24),
                env@.subrange(24, env@.len() as int),
            ) == Some(spec_pad(plaintext@)) && spec_open_envelope(chain_key@, env@) == Some(
                plaintext@,
            ),
            r is Ok,
    {
        let padded = apply_padding(plaintext);
        let env = seal_envelope(chain_key, padded.as_slice());
        proof {
            lemma_unpad_pad(plaintext@);
        }
        Ok(env)
    }

    /// Opens an envelope sealed under a ratchet subkey and strips the
    /// padding; every failure is `DecryptionFailed`.
    pub fn decrypt_with_chain(&self, encrypted: &[u8], chain_key: &[u8]) -> (r: Result<
        Vec<u8>,
        CryptoError,
    >)
        requires
            chain_key@.len() == 32,
        ensures
            r matches Ok(p) ==> spec_open_envelope(chain_key@, encrypted@) == Some(p@),
            r matches Err(e) ==> e == CryptoError::DecryptionFailed && spec_open_envelope(
                chain_key@,
                encrypted@,
            ) is None,
    {
        if encrypted.len() < 24 {
            return Err(CryptoError::DecryptionFailed);
        }
        let nonce = vstd::slice::slice_subrange(encrypted, 0, 24);
        let ct = vstd::slice::slice_subrange(encrypted, 24, encrypted.len());
        match xchacha_open_exec(chain_key, nonce, ct) {
            Some(padded) => remove_padding(padded.as_slice()),
            None => Err(CryptoError::DecryptionFailed),
        }
    }
}

/// Seals one buffer under one key with a fresh random nonce.
fn seal_envelope(key: &[u8], body: &[u8]) -> (r: Vec<u8>)
    requires
        key@.len() == 32,
        body@.len() <= 0x100000000,
    ensures
        r@.len() == body@.len() + 40,
        r@.subrange(0, 24).len() == 24,
        xchacha_open(key@, r@.subrange(0, 24), r@.subrange(24, r@.len() as int)) == Some(body@),
{
    let nonce = fill_random_bytes(24);
    let ct = xchacha_seal(key, nonce.as_slice(), body);
    let mut env = nonce;
    env.extend_from_slice(ct.as_slice());
    proof {
        assert(env@.subrange(0, 24) =~= nonce@);
        assert(env@.subrange(24, env@.len() as int) =~= ct@);
    }
    env
}

} // verus!
