//! Trusted boundary to the cryptographic crates.
//!
//! Every function here is `external_body`: its body makes one call into an
//! outside crate (or std) and Verus believes the stated contract.  Results
//! that are functions of the arguments alone are given uninterpreted names
//! (`blake3_digest`, `argon2id_output`, ...) so that callers' contracts can
//! be exact without restating the algorithms.

use vstd::prelude::*;
use base64::Engine;
use chacha20poly1305::KeyInit;
use chacha20poly1305::aead::Aead;
use hmac::Mac;
use rand::Rng;
use rand::RngCore;
use sha3::Digest;
use subtle::ConstantTimeEq;
use zeroize::Zeroize;

verus! {

/// The 32-byte BLAKE3 digest of a byte string.
pub uninterp spec fn blake3_digest(input: Seq<u8>) -> Seq<u8>;

/// The 64-byte SHA3-512 digest of a byte string.
pub uninterp spec fn sha3_512_digest(input: Seq<u8>) -> Seq<u8>;

/// The Argon2id (version 0x13) output for a password, salt and cost
/// parameters, `out_len` bytes long.
pub uninterp spec fn argon2id_output(
    password: Seq<u8>,
    salt: Seq<u8>,
    m_cost: u32,
    t_cost: u32,
    p_cost: u32,
    out_len: usize,
) -> Seq<u8>;

/// The first 32 bytes of the RFC 5869 HKDF-Expand output for SHA-512,
/// that is, of HMAC-SHA-512(prk, info || 0x01).
pub uninterp spec fn hkdf_sha512_expand32(prk: Seq<u8>, info: Seq<u8>) -> Seq<u8>;

/// The URL-safe base64 encoding, without padding, of a byte string.
pub uninterp spec fn b64url(bytes: Seq<u8>) -> Seq<char>;

/// What XChaCha20-Poly1305 decryption returns for a key, nonce and
/// ciphertext: the plaintext when authentication succeeds, `None` otherwise.
pub uninterp spec fn xchacha_open(key: Seq<u8>, nonce: Seq<u8>, ct: Seq<u8>) -> Option<Seq<u8>>;

/// Relies on rand's `thread_rng().fill_bytes`: a buffer of `len` bytes from
/// a cryptographic RNG.  Nothing is promised of the contents.
#[verifier::external_body]
pub fn fill_random_bytes(len: usize) -> (r: Vec<u8>)
    ensures
        r@.len() == len,
{
    let mut bytes = vec![0u8; len];
    rand::thread_rng().fill_bytes(&mut bytes);
    bytes
}

/// Relies on rand's `thread_rng().gen_range`: a uniform draw from the
/// inclusive range.  Nothing beyond the bounds is promised.
#[verifier::external_body]
pub fn random_u64_in(lo: u64, hi: u64) -> (r: u64)
    requires
        lo <= hi,
    ensures
        lo <= r <= hi,
{
    rand::thread_rng().gen_range(lo..=hi)
}

/// Relies on blake3's `Hasher`: the BLAKE3 digest, 32 bytes.
#[verifier::external_body]
pub fn blake3_hash(data: &[u8]) -> (r: Vec<u8>)
    ensures
        r@ == blake3_digest(data@),
        r@.len() == 32,
{
    let mut hasher = blake3::Hasher::new();
    hasher.update(data);
    hasher.finalize().as_bytes().to_vec()
}

/// Relies on sha3's `Sha3_512`: the SHA3-512 digest, 64 bytes.
#[verifier::external_body]
pub fn sha3_512_hash(data: &[u8]) -> (r: Vec<u8>)
    ensures
        r@ == sha3_512_digest(data@),
        r@.len() == 64,
{
    let mut hasher = sha3::Sha3_512::new();
    hasher.update(data);
    hasher.finalize().to_vec()
}

/// Relies on argon2's `Argon2::hash_password_into` with `Algorithm::Argon2id`
/// and `Version::V0x13`.  The preconditions restate the crate's documented
/// parameter bounds, under which the call cannot fail.
#[verifier::external_body]
pub fn argon2id_derive(
    password: &[u8],
    salt: &[u8],
    m_cost: u32,
    t_cost: u32,
    p_cost: u32,
    out_len: usize,
) -> (r: Vec<u8>)
    requires
        password@.len() <= 0xFFFFFFFF,
        8 <= salt@.len() <= 0xFFFFFFFF,
        4 <= out_len <= 0xFFFFFFFF,
        1 <= t_cost,
        1 <= p_cost < 0x1000000,
        m_cost >= 8 * p_cost,
    ensures
        r@ == argon2id_output(password@, salt@, m_cost, t_cost, p_cost, out_len),
        r@.len() == out_len,
{
    let params = argon2::ParamsBuilder::new()
        .m_cost(m_cost)
        .t_cost(t_cost)
        .p_cost(p_cost)
        .output_len(out_len)
        .build()
        .expect("parameters satisfy the documented bounds");
    let argon2 = argon2::Argon2::new(argon2::Algorithm::Argon2id, argon2::Version::V0x13, params);
    let mut out = vec![0u8; out_len];
    argon2.hash_password_into(password, salt, &mut out).expect("inputs satisfy the documented bounds");
    out
}

/// Relies on hmac's `Hmac<Sha512>`: computes the single-block RFC 5869
/// HKDF-Expand, HMAC-SHA-512(prk, info || 0x01), truncated to 32 bytes.
#[verifier::external_body]
pub fn hkdf_expand32(prk: &[u8], info: &[u8]) -> (r: Vec<u8>)
    ensures
        r@ == hkdf_sha512_expand32(prk@, info@),
        r@.len() == 32,
{
    let mut mac = <hmac::Hmac<sha2::Sha512> as hmac::Mac>::new_from_slice(prk)
        .expect("HMAC accepts keys of any length");
    mac.update(info);
    mac.update(&[1u8]);
    let tag = mac.finalize().into_bytes();
    tag[..32].to_vec()
}

/// Relies on base64's `URL_SAFE_NO_PAD.encode`: the canonical unpadded
/// URL-safe encoding, 4 characters for every 3 bytes, rounded up.
#[verifier::external_body]
pub fn b64url_encode(data: &[u8]) -> (r: String)
    ensures
        r@ == b64url(data@),
        r@.len() == (4 * data@.len() + 2) / 3,
{
    base64::engine::general_purpose::URL_SAFE_NO_PAD.encode(data)
}

/// Relies on base64's `URL_SAFE_NO_PAD.decode`: with this engine padding is
/// refused and trailing bits must be zero, so decoding succeeds exactly on
/// canonical encodings and inverts `b64url`.
#[verifier::external_body]
pub fn b64url_decode(code: &str) -> (r: Option<Vec<u8>>)
    ensures
        r matches Some(b) ==> b64url(b@) == code@
            && (forall|b2: Seq<u8>| b64url(b2) == code@ ==> b2 == b@),
        r is None ==> (forall|b2: Seq<u8>| b64url(b2) != code@),
{
    base64::engine::general_purpose::URL_SAFE_NO_PAD.decode(code).ok()
}

/// Relies on chacha20poly1305's `XChaCha20Poly1305::encrypt`: the sealed
/// ciphertext is 16 bytes (one Poly1305 tag) longer than the plaintext and
/// opens back to the plaintext under the same key and nonce.  The crate
/// fails only on plaintexts of at least 2^38 bytes, which the precondition
/// rules out.
#[verifier::external_body]
pub fn xchacha_seal(key: &[u8], nonce: &[u8], plaintext: &[u8]) -> (r: Vec<u8>)
    requires
        key@.len() == 32,
        nonce@.len() == 24,
        plaintext@.len() <= 0x100000000,
    ensures
        r@.len() == plaintext@.len() + 16,
        xchacha_open(key@, nonce@, r@) == Some(plaintext@),
{
    let cipher = chacha20poly1305::XChaCha20Poly1305::new_from_slice(key)
        .expect("key is 32 bytes");
    let nonce_array: [u8; 24] = nonce.try_into().expect("nonce is 24 bytes");
    cipher
        .encrypt(&chacha20poly1305::XNonce::from(nonce_array), plaintext)
        .expect("plaintext is far below the cipher's limit")
}

/// Relies on chacha20poly1305's `XChaCha20Poly1305::decrypt`: authenticated
/// decryption is a deterministic function of key, nonce and ciphertext, and
/// yields 16 bytes fewer than the ciphertext when it succeeds.
#[verifier::external_body]
pub fn xchacha_open_exec(key: &[u8], nonce: &[u8], ct: &[u8]) -> (r: Option<Vec<u8>>)
    requires
        key@.len() == 32,
        nonce@.len() == 24,
    ensures
        r matches Some(p) ==> xchacha_open(key@, nonce@, ct@) == Some(p@)
            && p@.len() + 16 == ct@.len(),
        r is None ==> xchacha_open(key@, nonce@, ct@) is None,
{
    let cipher = chacha20poly1305::XChaCha20Poly1305::new_from_slice(key)
        .expect("key is 32 bytes");
    let nonce_array: [u8; 24] = nonce.try_into().expect("nonce is 24 bytes");
    cipher.decrypt(&chacha20poly1305::XNonce::from(nonce_array), ct).ok()
}

/// Relies on subtle's `ConstantTimeEq` for byte slices: the comparison is
/// equality, evaluated without data-dependent timing (it short-circuits
/// only on a length mismatch).
#[verifier::external_body]
pub fn ct_eq_bytes(a: &[u8], b: &[u8]) -> (r: bool)
    ensures
        r == (a@ == b@),
{
    a.ct_eq(b).into()
}

/// Relies on zeroize's `Zeroize for Vec<u8>`: the buffer and its spare
/// capacity are overwritten with zeros and the vector is cleared.
#[verifier::external_body]
pub fn zeroize_bytes(v: &mut Vec<u8>)
    ensures
        final(v)@.len() == 0,
    no_unwind
{
    v.zeroize();
}

/// Relies on `String::from_utf8`: succeeds exactly on valid UTF-8 and
/// decodes those bytes.
#[verifier::external_body]
pub fn bytes_to_string(b: Vec<u8>) -> (r: Option<String>)
    ensures
        r matches Some(s) ==> vstd::utf8::valid_utf8(b@) && s@ == vstd::utf8::decode_utf8(b@),
        r is None ==> !vstd::utf8::valid_utf8(b@),
{
    String::from_utf8(b).ok()
}

} // verus!
