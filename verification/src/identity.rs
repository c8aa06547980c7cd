//! Per-session Ed25519 identity and the canonical signing input.
//!
//! Every outbound payload is signed over `content || LE64(sequence_number)
//! || LE64(chain_key_index)`, which binds a message to its position in the
//! sender's sequence and to its ratchet index.  That concatenation is
//! injective (`lemma_signing_input_injective`), so tampering with any of
//! the three parts changes the signed bytes.

use vstd::prelude::*;
use vstd::bytes::{spec_u64_to_le_bytes, u64_to_le_bytes, lemma_auto_spec_u64_to_from_le_bytes};
use vstd::bytes::spec_u64_from_le_bytes;
use crate::errors::CryptoError;
use ed25519_dalek::Signer;
use ed25519_dalek::Verifier;

verus! {

#[verifier::external_type_specification]
#[verifier::external_body]
pub struct ExSigningKey(ed25519_dalek::SigningKey);

#[verifier::external_type_specification]
#[verifier::external_body]
pub struct ExVerifyingKey(ed25519_dalek::VerifyingKey);

/// Whether 32 bytes decompress to a valid Ed25519 verifying key.
pub uninterp spec fn ed25519_pk_valid(pk: Seq<u8>) -> bool;

/// Whether Ed25519 verification accepts the triple of a 32-byte public
/// key, a message and a 64-byte signature.
pub uninterp spec fn ed25519_verifies(pk: Seq<u8>, msg: Seq<u8>, sig: Seq<u8>) -> bool;

/// The canonical signing input of a message: the content bytes, then the
/// sender's sequence number and the ratchet index, each in 8 little-endian
/// bytes.
pub open spec fn spec_signing_input(
    content: Seq<u8>,
    sequence_number: u64,
    chain_key_index: u64,
) -> Seq<u8> {
    content + spec_u64_to_le_bytes(sequence_number) + spec_u64_to_le_bytes(chain_key_index)
}

/// Builds the canonical signing input.
pub fn signing_input(content: &[u8], sequence_number: u64, chain_key_index: u64) -> (r: Vec<u8>)
    ensures
        r@ == spec_signing_input(content@, sequence_number, chain_key_index),
{
    let mut out: Vec<u8> = Vec::new();
    out.extend_from_slice(content);
    let seq_bytes = u64_to_le_bytes(sequence_number);
    out.extend_from_slice(seq_bytes.as_slice());
    let idx_bytes = u64_to_le_bytes(chain_key_index);
    out.extend_from_slice(idx_bytes.as_slice());
    proof {
        assert(out@ =~= spec_signing_input(content@, sequence_number, chain_key_index));
    }
    out
}

/// The signing input determines the content, sequence number and chain
/// index: two distinct triples never sign the same bytes, so a signature
/// over this input binds all three.
pub proof fn lemma_signing_input_injective(
    c1: Seq<u8>,
    s1: u64,
    i1: u64,
    c2: Seq<u8>,
    s2: u64,
    i2: u64,
)
    requires
        spec_signing_input(c1, s1, i1) == spec_signing_input(c2, s2, i2),
    ensures
        c1 == c2,
        s1 == s2,
        i1 == i2,
{
    lemma_auto_spec_u64_to_from_le_bytes();
    let a = spec_signing_input(c1, s1, i1);
    let n = c1.len() as int;
    assert(spec_u64_to_le_bytes(s1).len() == 8);
    assert(spec_u64_to_le_bytes(s2).len() == 8);
    assert(spec_u64_to_le_bytes(i1).len() == 8);
    assert(spec_u64_to_le_bytes(i2).len() == 8);
    assert(a.len() == c1.len() + 16);
    assert(a == spec_signing_input(c2, s2, i2));
    assert(spec_signing_input(c2, s2, i2).len() == c2.len() + 16);
    assert(c2.len() as int == n);
    assert(c1 =~= a.subrange(0, n));
    assert(c2 =~= a.subrange(0, n));
    assert(spec_u64_to_le_bytes(s1) =~= a.subrange(n, n + 8));
    assert(spec_u64_to_le_bytes(s2) =~= a.subrange(n, n + 8));
    assert(s1 == spec_u64_from_le_bytes(spec_u64_to_le_bytes(s1)));
    assert(s2 == spec_u64_from_le_bytes(spec_u64_to_le_bytes(s2)));
    assert(spec_u64_to_le_bytes(i1) =~= a.subrange(n + 8, n + 16));
    assert(spec_u64_to_le_bytes(i2) =~= a.subrange(n + 8, n + 16));
    assert(i1 == spec_u64_from_le_bytes(spec_u64_to_le_bytes(i1)));
    assert(i2 == spec_u64_from_le_bytes(spec_u64_to_le_bytes(i2)));
}

/// A per-session Ed25519 keypair.  The bytes of the verifying key are kept
/// alongside it so contracts can bind signatures to this identity.
pub struct IdentityKey {
    signing_key: ed25519_dalek::SigningKey,
    verifying_key: ed25519_dalek::VerifyingKey,
    pk: Vec<u8>,
}

impl IdentityKey {
    /// The 32 bytes of this identity's verifying key.
    pub closed spec fn spec_pk(&self) -> Seq<u8> {
        self.pk@
    }

    /// Relies on ed25519_dalek's `SigningKey::generate` over rand's OS RNG
    /// and on `verifying_key`: a fresh keypair whose public half is a valid
    /// 32-byte verifying key.  Nothing is promised about which key.
    #[verifier::external_body]
    pub fn generate() -> (r: IdentityKey)
        ensures
            r.spec_pk().len() == 32,
            ed25519_pk_valid(r.spec_pk()),
    {
        let signing_key = ed25519_dalek::SigningKey::generate(&mut rand::rngs::OsRng);
        let verifying_key = signing_key.verifying_key();
        let pk = verifying_key.to_bytes().to_vec();
        IdentityKey { signing_key, verifying_key, pk }
    }

    /// The verifying half, to embed in outbound payloads.
    pub fn public_key(&self) -> &ed25519_dalek::VerifyingKey {
        &self.verifying_key
    }

    /// The verifying key as bytes, to embed in outbound payloads.
    pub fn public_key_bytes(&self) -> (r: Vec<u8>)
        ensures
            r@ == self.spec_pk(),
    {
        crate::bytes_util::clone_bytes(&self.pk)
    }

    /// Relies on ed25519_dalek's `SigningKey::sign` (RFC 8032): a 64-byte
    /// signature that verification accepts under this keypair's public key.
    #[verifier::external_body]
    pub fn sign(&self, message: &[u8]) -> (r: Vec<u8>)
        ensures
            r@.len() == 64,
            ed25519_verifies(self.spec_pk(), message@, r@),
    {
        self.signing_key.sign(message).to_bytes().to_vec()
    }

    /// Relies on ed25519_dalek's `VerifyingKey::from_bytes` and `verify`:
    /// verification is a deterministic function of key bytes, message and
    /// signature bytes.  A key that is not 32 bytes or does not decompress
    /// is `VerificationFailed`; a signature that is not 64 bytes or is
    /// rejected is `InvalidSignature`.
    #[verifier::external_body]
    pub fn verify(
        public_key_bytes: &[u8],
        message: &[u8],
        signature_bytes: &[u8],
    ) -> (r: Result<(), CryptoError>)
        ensures
            r is Ok == (public_key_bytes@.len() == 32 && ed25519_pk_valid(public_key_bytes@)
                && signature_bytes@.len() == 64 && ed25519_verifies(
                public_key_bytes@,
                message@,
                signature_bytes@,
            )),
            r matches Err(e) ==> (e == CryptoError::VerificationFailed) == (
            public_key_bytes@.len() != 32 || !ed25519_pk_valid(public_key_bytes@)),
            r matches Err(e) ==> e == CryptoError::VerificationFailed || e
                == CryptoError::InvalidSignature,
    {
        let public_key_array: [u8; 32] = match public_key_bytes.try_into() {
            Ok(a) => a,
            Err(_) => return Err(CryptoError::VerificationFailed),
        };
        let verifying_key = match ed25519_dalek::VerifyingKey::from_bytes(&public_key_array) {
            Ok(k) => k,
            Err(_) => return Err(CryptoError::VerificationFailed),
        };
        let signature_array: [u8; 64] = match signature_bytes.try_into() {
            Ok(a) => a,
            Err(_) => return Err(CryptoError::InvalidSignature),
        };
        let signature = ed25519_dalek::Signature::from_bytes(&signature_array);
        verifying_key.verify(message, &signature).map_err(|_| CryptoError::InvalidSignature)
    }
}

} // verus!
