//! The forward-secrecy ratchet: a one-way chain of per-message subkeys.
//!
//! The chain starts from an Argon2id derivation of the chat code and steps
//! by a single-block HKDF-SHA-512 expansion whose info string carries the
//! step index.  Each step overwrites the previous chain key, so compromise
//! of the current key reveals no earlier subkey, and the index increases
//! strictly, so no subkey is produced twice.

use vstd::prelude::*;
use vstd::bytes::{spec_u64_to_le_bytes, u64_to_le_bytes};
use vstd::string::StringSliceAdditionalSpecFns;
use crate::bytes_util::{clone_bytes, zero_bytes};
use crate::errors::CryptoError;
use crate::primitives::{
    argon2id_derive, argon2id_output, hkdf_expand32, hkdf_sha512_expand32, zeroize_bytes,
};
use crate::text::lemma_encode_utf8_len;

verus! {

/// The info string of one ratchet step: the domain prefix followed by the
/// little-endian step index.
pub open spec fn spec_ratchet_info(index: u64) -> Seq<u8> {
    "rchat-v3-chain-ratchet-forward-secrecy:".spec_bytes() + spec_u64_to_le_bytes(index)
}

/// The chain key after `n` steps from a root key; the subkey of the message
/// with embedded index `i` is the chain key after `i + 1` steps.
pub open spec fn spec_chain_key_at(root: Seq<u8>, n: u64) -> Seq<u8>
    decreases n,
{
    if n == 0 {
        root
    } else {
        hkdf_sha512_expand32(
            spec_chain_key_at(root, (n - 1) as u64),
            spec_ratchet_info((n - 1) as u64),
        )
    }
}

/// The root chain key of a chat code: Argon2id (256 MiB, t=6, p=8) of the
/// code under the chain-init salt.
pub open spec fn spec_chain_root(code_bytes: Seq<u8>) -> Seq<u8> {
    argon2id_output(code_bytes, "rchat-v3-chain-key-init".spec_bytes(), 262144, 6, 8, 32)
}

/// A 32-byte all-zero key, the state a wiped chain is left in.
pub open spec fn spec_zero_key() -> Seq<u8> {
    Seq::new(32, |i: int| 0u8)
}

/// The ratchet state: the current chain key and the number of steps taken.
/// The root the chain started from is kept as ghost state so that contracts
/// can say which subkey each step returns.
pub struct ChainKey {
    key: Vec<u8>,
    index: u64,
    root: Ghost<Seq<u8>>,
}

impl ChainKey {
    /// Well-formedness: the stored key is 32 bytes and is the chain key
    /// that `spec_index` steps from the root produce.
    pub closed spec fn wf(&self) -> bool {
        self.key@.len() == 32 && self.key@ == spec_chain_key_at(self.root@, self.index)
    }

    /// The number of steps taken so far.
    pub closed spec fn spec_index(&self) -> u64 {
        self.index
    }

    /// The root key the chain started from.
    pub closed spec fn spec_root(&self) -> Seq<u8> {
        self.root@
    }

    /// The current chain key bytes.
    pub closed spec fn spec_key(&self) -> Seq<u8> {
        self.key@
    }

    /// Initializes a chain from a chat code at index zero.
    pub fn from_chat_code(chat_code: &str) -> (r: Result<ChainKey, CryptoError>)
        requires
            chat_code@.len() <= 0x3FFFFFFF,
        ensures
            r matches Ok(c) && c.wf() && c.spec_index() == 0 && c.spec_root()
                == spec_chain_root(chat_code.spec_bytes()) && c.spec_key() == c.spec_root(),
    {
        proof {
            reveal_strlit("rchat-v3-chain-key-init");
        }
        let root = derive_key_material(chat_code, "rchat-v3-chain-key-init");
        Ok(ChainKey { key: root, index: 0, root: Ghost(spec_chain_root(chat_code.spec_bytes())) })
    }

    /// Starts a chain at index zero from 32 raw root-key bytes.
    pub fn from_root_key(key: Vec<u8>) -> (r: ChainKey)
        requires
            key@.len() == 32,
        ensures
            r.wf(),
            r.spec_index() == 0,
            r.spec_root() == key@,
            r.spec_key() == key@,
    {
        ChainKey { key, index: 0, root: Ghost(key@) }
    }

    /// One ratchet step: derives the next chain key, overwrites the current
    /// one with it, and returns it as the subkey for the message whose
    /// embedded index is the pre-step index.
    pub fn next(&mut self) -> (r: Vec<u8>)
        requires
            old(self).wf(),
            old(self).spec_index() < u64::MAX,
        ensures
            final(self).wf(),
            final(self).spec_index() == old(self).spec_index() + 1,
            final(self).spec_root() == old(self).spec_root(),
            r@ == spec_chain_key_at(old(self).spec_root(), (old(self).spec_index() + 1) as u64),
            final(self).spec_key() == r@,
            r@.len() == 32,
    {
        let mut info: Vec<u8> = Vec::new();
        info.extend_from_slice("rchat-v3-chain-ratchet-forward-secrecy:".as_bytes());
        let idx_bytes = u64_to_le_bytes(self.index);
        info.extend_from_slice(idx_bytes.as_slice());
        proof {
            assert(info@ =~= spec_ratchet_info(self.index));
        }
        let new_key = hkdf_expand32(self.key.as_slice(), info.as_slice());
        zeroize_bytes(&mut self.key);
        self.key = clone_bytes(&new_key);
        self.index = self.index + 1;
        new_key
    }

    /// The current index.
    pub fn index(&self) -> (r: u64)
        ensures
            r == self.spec_index(),
    {
        self.index
    }

    /// Steps the chain forward until it reaches `target_index`; a chain
    /// already at or past the target is left unchanged.
    pub fn advance_to(&mut self, target_index: u64)
        requires
            old(self).wf(),
        ensures
            final(self).wf(),
            final(self).spec_root() == old(self).spec_root(),
            final(self).spec_index() == if old(self).spec_index() >= target_index {
                old(self).spec_index()
            } else {
                target_index
            },
            final(self).spec_key() == spec_chain_key_at(
                final(self).spec_root(),
                final(self).spec_index(),
            ),
    {
        while self.index < target_index
            invariant
                self.wf(),
                self.spec_root() == old(self).spec_root(),
                old(self).spec_index() <= self.spec_index(),
                self.spec_index() <= target_index || self.spec_index() == old(self).spec_index(),
                self.spec_key() == spec_chain_key_at(self.spec_root(), self.spec_index()),
            decreases target_index - self.index,
        {
            let _ = self.next();
        }
    }

    /// A copy of the chain that will derive the same subkeys; used by
    /// receivers to trial-step without committing the canonical chain.
    pub fn clone_chain(&self) -> (r: ChainKey)
        ensures
            r.spec_index() == self.spec_index(),
            r.spec_root() == self.spec_root(),
            r.spec_key() == self.spec_key(),
            self.wf() ==> r.wf(),
    {
        ChainKey { key: clone_bytes(&self.key), index: self.index, root: Ghost(self.root@) }
    }

    /// Overwrites the chain key with zeros and resets the chain to the
    /// zero root, so the secret state is gone but the value stays usable.
    pub fn wipe(&mut self)
        ensures
            final(self).wf(),
            final(self).spec_key() == spec_zero_key(),
            final(self).spec_root() == spec_zero_key(),
            final(self).spec_index() == 0,
    {
        zeroize_bytes(&mut self.key);
        self.key = zero_bytes(32);
        self.index = 0;
        self.root = Ghost(spec_zero_key());
    }
}

impl Clone for ChainKey {
    /// Same contract as `clone_chain`.
    fn clone(&self) -> (r: ChainKey)
        ensures
            r.spec_index() == self.spec_index(),
            r.spec_root() == self.spec_root(),
            r.spec_key() == self.spec_key(),
            self.wf() ==> r.wf(),
    {
        self.clone_chain()
    }
}

/// The shared Argon2id derivation (256 MiB, t=6, p=8, 32 bytes) of a chat
/// code under a salt.
fn derive_key_material(input: &str, salt: &str) -> (r: Vec<u8>)
    requires
        input@.len() <= 0x3FFFFFFF,
        8 <= salt@.len(),
        salt@.len() <= 0x3FFFFFF,
    ensures
        r@ == argon2id_output(input.spec_bytes(), salt.spec_bytes(), 262144, 6, 8, 32),
        r@.len() == 32,
{
    proof {
        lemma_encode_utf8_len(input@);
        lemma_encode_utf8_len(salt@);
    }
    argon2id_derive(input.as_bytes(), salt.as_bytes(), 262144, 6, 8, 32)
}

} // verus!
