//! Chat codes and the room-id derivation pipeline.
//!
//! A chat code is the out-of-band shared secret: either a "strong" code,
//! 64 random bytes in unpadded URL-safe base64, or a "numeric" code of
//! exactly six decimal digits.  The room id that the relay sees is derived
//! from the code by a fixed, domain-separated pipeline of BLAKE3, SHA3-512,
//! Argon2id and base64.

use vstd::prelude::*;
use vstd::string::StringSliceAdditionalSpecFns;
use crate::primitives::{
    argon2id_derive, b64url, b64url_encode, blake3_digest, blake3_hash, fill_random_bytes,
    random_u64_in, sha3_512_digest, sha3_512_hash, argon2id_output,
};
use crate::text::{dec_chars, lemma_encode_utf8_len, u64_to_dec_string};

verus! {

/// A character is one of the ten decimal digits.
pub open spec fn spec_is_digit_char(c: char) -> bool {
    48 <= c as u32 <= 57
}

/// A chat code in the numeric format: exactly six decimal digits.
pub open spec fn spec_is_numeric_code(s: Seq<char>) -> bool {
    s.len() == 6 && (forall|i: int| 0 <= i < 6 ==> spec_is_digit_char(#[trigger] s[i]))
}

/// The room id derived from the bytes of a chat code: BLAKE3 under the
/// room-id domain, then SHA3-512 under the double-hash domain, then
/// Argon2id (32 MiB, t=2, p=2, 64 bytes) with a fixed salt, then base64.
pub open spec fn spec_room_id(code_bytes: Seq<u8>) -> Seq<char> {
    b64url(
        argon2id_output(
            sha3_512_digest(
                "rchat-v3-double-hash-domain:".spec_bytes() + blake3_digest(
                    "rchat-v3-room-id-domain-sep:".spec_bytes() + code_bytes,
                ),
            ),
            "rchat-v3-room-id-salt-extreme".spec_bytes(),
            32768,
            2,
            2,
            64,
        ),
    )
}

/// Checks whether a chat code is in the six-digit numeric format.
pub fn is_numeric_code(code: &str) -> (r: bool)
    ensures
        r == spec_is_numeric_code(code@),
{
    if code.unicode_len() != 6 {
        return false;
    }
    let mut i: usize = 0;
    while i < 6
        invariant
            code@.len() == 6,
            i <= 6,
            forall|j: int| 0 <= j < i ==> spec_is_digit_char(#[trigger] code@[j]),
        decreases 6 - i,
    {
        let c = code.get_char(i);
        let u = c as u32;
        if !(48 <= u && u <= 57) {
            return false;
        }
        i = i + 1;
    }
    true
}

/// Generates a strong chat code: 64 bytes from a cryptographic RNG in
/// unpadded URL-safe base64, 86 characters long.
pub fn generate_chat_code() -> (r: String)
    ensures
        exists|b: Seq<u8>| b.len() == 64 && r@ == b64url(b),
        r@.len() == 86,
{
    let bytes = fill_random_bytes(64);
    let code = b64url_encode(bytes.as_slice());
    proof {
        assert(bytes@.len() == 64 && code@ == b64url(bytes@));
    }
    code
}

/// Generates a numeric chat code: a uniform draw from [100000, 999999],
/// rendered as six decimal digits.
pub fn generate_numeric_chat_code() -> (r: String)
    ensures
        spec_is_numeric_code(r@),
        exists|n: u64| 100000 <= n <= 999999 && r@ == dec_chars(n as nat),
{
    let n = random_u64_in(100000, 999999);
    let code = u64_to_dec_string(n);
    proof {
        lemma_six_digit_dec_chars(n);
        assert(100000 <= n <= 999999 && code@ == dec_chars(n as nat));
    }
    code
}

/// A number between 100000 and 999999 renders as six digit characters.
pub proof fn lemma_six_digit_dec_chars(n: u64)
    requires
        100000 <= n <= 999999,
    ensures
        spec_is_numeric_code(dec_chars(n as nat)),
{
    lemma_dec_chars_digits(n as nat);
    let m = n as nat;
    let m1 = m / 10;
    let m2 = m1 / 10;
    let m3 = m2 / 10;
    let m4 = m3 / 10;
    let m5 = m4 / 10;
    assert(10000 <= m1 <= 99999);
    assert(1000 <= m2 <= 9999);
    assert(100 <= m3 <= 999);
    assert(10 <= m4 <= 99);
    assert(1 <= m5 <= 9);
    assert(dec_chars(m5).len() == 1);
    assert(dec_chars(m4).len() == 2);
    assert(dec_chars(m3).len() == 3);
    assert(dec_chars(m2).len() == 4);
    assert(dec_chars(m1).len() == 5);
    assert(dec_chars(m).len() == 6);
}

/// Every character that `dec_chars` produces is a decimal digit.
pub proof fn lemma_dec_chars_digits(n: nat)
    ensures
        forall|i: int|
            0 <= i < dec_chars(n).len() ==> spec_is_digit_char(#[trigger] dec_chars(n)[i]),
    decreases n,
{
    if n < 10 {
        assert(dec_chars(n) == seq![crate::text::dec_digit(n as int)]);
        assert(spec_is_digit_char(crate::text::dec_digit(n as int)));
    } else {
        lemma_dec_chars_digits(n / 10);
        let s = dec_chars(n);
        let prefix = dec_chars(n / 10);
        assert forall|i: int| 0 <= i < s.len() implies spec_is_digit_char(#[trigger] s[i]) by {
            if i < prefix.len() {
                assert(s[i] == prefix[i]);
            } else {
                assert(s[i] == crate::text::dec_digit((n % 10) as int));
            }
        }
    }
}

/// The room-id pipeline is deterministic: two parties holding the same
/// chat code derive the same room id, with no other shared state.
pub proof fn lemma_room_id_deterministic(c1: Seq<u8>, c2: Seq<u8>)
    requires
        c1 == c2,
    ensures
        spec_room_id(c1) == spec_room_id(c2),
{
}

/// Derives the public room id from a chat code; the pipeline is
/// deterministic, so one code always maps to one room id.
pub fn chat_code_to_room_id(chat_code: &str) -> (r: String)
    ensures
        r@ == spec_room_id(chat_code.spec_bytes()),
        r@.len() == 86,
{
    let mut input: Vec<u8> = Vec::new();
    input.extend_from_slice("rchat-v3-room-id-domain-sep:".as_bytes());
    input.extend_from_slice(chat_code.as_bytes());
    proof {
        assert(input@ =~= "rchat-v3-room-id-domain-sep:".spec_bytes() + chat_code.spec_bytes());
    }
    let first = blake3_hash(input.as_slice());

    let mut second_input: Vec<u8> = Vec::new();
    second_input.extend_from_slice("rchat-v3-double-hash-domain:".as_bytes());
    second_input.extend_from_slice(first.as_slice());
    proof {
        assert(second_input@ =~= "rchat-v3-double-hash-domain:".spec_bytes() + blake3_digest(
            "rchat-v3-room-id-domain-sep:".spec_bytes() + chat_code.spec_bytes(),
        ));
    }
    let second = sha3_512_hash(second_input.as_slice());

    let salt = "rchat-v3-room-id-salt-extreme";
    proof {
        reveal_strlit("rchat-v3-room-id-salt-extreme");
        lemma_encode_utf8_len(salt@);
    }
    let third = argon2id_derive(second.as_slice(), salt.as_bytes(), 32768, 2, 2, 64);
    b64url_encode(third.as_slice())
}

} // verus!
