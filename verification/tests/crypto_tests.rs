use rchat_core::codes::{chat_code_to_room_id, generate_chat_code, generate_numeric_chat_code, is_numeric_code};
use rchat_core::envelope::{apply_padding, remove_padding, ChatKey};
use rchat_core::errors::CryptoError;
use rchat_core::identity::{signing_input, IdentityKey};
use rchat_core::bytes_util::constant_time_compare;
use rchat_core::ratchet::ChainKey;
use std::collections::HashSet;

fn test_key(fill: u8) -> Vec<u8> {
    vec![fill; 32]
}

#[test]
fn room_id_is_deterministic() {
    let code = "correct-horse-battery-staple";
    let a = chat_code_to_room_id(code);
    let b = chat_code_to_room_id(code);
    assert_eq!(a, b);
    assert_eq!(a.len(), 86);
}

#[test]
fn distinct_codes_get_distinct_room_ids() {
    let a = chat_code_to_room_id("alpha-code");
    let b = chat_code_to_room_id("beta-code");
    assert_ne!(a, b);
}

#[test]
fn numeric_room_id_matches_for_both_parties() {
    let a = chat_code_to_room_id("428193");
    let b = chat_code_to_room_id("428193");
    assert_eq!(a, b);
}

#[test]
fn generated_codes_have_the_documented_shapes() {
    let strong = generate_chat_code();
    assert_eq!(strong.len(), 86);
    assert!(!is_numeric_code(&strong));
    let numeric = generate_numeric_chat_code();
    assert_eq!(numeric.len(), 6);
    assert!(is_numeric_code(&numeric));
    let parsed: u64 = numeric.parse().unwrap();
    assert!((100000..=999999).contains(&parsed));
}

#[test]
fn numeric_code_detection() {
    assert!(is_numeric_code("428193"));
    assert!(is_numeric_code("000000"));
    assert!(!is_numeric_code("42819"));
    assert!(!is_numeric_code("4281934"));
    assert!(!is_numeric_code("42819a"));
    assert!(!is_numeric_code(""));
}

#[test]
fn padding_layout_is_exact() {
    let padded = apply_padding(&[0xAA, 0xBB, 0xCC]);
    // 4-byte little-endian length, data, filler up to the 256 boundary.
    assert_eq!(padded.len(), 4 + 256);
    assert_eq!(&padded[0..4], &[3, 0, 0, 0]);
    assert_eq!(&padded[4..7], &[0xAA, 0xBB, 0xCC]);
    let fill = ((256 - 3) % 256) as u8;
    assert!(padded[7..].iter().all(|b| *b == fill));

    let empty = apply_padding(&[]);
    assert_eq!(empty.len(), 4 + 256);
    assert_eq!(&empty[0..4], &[0, 0, 0, 0]);
    // a full block of filler whose value is 256 % 256 == 0
    assert!(empty[4..].iter().all(|b| *b == 0));

    let block = apply_padding(&[7u8; 256]);
    assert_eq!(block.len(), 4 + 512);
}

#[test]
fn padding_round_trips() {
    for len in [0usize, 1, 255, 256, 257, 10000] {
        let data: Vec<u8> = (0..len).map(|i| (i % 251) as u8).collect();
        let padded = apply_padding(&data);
        let back = remove_padding(&padded).unwrap();
        assert_eq!(back, data);
    }
}

#[test]
fn unpadding_rejects_bad_lengths() {
    assert!(remove_padding(&[1, 2]).is_err());
    // declared length exceeds the buffer
    assert!(remove_padding(&[200, 0, 0, 0, 1, 2, 3]).is_err());
}

#[test]
fn envelope_round_trips_across_boundary_sizes() {
    let key = ChatKey::from_key_bytes(test_key(7));
    let subkey = test_key(9);
    for len in [0usize, 1, 255, 256, 257, 10000] {
        let plaintext: Vec<u8> = (0..len).map(|i| (i % 241) as u8).collect();
        let env = key.encrypt_with_chain(&plaintext, &subkey).unwrap();
        assert_eq!(env.len(), 24 + 4 + plaintext.len().div_euclid(256) * 256 + 256 + 16);
        let back = key.decrypt_with_chain(&env, &subkey).unwrap();
        assert_eq!(back, plaintext);
    }
}

#[test]
fn envelope_hides_exact_length() {
    let key = ChatKey::from_key_bytes(test_key(7));
    let subkey = test_key(9);
    let short = key.encrypt_with_chain(b"a", &subkey).unwrap();
    let longer = key.encrypt_with_chain(&[7u8; 255], &subkey).unwrap();
    assert_eq!(short.len(), longer.len());
}

#[test]
fn decrypt_with_chain_rejects_tampering() {
    let key = ChatKey::from_key_bytes(test_key(7));
    let subkey = test_key(9);
    let mut env = key.encrypt_with_chain(b"attack at dawn", &subkey).unwrap();
    let last = env.len() - 1;
    env[last] ^= 1;
    match key.decrypt_with_chain(&env, &subkey) {
        Err(CryptoError::DecryptionFailed) => {}
        other => panic!("expected DecryptionFailed, got {:?}", other.map(|_| ())),
    }
}

#[test]
fn decrypt_with_chain_rejects_wrong_key_and_short_input() {
    let key = ChatKey::from_key_bytes(test_key(7));
    let env = key.encrypt_with_chain(b"hello", &test_key(9)).unwrap();
    assert!(key.decrypt_with_chain(&env, &test_key(10)).is_err());
    assert!(key.decrypt_with_chain(&env[0..10], &test_key(9)).is_err());
}

#[test]
fn plain_encrypt_decrypt_round_trips() {
    let key = ChatKey::from_key_bytes(test_key(3));
    let env = key.encrypt(b"no padding here").unwrap();
    assert_eq!(env.len(), 24 + 15 + 16);
    assert_eq!(key.decrypt(&env).unwrap(), b"no padding here");
    assert!(key.decrypt(&env[0..20]).is_err());
}

#[test]
fn invalid_chat_codes_are_refused() {
    match ChatKey::derive_from_code("not valid base64 !!!") {
        Err(CryptoError::InvalidChatCode) => {}
        _ => panic!("expected InvalidChatCode"),
    }
    // valid base64 of the wrong decoded length
    match ChatKey::derive_from_code("YWJj") {
        Err(CryptoError::InvalidChatCode) => {}
        _ => panic!("expected InvalidChatCode"),
    }
}

#[test]
fn ratchet_keys_do_not_repeat_across_ten_thousand_steps() {
    let mut chain = ChainKey::from_root_key(test_key(5));
    let mut seen: HashSet<Vec<u8>> = HashSet::new();
    for _ in 0..10000 {
        let subkey = chain.next();
        assert!(seen.insert(subkey), "a ratchet subkey repeated");
    }
    assert_eq!(chain.index(), 10000);
}

#[test]
fn chain_key_never_equals_an_earlier_subkey() {
    // The chain key after step n is the subkey of step n, so forward
    // secrecy asks that it differ from every earlier subkey.
    let mut chain = ChainKey::from_root_key(test_key(5));
    let mut earlier: Vec<Vec<u8>> = Vec::new();
    for _ in 0..200 {
        earlier.push(chain.next());
    }
    let current = earlier.last().unwrap().clone();
    for sub in &earlier[..earlier.len() - 1] {
        assert_ne!(&current, sub);
    }
}

#[test]
fn ratchet_is_deterministic_and_clonable() {
    let mut a = ChainKey::from_root_key(test_key(8));
    let mut b = ChainKey::from_root_key(test_key(8));
    for _ in 0..50 {
        assert_eq!(a.next(), b.next());
    }
    let mut c = a.clone_chain();
    assert_eq!(c.index(), a.index());
    assert_eq!(c.next(), b.next());
}

#[test]
fn advance_to_catches_up_but_never_rewinds() {
    let mut a = ChainKey::from_root_key(test_key(8));
    a.advance_to(7);
    assert_eq!(a.index(), 7);
    a.advance_to(3);
    assert_eq!(a.index(), 7);
    let mut b = ChainKey::from_root_key(test_key(8));
    for _ in 0..7 {
        b.next();
    }
    assert_eq!(a.next(), b.next());
}

#[test]
fn signature_binds_content_sequence_and_index() {
    let identity = IdentityKey::generate();
    let pk = identity.public_key_bytes();
    let input = signing_input(b"hello", 4, 9);
    let sig = identity.sign(&input);
    assert!(IdentityKey::verify(&pk, &input, &sig).is_ok());
    // tampering with any of content, sequence number or chain index flips
    // verification to failure
    assert!(IdentityKey::verify(&pk, &signing_input(b"hellp", 4, 9), &sig).is_err());
    assert!(IdentityKey::verify(&pk, &signing_input(b"hello", 5, 9), &sig).is_err());
    assert!(IdentityKey::verify(&pk, &signing_input(b"hello", 4, 8), &sig).is_err());
    // and so does swapping the public key
    let other = IdentityKey::generate();
    assert!(IdentityKey::verify(&other.public_key_bytes(), &input, &sig).is_err());
}

#[test]
fn verify_reports_distinct_error_kinds() {
    let identity = IdentityKey::generate();
    let input = signing_input(b"x", 0, 0);
    let sig = identity.sign(&input);
    match IdentityKey::verify(&[0u8; 31], &input, &sig) {
        Err(CryptoError::VerificationFailed) => {}
        _ => panic!("expected VerificationFailed for a short key"),
    }
    match IdentityKey::verify(&identity.public_key_bytes(), &input, &sig[..63]) {
        Err(CryptoError::InvalidSignature) => {}
        _ => panic!("expected InvalidSignature for a short signature"),
    }
}

#[test]
fn constant_time_compare_is_equality() {
    assert!(constant_time_compare(b"abc", b"abc"));
    assert!(!constant_time_compare(b"abc", b"abd"));
    assert!(!constant_time_compare(b"abc", b"ab"));
    assert!(constant_time_compare(b"", b""));
}

#[test]
fn error_messages_are_stable() {
    assert_eq!(CryptoError::InvalidChatCode.message(), "Invalid chat code");
    assert_eq!(CryptoError::DecryptionFailed.message(), "Decryption failed");
    assert_eq!(CryptoError::InvalidSignature.message(), "Invalid message signature");
}
