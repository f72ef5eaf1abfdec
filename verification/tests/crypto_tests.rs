use meshguard::crypto::{derive_channel_psk, derive_p2p_key};
use meshguard::error::MeshGuardError;
use aes_gcm::aead::{Aead, KeyInit};
use sha2::Digest;

#[test]
fn p2p_key_derivation_is_symmetric() {
    // Alice's side
    let alice_key = derive_p2p_key("Alice-P1000", "Bob-P1000", "our-secret-phrase").unwrap();

    // Bob's side — same inputs but swapped my/peer
    let bob_key = derive_p2p_key("Bob-P1000", "Alice-P1000", "our-secret-phrase").unwrap();

    // Both must derive identical keys
    let msg = b"Hello from MeshGuard P2P!";
    let encrypted = alice_key.encrypt(msg).unwrap();
    let decrypted = bob_key.decrypt(&encrypted).unwrap();
    assert_eq!(&decrypted, msg);
}

#[test]
fn channel_psk_is_symmetric() {
    let psk_a = derive_channel_psk("Alice-P1000", "Bob-P1000", "our-secret").unwrap();

    let psk_b = derive_channel_psk("Bob-P1000", "Alice-P1000", "our-secret").unwrap();

    assert_eq!(psk_a, psk_b);
}

#[test]
fn different_passphrase_gives_different_key() {
    let key_a = derive_p2p_key("A", "B", "pass1").unwrap();
    let key_b = derive_p2p_key("A", "B", "pass2").unwrap();

    let msg = b"test";
    let encrypted = key_a.encrypt(msg).unwrap();
    assert!(key_b.decrypt(&encrypted).is_err());
}

#[test]
fn surrounding_white_space_in_names_is_ignored() {
    let psk_plain = derive_channel_psk("Alice", "Bob", "pw").unwrap();
    let psk_padded = derive_channel_psk("  Alice\t", "\nBob ", "pw").unwrap();
    assert_eq!(psk_plain, psk_padded);

    let key_padded = derive_p2p_key(" Alice ", "Bob", "pw").unwrap();
    let key_plain = derive_p2p_key("Alice", " Bob", "pw").unwrap();
    let sealed = key_padded.encrypt(b"x").unwrap();
    assert_eq!(key_plain.decrypt(&sealed).unwrap(), b"x".to_vec());
}

#[test]
fn passphrase_white_space_is_not_trimmed() {
    let a = derive_channel_psk("Alice", "Bob", "pw").unwrap();
    let b = derive_channel_psk("Alice", "Bob", "pw ").unwrap();
    assert_ne!(a, b);
}

#[test]
fn channel_psk_matches_sha256_of_the_pairing_material() {
    // SHA-256("meshguard-channel-psk|A|B|p"), names already in order.
    let expected: [u8; 32] = sha2::Sha256::digest(b"meshguard-channel-psk|A|B|p").into();
    assert_eq!(derive_channel_psk("B", "A", "p").unwrap(), expected);
    assert_eq!(derive_channel_psk("A", "B", "p").unwrap(), expected);
}

#[test]
fn sealed_message_layout() {
    let key = derive_p2p_key("A", "B", "p").unwrap();
    let nonce = [7u8; 12];
    let sealed = key.encrypt_with_nonce(&nonce, b"hello").unwrap();
    assert_eq!(sealed.len(), 12 + 5 + 16);
    assert_eq!(&sealed[..12], &nonce);
    assert_ne!(&sealed[12..17], b"hello");
    assert_eq!(key.decrypt(&sealed).unwrap(), b"hello".to_vec());
}

#[test]
fn encryption_uses_fresh_nonces() {
    let key = derive_p2p_key("A", "B", "p").unwrap();
    let one = key.encrypt(b"same").unwrap();
    let two = key.encrypt(b"same").unwrap();
    assert_ne!(one, two);
    assert_eq!(key.decrypt(&one).unwrap(), key.decrypt(&two).unwrap());
}

#[test]
fn decrypt_rejects_short_data() {
    let key = derive_p2p_key("A", "B", "p").unwrap();
    match key.decrypt(&[1, 2, 3]) {
        Err(MeshGuardError::Decryption(m)) => assert_eq!(m, "data too short"),
        other => panic!("unexpected {:?}", other),
    }
}

#[test]
fn decrypt_rejects_tampered_data() {
    let key = derive_p2p_key("A", "B", "p").unwrap();
    let mut sealed = key.encrypt(b"payload").unwrap();
    let last = sealed.len() - 1;
    sealed[last] ^= 1;
    match key.decrypt(&sealed) {
        Err(MeshGuardError::Decryption(m)) => assert_eq!(m, "aead::Error"),
        other => panic!("unexpected {:?}", other),
    }
}

#[test]
fn empty_plaintext_round_trips() {
    let key = derive_p2p_key("A", "B", "p").unwrap();
    let sealed = key.encrypt(b"").unwrap();
    assert_eq!(sealed.len(), 28);
    assert_eq!(key.decrypt(&sealed).unwrap(), Vec::<u8>::new());
}

#[test]
fn session_key_is_hkdf_of_the_hashed_pairing_material() {
    // ikm = SHA-256("Alice|Bob|pw"); key = HKDF-SHA-256(salt, ikm, info) into 32 bytes
    let ikm = sha2::Sha256::digest(b"Alice|Bob|pw");
    let mut expected_key = [0u8; 32];
    hkdf::Hkdf::<sha2::Sha256>::new(Some(b"meshguard-p2p-v1"), &ikm)
        .expand(b"aes-256-gcm-p2p-key", &mut expected_key)
        .unwrap();
    let nonce = [3u8; 12];
    let expected_ct = aes_gcm::Aes256Gcm::new((&expected_key).into())
        .encrypt(aes_gcm::Nonce::from_slice(&nonce), b"known answer".as_slice())
        .unwrap();

    let key = derive_p2p_key("Bob", "Alice", "pw").unwrap();
    let sealed = key.encrypt_with_nonce(&nonce, b"known answer").unwrap();
    assert_eq!(&sealed[..12], &nonce);
    assert_eq!(&sealed[12..], expected_ct.as_slice());
}

#[test]
fn only_unicode_white_space_is_trimmed() {
    let plain = derive_channel_psk("Alice", "Bob", "pw").unwrap();
    let padded = derive_channel_psk("\u{3000}Alice\u{a0}", "\u{2028}Bob\u{85}", "pw").unwrap();
    assert_eq!(plain, padded);
    // U+200B ZERO WIDTH SPACE is not White_Space
    let zero_width = derive_channel_psk("\u{200b}Alice", "Bob", "pw").unwrap();
    assert_ne!(plain, zero_width);
}

#[test]
fn name_order_follows_bytes() {
    // "B" < "a" in byte order, so both orders hash "B|a|pw"
    let expected: [u8; 32] = sha2::Sha256::digest(b"meshguard-channel-psk|B|a|pw").into();
    assert_eq!(derive_channel_psk("a", "B", "pw").unwrap(), expected);
    // a name that is a prefix of the other comes first
    let expected: [u8; 32] = sha2::Sha256::digest(b"meshguard-channel-psk|Al|Alice|pw").into();
    assert_eq!(derive_channel_psk("Alice", "Al", "pw").unwrap(), expected);
}

#[test]
fn decrypt_rejects_data_shorter_than_nonce_and_tag() {
    let key = derive_p2p_key("A", "B", "p").unwrap();
    for len in 12..28 {
        match key.decrypt(&vec![0u8; len]) {
            Err(MeshGuardError::Decryption(m)) => assert_eq!(m, "aead::Error"),
            other => panic!("unexpected {:?}", other),
        }
    }
}
