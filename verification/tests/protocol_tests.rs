use meshguard::crypto::derive_p2p_key;
use meshguard::error::MeshGuardError;
use meshguard::protocol::MeshMessage;

#[test]
fn text_roundtrip() {
    let key = derive_p2p_key("Alice", "Bob", "secret").unwrap();
    let msg = MeshMessage::new_text("Hello world!");
    let encrypted = msg.encrypt_envelope(&key).unwrap();

    // Verify the encrypted payload is small enough for Meshtastic
    assert!(encrypted.len() < 200, "encrypted len = {}", encrypted.len());

    let decrypted = MeshMessage::decrypt_envelope(&encrypted, &key).unwrap();
    match decrypted {
        MeshMessage::Text { text, .. } => assert_eq!(text, "Hello world!"),
        _ => panic!("expected Text"),
    }
}

#[test]
fn pair_request_roundtrip() {
    let key = derive_p2p_key("Alice", "Bob", "secret").unwrap();
    let msg = MeshMessage::new_pair_request("Alice-Radio");
    let encrypted = msg.encrypt_envelope(&key).unwrap();
    assert!(encrypted.len() < 200);

    let decrypted = MeshMessage::decrypt_envelope(&encrypted, &key).unwrap();
    match decrypted {
        MeshMessage::PairRequest { sender_name, .. } => {
            assert_eq!(sender_name, "Alice-Radio");
        }
        _ => panic!("expected PairRequest"),
    }
}

#[test]
fn max_length_message_fits() {
    let key = derive_p2p_key("Alice", "Bob", "secret").unwrap();
    let long_text = "A".repeat(160);
    let msg = MeshMessage::new_text(&long_text);
    let encrypted = msg.encrypt_envelope(&key).unwrap();
    // 1 (type) + 160 (text) = 161 plaintext → 12 (nonce) + 161 + 16 (tag) = 189 bytes
    assert!(
        encrypted.len() <= 228,
        "160-char message = {} bytes, must fit in 228",
        encrypted.len()
    );
}

#[test]
fn wrong_key_fails() {
    let key_a = derive_p2p_key("Alice", "Bob", "secret1").unwrap();
    let key_b = derive_p2p_key("Alice", "Bob", "secret2").unwrap();
    let msg = MeshMessage::new_text("test");
    let encrypted = msg.encrypt_envelope(&key_a).unwrap();
    assert!(MeshMessage::decrypt_envelope(&encrypted, &key_b).is_err());
}

#[test]
fn pair_accept_roundtrip() {
    let key = derive_p2p_key("Alice", "Bob", "secret").unwrap();
    let encrypted = MeshMessage::new_pair_accept("Bob-Radio").encrypt_envelope(&key).unwrap();
    assert_eq!(encrypted.len(), 12 + 1 + 9 + 16);
    match MeshMessage::decrypt_envelope(&encrypted, &key).unwrap() {
        MeshMessage::PairAccept { responder_name, id, .. } => {
            assert_eq!(responder_name, "Bob-Radio");
            assert_eq!(id.len(), 36);
        }
        _ => panic!("expected PairAccept"),
    }
}

#[test]
fn wire_format_is_type_then_utf8() {
    assert_eq!(MeshMessage::new_text("hi").to_wire(), vec![0x01, b'h', b'i']);
    assert_eq!(MeshMessage::new_pair_request("A").to_wire(), vec![0x02, b'A']);
    assert_eq!(MeshMessage::new_pair_accept("").to_wire(), vec![0x03]);
    assert_eq!(MeshMessage::new_text("é").to_wire(), vec![0x01, 0xc3, 0xa9]);
}

#[test]
fn from_wire_with_builds_each_kind() {
    let m = MeshMessage::from_wire_with(&[0x01, b'o', b'k'], "id-1".to_string(), 42).unwrap();
    match m {
        MeshMessage::Text { id, text, timestamp } => {
            assert_eq!(id, "id-1");
            assert_eq!(text, "ok");
            assert_eq!(timestamp, 42);
        }
        _ => panic!("expected Text"),
    }
    let m = MeshMessage::from_wire_with(&[0x02], "x".to_string(), 0).unwrap();
    assert!(matches!(m, MeshMessage::PairRequest { ref sender_name, .. } if sender_name.is_empty()));
    let m = MeshMessage::from_wire_with(&[0x03, b'Z'], "y".to_string(), -5).unwrap();
    assert_eq!(m.id(), "y");
}

fn protocol_error(r: Result<MeshMessage, MeshGuardError>) -> String {
    match r {
        Err(MeshGuardError::Protocol(m)) => m,
        other => panic!("expected a protocol error, got {:?}", other),
    }
}

#[test]
fn from_wire_errors() {
    assert_eq!(protocol_error(MeshMessage::from_wire(&[])), "empty wire message");
    assert_eq!(
        protocol_error(MeshMessage::from_wire(&[0x07, b'a'])),
        "unknown message type: 0x07"
    );
    assert_eq!(protocol_error(MeshMessage::from_wire(&[0xab])), "unknown message type: 0xab");
    let m = protocol_error(MeshMessage::from_wire(&[0x01, 0xff]));
    assert!(m.starts_with("invalid UTF-8: "), "{m}");
    // the UTF-8 check comes before the type check
    let m = protocol_error(MeshMessage::from_wire(&[0x09, 0xc3]));
    assert!(m.starts_with("invalid UTF-8: "), "{m}");
}

#[test]
fn new_messages_get_distinct_ids() {
    let a = MeshMessage::new_text("a");
    let b = MeshMessage::new_text("a");
    assert_eq!(a.id().len(), 36);
    assert_ne!(a.id(), b.id());
}

#[test]
fn decrypt_envelope_reports_decryption_errors() {
    let key = derive_p2p_key("Alice", "Bob", "secret").unwrap();
    match MeshMessage::decrypt_envelope(&[0u8; 5], &key) {
        Err(MeshGuardError::Decryption(m)) => assert_eq!(m, "data too short"),
        other => panic!("unexpected {:?}", other),
    }
    match MeshMessage::decrypt_envelope(&[0u8; 40], &key) {
        Err(MeshGuardError::Decryption(m)) => assert_eq!(m, "aead::Error"),
        other => panic!("unexpected {:?}", other),
    }
}

#[test]
fn decrypt_envelope_reports_bad_content() {
    let key = derive_p2p_key("Alice", "Bob", "secret").unwrap();
    let sealed = key.encrypt(&[0x05, b'x']).unwrap();
    match MeshMessage::decrypt_envelope(&sealed, &key) {
        Err(MeshGuardError::Protocol(m)) => assert_eq!(m, "unknown message type: 0x05"),
        other => panic!("unexpected {:?}", other),
    }
}

#[test]
fn message_ids_are_hyphenated_uuid_v4() {
    for _ in 0..20 {
        let m = MeshMessage::new_text("x");
        let id: Vec<char> = m.id().chars().collect();
        assert_eq!(id.len(), 36);
        for (i, c) in id.iter().enumerate() {
            if i == 8 || i == 13 || i == 18 || i == 23 {
                assert_eq!(*c, '-');
            } else {
                assert!(c.is_ascii_hexdigit() && !c.is_ascii_uppercase(), "{c}");
            }
        }
        assert_eq!(id[14], '4');
        assert!(matches!(id[19], '8' | '9' | 'a' | 'b'));
    }
}
