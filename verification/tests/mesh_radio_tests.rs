use meshguard::ble::{AdvertisedPeripheral, MESHTASTIC_SERVICE_UUID};
use meshguard::crypto::derive_p2p_key;
use meshguard::error::MeshGuardError;
use meshguard::mesh_radio::{
    format_packet, handle_incoming_packet, records_node, incoming_action, is_meshtastic_device, node_is_online,
    select_meshtastic_devices, serial_port_infos, strip_frame_header, ConfigCollector,
    ConfigPacket, IncomingAction, MeshGuardRouter, RadioPayload, PRIVATE_APP_PORT,
};
use meshguard::protocol::MeshMessage;
use meshguard::mesh_radio::{
    bond_action, on_client_chunk, on_radio_read, BondAction, ClientChunk, ClientWrite,
    RadioWrite,
};
use meshguard::mesh_radio::{record_node_info, ClientToRadio, NodeListener, RadioToClient, WriteOutcome};
use std::collections::HashMap;


#[test]
fn format_packet_adds_magic_and_big_endian_length() {
    assert_eq!(format_packet(&[1, 2, 3]), vec![0x94, 0xc3, 0x00, 0x03, 1, 2, 3]);
    let big = vec![0xaa; 0x0123];
    let framed = format_packet(&big);
    assert_eq!(&framed[..4], &[0x94, 0xc3, 0x01, 0x23]);
    assert_eq!(framed.len(), 4 + 0x0123);
    assert_eq!(format_packet(&[]), vec![0x94, 0xc3, 0, 0]);
}

#[test]
fn format_packet_length_wraps_at_sixteen_bits() {
    let data = vec![0u8; 65536 + 2];
    let framed = format_packet(&data);
    assert_eq!(&framed[..4], &[0x94, 0xc3, 0x00, 0x02]);
}

#[test]
fn strip_frame_header_inverts_format_packet() {
    let data = [9u8, 8, 7, 6, 5];
    let framed = format_packet(&data);
    assert_eq!(strip_frame_header(&framed), &data);
    assert_eq!(strip_frame_header(&format_packet(&[1])), &[1]);
    // chunks without the magic, or too short, pass unchanged
    assert_eq!(strip_frame_header(&[1, 2, 3, 4, 5]), &[1, 2, 3, 4, 5]);
    assert_eq!(strip_frame_header(&[0x94, 0xc3, 0, 0]), &[0x94, 0xc3, 0, 0]);
}

#[test]
fn meshtastic_devices_are_recognised() {
    assert!(is_meshtastic_device("Meshtastic_1a2b", &[]));
    assert!(is_meshtastic_device("SenseCAP T1000-E", &[]));
    assert!(is_meshtastic_device("RAK4631", &[]));
    assert!(is_meshtastic_device("T-Beam Supreme", &[]));
    assert!(is_meshtastic_device("Station-G2", &[]));
    assert!(is_meshtastic_device("my radio", &[1, MESHTASTIC_SERVICE_UUID]));
    assert!(!is_meshtastic_device("Galaxy Buds", &[1, 2]));
    assert!(!is_meshtastic_device("", &[]));
}

fn peripheral(name: Option<&str>, address: &str, services: Vec<u128>) -> AdvertisedPeripheral {
    AdvertisedPeripheral {
        local_name: name.map(|s| s.to_string()),
        address: address.to_string(),
        services,
        rssi: None,
    }
}

#[test]
fn select_keeps_named_meshtastic_devices_in_order() {
    let ps = vec![
        peripheral(Some("Heltec V3"), "AA", vec![]),
        peripheral(None, "BB", vec![MESHTASTIC_SERVICE_UUID]),
        peripheral(Some(""), "CC", vec![MESHTASTIC_SERVICE_UUID]),
        peripheral(Some("Headphones"), "DD", vec![]),
        peripheral(Some("node"), "EE", vec![MESHTASTIC_SERVICE_UUID]),
    ];
    let found = select_meshtastic_devices(&ps);
    let pairs: Vec<(String, String)> =
        found.into_iter().map(|d| (d.name, d.address)).collect();
    assert_eq!(
        pairs,
        vec![
            ("Heltec V3".to_string(), "AA".to_string()),
            ("node".to_string(), "EE".to_string())
        ]
    );
}

#[test]
fn serial_port_infos_keep_names() {
    let infos = serial_port_infos(vec!["/dev/ttyUSB0".to_string(), "COM3".to_string()]);
    assert_eq!(infos.len(), 2);
    assert_eq!(infos[0].name, "/dev/ttyUSB0");
    assert_eq!(infos[1].name, "COM3");
    assert!(serial_port_infos(vec![]).is_empty());
}

#[test]
fn router_reports_its_node() {
    assert_eq!(MeshGuardRouter::new(0xdeadbeef).source_node_id(), 0xdeadbeef);
}

#[test]
fn config_handshake_collects_nodes() {
    let mut c: ConfigCollector<&'static str> = ConfigCollector::new();
    assert_eq!(c.timeout_secs(), 30);
    assert!(!c.on_packet(Some(ConfigPacket::NodeInfo {
        num: 5,
        long_name: Some("Early".to_string()),
        node: "early",
    })));
    assert_eq!(c.timeout_secs(), 10);
    assert!(!c.on_packet(Some(ConfigPacket::MyInfo { my_node_num: 7 })));
    assert!(!c.on_packet(None));
    assert!(!c.on_packet(Some(ConfigPacket::NodeInfo {
        num: 7,
        long_name: Some("Mine".to_string()),
        node: "mine",
    })));
    assert!(!c.on_packet(Some(ConfigPacket::NodeInfo { num: 8, long_name: None, node: "other" })));
    assert!(!c.on_packet(Some(ConfigPacket::Other)));
    assert!(c.on_packet(Some(ConfigPacket::ConfigComplete)));
    assert_eq!(c.packet_count, 7);
    let (num, name, nodes) = c.finish().unwrap();
    assert_eq!(num, 7);
    assert_eq!(name.as_deref(), Some("Mine"));
    assert_eq!(nodes.len(), 2);
    assert_eq!(nodes.get(&5), Some(&"early"));
    assert_eq!(nodes.get(&8), Some(&"other"));
    assert!(nodes.get(&7).is_none());
}

#[test]
fn config_handshake_without_my_info_fails() {
    let mut c: ConfigCollector<u8> = ConfigCollector::new();
    c.on_packet(Some(ConfigPacket::NodeInfo { num: 1, long_name: Some("x".into()), node: 1 }));
    match c.finish() {
        Err(MeshGuardError::MeshRadio(m)) => assert_eq!(m, "Radio did not report MyNodeInfo"),
        _ => panic!("expected MeshRadio error"),
    }
}

#[test]
fn node_online_window_is_two_hours() {
    assert!(node_is_online(1000, 1000 + 7199));
    assert!(!node_is_online(1000, 1000 + 7200));
    assert!(!node_is_online(0, 10));
    assert!(node_is_online(u32::MAX, 0));
    assert!(node_is_online(5, i64::MIN));
}

#[test]
fn incoming_action_cases() {
    let decoded = RadioPayload::Decoded { portnum: PRIVATE_APP_PORT, payload: vec![1, 2, 3] };
    assert!(matches!(
        incoming_action(9, &RadioPayload::Encrypted { len: 3 }, None, 0),
        IncomingAction::Ignore
    ));
    assert!(matches!(incoming_action(9, &RadioPayload::Absent, None, 0), IncomingAction::Ignore));
    let wrong_port = RadioPayload::Decoded { portnum: 1, payload: vec![1] };
    assert!(matches!(incoming_action(9, &wrong_port, None, 0), IncomingAction::Ignore));
    let empty = RadioPayload::Decoded { portnum: PRIVATE_APP_PORT, payload: vec![] };
    assert!(matches!(incoming_action(9, &empty, None, 0), IncomingAction::Ignore));

    let text = MeshMessage::Text { id: "m1".into(), text: "hey".into(), timestamp: 77 };
    match incoming_action(9, &decoded, Some(Ok(text)), 100) {
        IncomingAction::Deliver(e) => {
            assert_eq!(e.from_node, 9);
            assert_eq!(e.from_name, "");
            assert_eq!(e.text, "hey");
            assert_eq!(e.timestamp, 77);
            assert_eq!(e.message_id, "m1");
        }
        _ => panic!("expected Deliver"),
    }
    let accept =
        MeshMessage::PairAccept { id: "a".into(), responder_name: "Bob".into(), timestamp: 1 };
    match incoming_action(9, &decoded, Some(Ok(accept)), 100) {
        IncomingAction::PairAccepted(e) => {
            assert_eq!(e.from_name, "Bob");
            assert_eq!(e.timestamp, 100);
        }
        _ => panic!("expected PairAccepted"),
    }
    let request =
        MeshMessage::PairRequest { id: "r".into(), sender_name: "Bob".into(), timestamp: 1 };
    assert!(matches!(
        incoming_action(9, &decoded, Some(Ok(request)), 100),
        IncomingAction::AlreadyPaired
    ));
    for opened in [None, Some(Err(MeshGuardError::Decryption("x".into())))] {
        match incoming_action(9, &decoded, opened, 100) {
            IncomingAction::PendingPairRequest { from_node, payload, event } => {
                assert_eq!(from_node, 9);
                assert_eq!(payload, vec![1, 2, 3]);
                assert_eq!(event.from_node, 9);
                assert_eq!(event.from_name, "");
                assert_eq!(event.timestamp, 100);
            }
            _ => panic!("expected PendingPairRequest"),
        }
    }
}

#[test]
fn handle_incoming_packet_with_and_without_key() {
    let key = derive_p2p_key("Alice", "Bob", "pw").unwrap();
    let sealed = MeshMessage::new_text("over the mesh").encrypt_envelope(&key).unwrap();
    let packet = RadioPayload::Decoded { portnum: PRIVATE_APP_PORT, payload: sealed.clone() };
    match handle_incoming_packet(3, &packet, Some(&key)) {
        IncomingAction::Deliver(e) => {
            assert_eq!(e.text, "over the mesh");
            assert_eq!(e.from_node, 3);
            assert_eq!(e.message_id.len(), 36);
        }
        _ => panic!("expected Deliver"),
    }
    match handle_incoming_packet(3, &packet, None) {
        IncomingAction::PendingPairRequest { payload, .. } => assert_eq!(payload, sealed),
        _ => panic!("expected PendingPairRequest"),
    }
    let other = derive_p2p_key("Alice", "Bob", "other").unwrap();
    assert!(matches!(
        handle_incoming_packet(3, &packet, Some(&other)),
        IncomingAction::PendingPairRequest { .. }
    ));
    let accept = MeshMessage::new_pair_accept("Bob-Radio").encrypt_envelope(&key).unwrap();
    let packet = RadioPayload::Decoded { portnum: PRIVATE_APP_PORT, payload: accept };
    match handle_incoming_packet(3, &packet, Some(&key)) {
        IncomingAction::PairAccepted(e) => assert_eq!(e.from_name, "Bob-Radio"),
        _ => panic!("expected PairAccepted"),
    }
    let request = MeshMessage::new_pair_request("Bob-Radio").encrypt_envelope(&key).unwrap();
    let packet = RadioPayload::Decoded { portnum: PRIVATE_APP_PORT, payload: request };
    assert!(matches!(handle_incoming_packet(3, &packet, Some(&key)), IncomingAction::AlreadyPaired));
}

#[test]
fn link_decisions() {
    match on_client_chunk(ClientChunk::Data(format_packet(&[4, 5]))) {
        RadioWrite::Write(w) => assert_eq!(w, vec![4, 5]),
        _ => panic!("expected Write"),
    }
    match on_client_chunk(ClientChunk::Data(vec![1, 2])) {
        RadioWrite::Write(w) => assert_eq!(w, vec![1, 2]),
        _ => panic!("expected Write"),
    }
    assert!(matches!(on_client_chunk(ClientChunk::Idle), RadioWrite::Skip));
    assert!(matches!(on_client_chunk(ClientChunk::Closed), RadioWrite::Stop));
    assert!(matches!(on_client_chunk(ClientChunk::Failed), RadioWrite::Stop));
    match on_radio_read(Some(vec![0xaa])) {
        ClientWrite::Send(f) => assert_eq!(f, vec![0x94, 0xc3, 0, 1, 0xaa]),
        _ => panic!("expected Send"),
    }
    assert!(matches!(on_radio_read(Some(vec![])), ClientWrite::Wait));
    assert!(matches!(on_radio_read(None), ClientWrite::Stop));
    assert!(matches!(bond_action(false, true), BondAction::PairNew));
    assert!(matches!(bond_action(true, true), BondAction::UseExisting));
    assert!(matches!(bond_action(true, false), BondAction::ReplaceStale));
}

#[test]
fn listener_records_every_node_but_ours() {
    assert!(records_node(5, 7));
    assert!(!records_node(7, 7));
}

#[test]
fn radio_to_client_frames_nonempty_reads_in_order() {
    let mut link = RadioToClient::new();
    let mut sent = Vec::new();
    for read in [Some(vec![1u8, 2]), Some(vec![]), Some(vec![3u8])] {
        match link.on_radio_read(read) {
            ClientWrite::Send(f) => sent.push(f),
            ClientWrite::Wait => {}
            ClientWrite::Stop => panic!("stopped"),
        }
    }
    assert_eq!(sent, vec![vec![0x94, 0xc3, 0, 2, 1, 2], vec![0x94, 0xc3, 0, 1, 3]]);
    assert!(!link.stopped);
    assert!(matches!(link.on_radio_read(None), ClientWrite::Stop));
    assert!(link.stopped);
}

#[test]
fn client_to_radio_strips_header_and_retries_three_times() {
    let mut link = ClientToRadio::new();
    assert!(matches!(link.on_client_chunk(ClientChunk::Idle), RadioWrite::Skip));
    match link.on_client_chunk(ClientChunk::Data(vec![0x94, 0xc3, 0, 2, 7, 8])) {
        RadioWrite::Write(w) => assert_eq!(w, vec![7, 8]),
        _ => panic!("expected a write"),
    }
    match link.on_write_result(false) {
        WriteOutcome::Retry(b) => assert_eq!(b, vec![7, 8]),
        _ => panic!("expected a retry"),
    }
    assert!(matches!(link.on_write_result(false), WriteOutcome::Retry(_)));
    assert!(matches!(link.on_write_result(true), WriteOutcome::Done));
    assert!(link.pending.is_none());
    assert_eq!(link.attempts, 0);
    assert!(!link.stopped);

    match link.on_client_chunk(ClientChunk::Data(vec![5, 6])) {
        RadioWrite::Write(w) => assert_eq!(w, vec![5, 6]),
        _ => panic!("expected a write"),
    }
    assert!(matches!(link.on_write_result(false), WriteOutcome::Retry(_)));
    assert!(matches!(link.on_write_result(false), WriteOutcome::Retry(_)));
    assert!(matches!(link.on_write_result(false), WriteOutcome::GiveUp));
    assert!(link.stopped);
}

#[test]
fn client_to_radio_stops_on_closed_or_failed_stream() {
    let mut a = ClientToRadio::new();
    assert!(matches!(a.on_client_chunk(ClientChunk::Closed), RadioWrite::Stop));
    assert!(a.stopped);
    let mut b = ClientToRadio::new();
    assert!(matches!(b.on_client_chunk(ClientChunk::Failed), RadioWrite::Stop));
    assert!(b.stopped);
}

#[test]
fn listener_records_other_nodes_and_disconnects_once() {
    let mut nodes: HashMap<u32, &str> = HashMap::new();
    let mut l = NodeListener::new(7);
    assert!(!l.on_node_info(&mut nodes, 7, "me"));
    assert!(nodes.is_empty());
    assert!(l.on_node_info(&mut nodes, 9, "old"));
    assert!(l.on_node_info(&mut nodes, 9, "new"));
    assert_eq!(nodes.len(), 1);
    assert_eq!(nodes[&9], "new");
    assert!(l.on_end());
    assert!(!l.on_end());
    assert!(l.ended);

    let mut table: HashMap<u32, u8> = HashMap::new();
    assert!(!record_node_info(&mut table, 1, 1, 10));
    assert!(record_node_info(&mut table, 1, 2, 20));
    assert_eq!(table.get(&2), Some(&20));
    assert_eq!(table.len(), 1);
}
