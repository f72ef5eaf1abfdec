use meshguard::ble::{
    collect_scanned_devices, scanned_device, sort_scanned_devices, AdvertisedPeripheral,
    ScannedDevice, MESHTASTIC_SERVICE_UUID,
};
use meshguard::ble_plugin::scan_response;
use meshguard::ble::write_chunks;
use meshguard::ble::{position_of_uuid, FROM_RADIO_UUID, TO_RADIO_UUID};
use meshguard::ble::{position_of_text, text_equal};


fn peripheral(name: Option<&str>, address: &str, services: Vec<u128>, rssi: Option<i16>) -> AdvertisedPeripheral {
    AdvertisedPeripheral {
        local_name: name.map(|s| s.to_string()),
        address: address.to_string(),
        services,
        rssi,
    }
}

fn device(name: &str, rssi: Option<i16>, is_meshtastic: bool) -> ScannedDevice {
    ScannedDevice { name: name.to_string(), address: name.to_string(), rssi, is_meshtastic }
}

#[test]
fn scanned_device_naming_and_flags() {
    let d = scanned_device(&peripheral(None, "X", vec![], Some(-40)));
    assert_eq!(d.name, "Unknown Device");
    assert_eq!(d.address, "X");
    assert!(!d.is_meshtastic);
    let d = scanned_device(&peripheral(Some(""), "X", vec![], None));
    assert_eq!(d.name, "Unknown Device");
    let d = scanned_device(&peripheral(None, "X", vec![5], Some(-40)));
    assert_eq!(d.name, "Unknown Device");
    assert!(!d.is_meshtastic);
    assert_eq!(d.rssi, Some(-40));
    let d = scanned_device(&peripheral(Some("My P1000"), "Y", vec![], None));
    assert!(d.is_meshtastic);
    assert_eq!(d.address, "Y");
    let d = scanned_device(&peripheral(None, "Z", vec![MESHTASTIC_SERVICE_UUID], None));
    assert!(d.is_meshtastic);
    // the connection scan knows "t1000", the full scan does not
    let d = scanned_device(&peripheral(Some("T1000"), "Z", vec![], None));
    assert!(!d.is_meshtastic);
}

#[test]
fn sort_puts_meshtastic_first_then_strongest() {
    let sorted = sort_scanned_devices(vec![
        device("a", Some(-90), false),
        device("b", Some(-30), false),
        device("c", Some(-80), true),
        device("d", None, true),
        device("e", Some(-20), true),
    ]);
    let names: Vec<&str> = sorted.iter().map(|d| d.name.as_str()).collect();
    assert_eq!(names, vec!["e", "c", "d", "b", "a"]);
}

#[test]
fn sort_is_stable_for_ties() {
    let sorted = sort_scanned_devices(vec![
        device("first", Some(-50), false),
        device("x", Some(-10), false),
        device("second", Some(-50), false),
        device("third", Some(-50), false),
        device("none", None, false),
        device("minus100", Some(-100), false),
    ]);
    let names: Vec<&str> = sorted.iter().map(|d| d.name.as_str()).collect();
    assert_eq!(names, vec!["x", "first", "second", "third", "none", "minus100"]);
}

#[test]
fn collect_lists_every_peripheral_sorted() {
    let ps = vec![
        peripheral(None, "bare", vec![], Some(0)),
        peripheral(Some("phone"), "p", vec![], Some(-10)),
        peripheral(Some("Heltec"), "h", vec![], Some(-70)),
        peripheral(None, "anon", vec![9], Some(-5)),
    ];
    let listed = collect_scanned_devices(&ps);
    let addresses: Vec<&str> = listed.iter().map(|d| d.address.as_str()).collect();
    assert_eq!(addresses, vec!["h", "bare", "anon", "p"]);
    assert_eq!(listed[1].name, "Unknown Device");
    assert_eq!(listed[2].name, "Unknown Device");
}

#[test]
fn scan_response_widens_rssi() {
    let r = scan_response(vec![device("a", Some(-7), true), device("b", None, false)]);
    assert_eq!(r.devices.len(), 2);
    assert_eq!(r.devices[0].rssi, Some(-7i32));
    assert!(r.devices[0].is_meshtastic);
    assert_eq!(r.devices[1].rssi, None);
    assert_eq!(r.devices[1].name, "b");
}

#[test]
fn write_chunks_split_at_512_bytes() {
    assert!(write_chunks(&[]).is_empty());
    let data: Vec<u8> = (0..1100u32).map(|i| (i % 251) as u8).collect();
    let chunks = write_chunks(&data);
    assert_eq!(chunks.iter().map(|c| c.len()).collect::<Vec<_>>(), vec![512, 512, 76]);
    assert_eq!(chunks.concat(), data);
    assert_eq!(write_chunks(&vec![1u8; 512]).len(), 1);
    assert_eq!(write_chunks(&vec![1u8; 513]).len(), 2);
}

#[test]
fn position_of_uuid_finds_first() {
    let uuids = [1u128, TO_RADIO_UUID, FROM_RADIO_UUID, TO_RADIO_UUID];
    assert_eq!(position_of_uuid(&uuids, TO_RADIO_UUID), Some(1));
    assert_eq!(position_of_uuid(&uuids, FROM_RADIO_UUID), Some(2));
    assert_eq!(position_of_uuid(&uuids, 7), None);
}

#[test]
fn text_equal_compares_whole_texts() {
    assert!(text_equal("Meshtastic_1a2b", "Meshtastic_1a2b"));
    assert!(!text_equal("Meshtastic_1a2b", "Meshtastic_1a2"));
    assert!(!text_equal("abc", "abd"));
    assert!(text_equal("", ""));
    assert!(text_equal("héllo", "héllo"));
    assert!(!text_equal("héllo", "hello"));
}

#[test]
fn position_of_text_finds_first_present_match() {
    let names = vec![
        None,
        Some("T-Echo".to_string()),
        Some("Meshtastic_beef".to_string()),
        Some("Meshtastic_beef".to_string()),
    ];
    assert_eq!(position_of_text(&names, "Meshtastic_beef"), Some(2));
    assert_eq!(position_of_text(&names, "T-Echo"), Some(1));
    assert_eq!(position_of_text(&names, "Meshtastic"), None);
    assert_eq!(position_of_text(&names, ""), None);
    assert_eq!(position_of_text(&[], "x"), None);
    let addrs = vec![Some("AA:BB:CC:DD:EE:FF".to_string()), None, Some("11:22:33:44:55:66".to_string())];
    assert_eq!(position_of_text(&addrs, "11:22:33:44:55:66"), Some(2));
    assert_eq!(position_of_text(&addrs, "11:22:33:44:55:67"), None);
}
