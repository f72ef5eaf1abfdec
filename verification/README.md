# MeshGuard

A peer-to-peer encrypted messenger for Meshtastic devices. Two peers enter
each other's device name and a passphrase agreed on in person; both derive
the same AES-256 session key, and their messages travel sealed with
AES-256-GCM over the LoRa mesh.

## Layout

- `src/` — the verified library (Verus):
  - `crypto.rs` — key and channel-PSK derivation (SHA-256, HKDF), sealing and
    opening with AES-256-GCM; the derivation is proved symmetric in the two
    device names.
  - `protocol.rs` — the messages, their compact wire format and the encrypted
    envelope; parsing the wire form of a message gives it back.
  - `mesh_radio.rs` — stream framing of the radio link and the two halves of
    the BLE polling link (every non-empty read framed in order; every chunk
    written without its header, at most three attempts each), recognition of
    Meshtastic devices, the configuration handshake, the listener's node
    table and disconnect notice, and the decision taken for every packet
    that arrives from the mesh.
  - `ble.rs`, `ble_plugin.rs` — classification and stable ordering of BLE scan
    results, write chunking, characteristic lookup, finding a scanned device
    by name or address.
  - `commands.rs` — the pairing and messaging steps behind the front end's
    commands.
  - `device_config.rs` — the saved peers and connection.
  - `error.rs`, `text.rs` — errors and their texts; string and byte helpers.
- `tests/` — tests of the library against the real cryptography crates.
- `app/` — the Tauri application around the library: Bluetooth, serial and
  TCP input/output, the configuration file, and the front-end commands.
