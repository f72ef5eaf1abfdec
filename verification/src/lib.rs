//! MeshGuard: a peer-to-peer encrypted messenger for Meshtastic devices.
//!
//! The library holds the verified core: key derivation, the encrypted
//! envelope and its wire format, the stream framing of the radio link,
//! the classification of scanned devices, the handling of incoming mesh
//! packets and the bookkeeping of paired peers.

pub mod ble;
pub mod ble_plugin;
pub mod commands;
pub mod crypto;
pub mod device_config;
pub mod error;
pub mod mesh_radio;
pub mod protocol;
pub mod text;
