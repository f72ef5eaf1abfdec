use vstd::prelude::*;

use crate::text::{decimal_string, spec_decimal};

verus! {

/// Every failure the messenger reports to its front end.
#[derive(Debug)]
pub enum MeshGuardError {
    Ble(String),
    DeviceNotFound(String),
    NotConnected,
    NoPeer,
    KeyDerivation,
    Encryption(String),
    Decryption(String),
    Protocol(String),
    Serialization(String),
    InvalidConfig(String),
    NoSession,
    Io(String),
    NodeNotFound(u32),
    PassphraseMismatch,
    MeshRadio(String),
}

impl MeshGuardError {
    /// The human-readable text of the error, as shown to the user.
    pub open spec fn spec_message(&self) -> Seq<char> {
        match self {
            MeshGuardError::Ble(s) => "BLE error: "@ + s@,
            MeshGuardError::DeviceNotFound(s) => "Device not found: "@ + s@,
            MeshGuardError::NotConnected => "Not connected to local device"@,
            MeshGuardError::NoPeer => "No peer configured"@,
            MeshGuardError::KeyDerivation => "Key derivation failed"@,
            MeshGuardError::Encryption(s) => "Encryption failed: "@ + s@,
            MeshGuardError::Decryption(s) => "Decryption failed: "@ + s@,
            MeshGuardError::Protocol(s) => "Protocol error: "@ + s@,
            MeshGuardError::Serialization(s) => "Serialization error: "@ + s@,
            MeshGuardError::InvalidConfig(s) => "Invalid configuration: "@ + s@,
            MeshGuardError::NoSession => "Session not established — complete P2P pairing first"@,
            MeshGuardError::Io(s) => "IO error: "@ + s@,
            MeshGuardError::NodeNotFound(n) => "Node not found: "@ + spec_decimal(*n as nat),
            MeshGuardError::PassphraseMismatch => "Passphrase mismatch"@,
            MeshGuardError::MeshRadio(s) => "Mesh radio error: "@ + s@,
        }
    }

    /// Renders the error as text.
    pub fn message(&self) -> (r: String)
        ensures
            r@ == self.spec_message(),
    {
        match self {
            MeshGuardError::Ble(s) => String::from_str("BLE error: ").concat(s.as_str()),
            MeshGuardError::DeviceNotFound(s) => String::from_str("Device not found: ").concat(
                s.as_str(),
            ),
            MeshGuardError::NotConnected => String::from_str("Not connected to local device"),
            MeshGuardError::NoPeer => String::from_str("No peer configured"),
            MeshGuardError::KeyDerivation => String::from_str("Key derivation failed"),
            MeshGuardError::Encryption(s) => String::from_str("Encryption failed: ").concat(
                s.as_str(),
            ),
            MeshGuardError::Decryption(s) => String::from_str("Decryption failed: ").concat(
                s.as_str(),
            ),
            MeshGuardError::Protocol(s) => String::from_str("Protocol error: ").concat(s.as_str()),
            MeshGuardError::Serialization(s) => String::from_str("Serialization error: ").concat(
                s.as_str(),
            ),
            MeshGuardError::InvalidConfig(s) => String::from_str("Invalid configuration: ").concat(
                s.as_str(),
            ),
            MeshGuardError::NoSession => String::from_str(
                "Session not established — complete P2P pairing first",
            ),
            MeshGuardError::Io(s) => String::from_str("IO error: ").concat(s.as_str()),
            MeshGuardError::NodeNotFound(n) => {
                let digits = decimal_string(*n);
                String::from_str("Node not found: ").concat(digits.as_str())
            },
            MeshGuardError::PassphraseMismatch => String::from_str("Passphrase mismatch"),
            MeshGuardError::MeshRadio(s) => String::from_str("Mesh radio error: ").concat(
                s.as_str(),
            ),
        }
    }
}

} // verus!
