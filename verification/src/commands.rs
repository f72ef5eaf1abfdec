use vstd::prelude::*;
use vstd::utf8::*;

use crate::crypto::{derive_p2p_key, lemma_p2p_key_symmetric, spec_p2p_key, SessionKey, AES_GCM_P_MAX, NONCE_SIZE, TAG_SIZE};
use crate::error::MeshGuardError;
use crate::mesh_radio::ScannedBleDevice;
use crate::protocol::{spec_open_envelope, MeshMessage};
use crate::protocol::{MSG_TYPE_PAIR_ACCEPT, MSG_TYPE_PAIR_REQUEST, MSG_TYPE_TEXT};
use crate::text::{decimal_string, spec_decimal};

verus! {

/// The Meshtastic devices found by a scan.
#[derive(Debug)]
pub struct ScanResponse {
    pub devices: Vec<ScannedBleDevice>,
}

/// Our own device: node number and name.
#[derive(Debug)]
pub struct MyDeviceInfo {
    pub node_num: u32,
    pub device_name: String,
}

/// Our device info, once both the node number and the name are known.
pub fn my_device_info(node_num: Option<u32>, device_name: Option<String>) -> (r: Option<
    MyDeviceInfo,
>)
    ensures
        match (node_num, device_name) {
            (Some(n), Some(name)) => r matches Some(info) && info.node_num == n
                && info.device_name == name,
            _ => r is None,
        },
{
    match (node_num, device_name) {
        (Some(n), Some(name)) => Some(MyDeviceInfo { node_num: n, device_name: name }),
        _ => None,
    }
}

/// What a pairing step hands to the radio and keeps: the session key, the
/// peer's name, and the encrypted message to send to the peer.
pub struct ChatSetup {
    pub session_key: SessionKey,
    pub peer_name: String,
    pub encrypted: Vec<u8>,
}

/// Length of the wire form of a message whose payload text is `body`.
pub open spec fn wire_len(body: Seq<char>) -> nat {
    1 + encode_utf8(body).len()
}

/// Starts a chat with a mesh node: derives the session key from our name,
/// the node's name and the passphrase, and encrypts a pairing request that
/// carries our name. Fails without our device name (not connected) or when
/// the node is unknown.
pub fn prepare_start_chat(
    my_device_name: Option<String>,
    peer_long_name: Option<String>,
    peer_node_num: u32,
    passphrase: &str,
) -> (r: Result<ChatSetup, MeshGuardError>)
    ensures
        match (my_device_name, peer_long_name) {
            (None, _) => r matches Err(MeshGuardError::NotConnected),
            (Some(_), None) => r matches Err(MeshGuardError::NodeNotFound(n)) && n == peer_node_num,
            (Some(my), Some(peer)) => if wire_len(my@) <= AES_GCM_P_MAX {
                r matches Ok(setup) && setup.session_key@ == spec_p2p_key(my@, peer@, passphrase@)
                    && setup.peer_name == peer && spec_open_envelope(
                    setup.session_key@,
                    setup.encrypted@,
                ) == Some((MSG_TYPE_PAIR_REQUEST, my@)) && setup.encrypted@.len() == NONCE_SIZE
                    + wire_len(my@) + TAG_SIZE
            } else {
                r matches Err(MeshGuardError::Encryption(_))
            },
        },
{
    let my_name = match my_device_name {
        Some(n) => n,
        None => {
            return Err(MeshGuardError::NotConnected);
        },
    };
    let peer_name = match peer_long_name {
        Some(n) => n,
        None => {
            return Err(MeshGuardError::NodeNotFound(peer_node_num));
        },
    };
    let session_key = derive_p2p_key(my_name.as_str(), peer_name.as_str(), passphrase)?;
    let pair_request = MeshMessage::new_pair_request(my_name.as_str());
    let encrypted = pair_request.encrypt_envelope(&session_key)?;
    Ok(ChatSetup { session_key, peer_name, encrypted })
}

/// The name under which a node is saved when we accept its pairing: its
/// long name, or "Node-" and its number when the mesh has not named it.
pub open spec fn spec_accept_peer_name(peer_long_name: Option<String>, peer_node_num: u32) -> Seq<
    char,
> {
    match peer_long_name {
        Some(n) => n@,
        None => "Node-"@ + spec_decimal(peer_node_num as nat),
    }
}

/// Accepts a pending pairing request: derives the session key, checks that
/// it opens the pending request (if one was received) — else the
/// passphrases differ — and encrypts a pairing acceptance that carries our
/// name.
pub fn prepare_accept_chat(
    my_device_name: Option<String>,
    peer_long_name: Option<String>,
    peer_node_num: u32,
    passphrase: &str,
    pending: Option<Vec<u8>>,
) -> (r: Result<ChatSetup, MeshGuardError>)
    ensures
        match my_device_name {
            None => r matches Err(MeshGuardError::NotConnected),
            Some(my) => {
                let peer = spec_accept_peer_name(peer_long_name, peer_node_num);
                let key = spec_p2p_key(my@, peer, passphrase@);
                if pending matches Some(p) && spec_open_envelope(key, p@) is None {
                    r matches Err(MeshGuardError::PassphraseMismatch)
                } else if wire_len(my@) <= AES_GCM_P_MAX {
                    r matches Ok(setup) && setup.session_key@ == key && setup.peer_name@ == peer
                        && spec_open_envelope(key, setup.encrypted@) == Some(
                        (MSG_TYPE_PAIR_ACCEPT, my@),
                    ) && setup.encrypted@.len() == NONCE_SIZE + wire_len(my@) + TAG_SIZE
                } else {
                    r matches Err(MeshGuardError::Encryption(_))
                }
            },
        },
{
    let my_name = match my_device_name {
        Some(n) => n,
        None => {
            return Err(MeshGuardError::NotConnected);
        },
    };
    let peer_name = match peer_long_name {
        Some(n) => n,
        None => {
            let digits = decimal_string(peer_node_num);
            String::from_str("Node-").concat(digits.as_str())
        },
    };
    let session_key = derive_p2p_key(my_name.as_str(), peer_name.as_str(), passphrase)?;
    if let Some(payload) = pending {
        if MeshMessage::decrypt_envelope(payload.as_slice(), &session_key).is_err() {
            return Err(MeshGuardError::PassphraseMismatch);
        }
    }
    let pair_accept = MeshMessage::new_pair_accept(my_name.as_str());
    let encrypted = pair_accept.encrypt_envelope(&session_key)?;
    Ok(ChatSetup { session_key, peer_name, encrypted })
}

/// Pairing works across the two sides: whatever one peer seals under the
/// key it derives opens, with the same content, under the key that the
/// other peer derives from the same passphrase with the names swapped. In
/// particular a pairing request prepared by `prepare_start_chat` is not
/// refused as a passphrase mismatch by the peer's `prepare_accept_chat`.
pub proof fn lemma_peer_opens_what_we_seal(
    my: Seq<char>,
    peer: Seq<char>,
    pass: Seq<char>,
    sealed: Seq<u8>,
)
    ensures
        spec_open_envelope(spec_p2p_key(peer, my, pass), sealed) == spec_open_envelope(
            spec_p2p_key(my, peer, pass),
            sealed,
        ),
{
    lemma_p2p_key_symmetric(my, peer, pass);
}

/// Encrypts a text message for a peer; fails when no session with the peer
/// has been established.
pub fn prepare_text_message(session_key: Option<&SessionKey>, text: &str) -> (r: Result<
    Vec<u8>,
    MeshGuardError,
>)
    ensures
        match session_key {
            None => r matches Err(MeshGuardError::NoSession),
            Some(k) => if wire_len(text@) <= AES_GCM_P_MAX {
                r matches Ok(v) && spec_open_envelope(k@, v@) == Some((MSG_TYPE_TEXT, text@))
                    && v@.len() == NONCE_SIZE + wire_len(text@) + TAG_SIZE
            } else {
                r matches Err(MeshGuardError::Encryption(_))
            },
        },
{
    let key = match session_key {
        Some(k) => k,
        None => {
            return Err(MeshGuardError::NoSession);
        },
    };
    let msg = MeshMessage::new_text(text);
    msg.encrypt_envelope(key)
}

} // verus!
