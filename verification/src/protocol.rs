use vstd::prelude::*;
use vstd::utf8::*;

use crate::crypto::{sealed_message, spec_decrypt, SessionKey, AES_GCM_P_MAX, NONCE_SIZE, TAG_SIZE};
use crate::error::MeshGuardError;
use crate::text::{push_hex_byte, spec_hex_byte, str_from_utf8};

verus! {

broadcast use {encode_utf8_valid_utf8, encode_utf8_decode_utf8};

/// Wire type of a text message.
pub const MSG_TYPE_TEXT: u8 = 0x01;

/// Wire type of a pairing request.
pub const MSG_TYPE_PAIR_REQUEST: u8 = 0x02;

/// Wire type of a pairing acceptance.
pub const MSG_TYPE_PAIR_ACCEPT: u8 = 0x03;

/// A lowercase hexadecimal digit.
pub open spec fn is_lower_hex(c: char) -> bool {
    ('0' <= c && c <= '9') || ('a' <= c && c <= 'f')
}

/// The hyphenated lowercase text of a random (version 4, RFC 4122 variant)
/// UUID: 36 characters, hyphens at 8, 13, 18 and 23, hexadecimal digits
/// elsewhere, version digit `4` at 14 and a variant digit of 8, 9, a or b at 19.
pub open spec fn is_uuid_v4_text(s: Seq<char>) -> bool {
    &&& s.len() == 36
    &&& forall|i: int|
        0 <= i < 36 ==> if i == 8 || i == 13 || i == 18 || i == 23 {
            #[trigger] s[i] == '-'
        } else {
            is_lower_hex(s[i])
        }
    &&& s[14] == '4'
    &&& (s[19] == '8' || s[19] == '9' || s[19] == 'a' || s[19] == 'b')
}

/// `uuid::Uuid::new_v4().to_string()`: a random version-4 UUID in its
/// hyphenated lowercase form. `new_v4` sets the version and variant bits
/// of random bits, and `Display` writes the hyphenated lowercase form; the
/// rest of its value is chance.
#[verifier::external_body]
pub(crate) fn new_message_id() -> (r: String)
    ensures
        is_uuid_v4_text(r@),
{
    uuid::Uuid::new_v4().to_string()
}

/// `chrono::Utc::now().timestamp()`: the current Unix time in seconds.
/// Nothing is stated of it.
#[verifier::external_body]
pub(crate) fn unix_timestamp_now() -> i64 {
    chrono::Utc::now().timestamp()
}

/// MeshGuard protocol messages, sent encrypted over the Meshtastic mesh on
/// the private-application port.
///
/// The wire format is compact, to stay within the LoRa payload limit:
/// one type byte, then the UTF-8 bytes of the payload text. Id and
/// timestamp are local metadata and do not travel.
#[derive(Debug, Clone)]
pub enum MeshMessage {
    Text { id: String, text: String, timestamp: i64 },
    PairRequest { id: String, sender_name: String, timestamp: i64 },
    PairAccept { id: String, responder_name: String, timestamp: i64 },
}

/// The wire types that `from_wire` knows.
pub open spec fn is_known_type(t: u8) -> bool {
    t == MSG_TYPE_TEXT || t == MSG_TYPE_PAIR_REQUEST || t == MSG_TYPE_PAIR_ACCEPT
}

/// The wire encoding of a message of type `t` carrying `body`.
pub open spec fn spec_to_wire(t: u8, body: Seq<char>) -> Seq<u8> {
    seq![t] + encode_utf8(body)
}

/// The type and payload text that a well-formed wire message carries.
pub open spec fn spec_parse_wire(data: Seq<u8>) -> Option<(u8, Seq<char>)> {
    if data.len() == 0 || !valid_utf8(data.skip(1)) || !is_known_type(data[0]) {
        None
    } else {
        Some((data[0], decode_utf8(data.skip(1))))
    }
}

/// The error text that `from_wire` gives for a malformed wire message. For
/// invalid UTF-8 only its prefix is fixed: the rest is the text of std's
/// `Utf8Error`.
pub open spec fn wire_error_text_matches(data: Seq<u8>, msg: Seq<char>) -> bool {
    if data.len() == 0 {
        msg == "empty wire message"@
    } else if !valid_utf8(data.skip(1)) {
        msg.len() >= 15 && msg.take(15) == "invalid UTF-8: "@
    } else {
        msg == "unknown message type: 0x"@ + spec_hex_byte(data[0])
    }
}

/// The type and payload text inside an encrypted envelope, if the key opens
/// it and the content is well formed.
pub open spec fn spec_open_envelope(key: Seq<u8>, data: Seq<u8>) -> Option<(u8, Seq<char>)> {
    match spec_decrypt(key, data) {
        Some(wire) => spec_parse_wire(wire),
        None => None,
    }
}

/// Whether `e` is the error that `decrypt_envelope` reports for `data`.
pub open spec fn envelope_error_matches(key: Seq<u8>, data: Seq<u8>, e: MeshGuardError) -> bool {
    match spec_decrypt(key, data) {
        None => e matches MeshGuardError::Decryption(m) && m@ == (if data.len() < NONCE_SIZE {
            "data too short"@
        } else {
            "aead::Error"@
        }),
        Some(wire) => e matches MeshGuardError::Protocol(m) && wire_error_text_matches(wire, m@),
    }
}

/// Parsing the wire encoding of a message gives back its type and text.
pub proof fn lemma_wire_roundtrip(t: u8, body: Seq<char>)
    requires
        is_known_type(t),
    ensures
        spec_parse_wire(spec_to_wire(t, body)) == Some((t, body)),
{
    assert(spec_to_wire(t, body).skip(1) =~= encode_utf8(body));
}

impl MeshMessage {
    /// The wire type of the message.
    pub open spec fn type_byte(&self) -> u8 {
        match self {
            MeshMessage::Text { .. } => MSG_TYPE_TEXT,
            MeshMessage::PairRequest { .. } => MSG_TYPE_PAIR_REQUEST,
            MeshMessage::PairAccept { .. } => MSG_TYPE_PAIR_ACCEPT,
        }
    }

    /// The payload text: the message text or the name it carries.
    pub open spec fn body(&self) -> Seq<char> {
        match self {
            MeshMessage::Text { text, .. } => text@,
            MeshMessage::PairRequest { sender_name, .. } => sender_name@,
            MeshMessage::PairAccept { responder_name, .. } => responder_name@,
        }
    }

    /// The local id of the message.
    pub open spec fn spec_id(&self) -> Seq<char> {
        match self {
            MeshMessage::Text { id, .. } => id@,
            MeshMessage::PairRequest { id, .. } => id@,
            MeshMessage::PairAccept { id, .. } => id@,
        }
    }

    /// The local timestamp of the message.
    pub open spec fn spec_timestamp(&self) -> i64 {
        match self {
            MeshMessage::Text { timestamp, .. } => *timestamp,
            MeshMessage::PairRequest { timestamp, .. } => *timestamp,
            MeshMessage::PairAccept { timestamp, .. } => *timestamp,
        }
    }

    /// The bytes that travel for this message.
    pub open spec fn spec_wire(&self) -> Seq<u8> {
        spec_to_wire(self.type_byte(), self.body())
    }

    /// A text message with a fresh id and the current time.
    pub fn new_text(text: &str) -> (r: Self)
        ensures
            r is Text,
            r.body() == text@,
            is_uuid_v4_text(r.spec_id()),
    {
        MeshMessage::Text {
            id: new_message_id(),
            text: text.to_owned(),
            timestamp: unix_timestamp_now(),
        }
    }

    /// A pairing request naming the sender, with a fresh id and the current time.
    pub fn new_pair_request(sender_name: &str) -> (r: Self)
        ensures
            r is PairRequest,
            r.body() == sender_name@,
            is_uuid_v4_text(r.spec_id()),
    {
        MeshMessage::PairRequest {
            id: new_message_id(),
            sender_name: sender_name.to_owned(),
            timestamp: unix_timestamp_now(),
        }
    }

    /// A pairing acceptance naming the responder, with a fresh id and the current time.
    pub fn new_pair_accept(responder_name: &str) -> (r: Self)
        ensures
            r is PairAccept,
            r.body() == responder_name@,
            is_uuid_v4_text(r.spec_id()),
    {
        MeshMessage::PairAccept {
            id: new_message_id(),
            responder_name: responder_name.to_owned(),
            timestamp: unix_timestamp_now(),
        }
    }

    /// Compact binary serialization for the LoRa wire: the type byte, then
    /// the payload text in UTF-8.
    pub fn to_wire(&self) -> (r: Vec<u8>)
        ensures
            r@ == self.spec_wire(),
    {
        let (t, body) = match self {
            MeshMessage::Text { text, .. } => (MSG_TYPE_TEXT, text.as_str()),
            MeshMessage::PairRequest { sender_name, .. } => (MSG_TYPE_PAIR_REQUEST, sender_name.as_str()),
            MeshMessage::PairAccept { responder_name, .. } => (MSG_TYPE_PAIR_ACCEPT, responder_name.as_str()),
        };
        let mut buf: Vec<u8> = Vec::new();
        buf.push(t);
        crate::text::push_bytes(&mut buf, body.as_bytes());
        assert(buf@ =~= spec_to_wire(t, body@));
        buf
    }

    /// Parses the compact wire format, giving the message the id and time
    /// that are passed in.
    pub fn from_wire_with(data: &[u8], id: String, now: i64) -> (r: Result<Self, MeshGuardError>)
        ensures
            match spec_parse_wire(data@) {
                Some((t, body)) => r matches Ok(m) && m.type_byte() == t && m.body() == body
                    && m.spec_id() == id@ && m.spec_timestamp() == now,
                None => r matches Err(MeshGuardError::Protocol(msg)) && wire_error_text_matches(
                    data@,
                    msg@,
                ),
            },
    {
        if data.len() == 0 {
            return Err(MeshGuardError::Protocol(String::from_str("empty wire message")));
        }
        let payload = vstd::slice::slice_subrange(data, 1, data.len());
        assert(payload@ =~= data@.skip(1));
        let payload_str = match str_from_utf8(payload) {
            Ok(s) => s,
            Err(e) => {
                let detail = e.to_string();
                let mut msg = String::from_str("invalid UTF-8: ");
                msg.append(detail.as_str());
                proof {
                    reveal_strlit("invalid UTF-8: ");
                }
                assert(msg@.take(15) =~= "invalid UTF-8: "@);
                return Err(MeshGuardError::Protocol(msg));
            },
        };
        let t = data[0];
        if t == MSG_TYPE_TEXT {
            Ok(MeshMessage::Text { id, text: payload_str.to_owned(), timestamp: now })
        } else if t == MSG_TYPE_PAIR_REQUEST {
            Ok(MeshMessage::PairRequest { id, sender_name: payload_str.to_owned(), timestamp: now })
        } else if t == MSG_TYPE_PAIR_ACCEPT {
            Ok(MeshMessage::PairAccept { id, responder_name: payload_str.to_owned(), timestamp: now })
        } else {
            let mut msg = String::from_str("unknown message type: 0x");
            push_hex_byte(&mut msg, t);
            Err(MeshGuardError::Protocol(msg))
        }
    }

    /// Parses the compact wire format; the message gets a fresh id and the
    /// current time.
    pub fn from_wire(data: &[u8]) -> (r: Result<Self, MeshGuardError>)
        ensures
            match spec_parse_wire(data@) {
                Some((t, body)) => r matches Ok(m) && m.type_byte() == t && m.body() == body
                    && is_uuid_v4_text(m.spec_id()),
                None => r matches Err(MeshGuardError::Protocol(msg)) && wire_error_text_matches(
                    data@,
                    msg@,
                ),
            },
    {
        let id = new_message_id();
        let now = unix_timestamp_now();
        Self::from_wire_with(data, id, now)
    }

    /// Encrypts the message for transmission: its wire form, sealed with
    /// AES-256-GCM under the session key and a fresh nonce.
    pub fn encrypt_envelope(&self, session_key: &SessionKey) -> (r: Result<Vec<u8>, MeshGuardError>)
        ensures
            r is Ok <==> self.spec_wire().len() <= AES_GCM_P_MAX,
            r matches Ok(v) ==> {
                &&& exists|n: Seq<u8>|
                    n.len() == NONCE_SIZE && v@ == #[trigger] sealed_message(
                        session_key@,
                        n,
                        self.spec_wire(),
                    )
                &&& v@.len() == NONCE_SIZE + 1 + encode_utf8(self.body()).len() + TAG_SIZE
                &&& spec_decrypt(session_key@, v@) == Some(self.spec_wire())
                &&& spec_open_envelope(session_key@, v@) == Some((self.type_byte(), self.body()))
            },
            r matches Err(e) ==> e matches MeshGuardError::Encryption(m) && m@ == "aead::Error"@,
    {
        let wire = self.to_wire();
        proof {
            lemma_wire_roundtrip(self.type_byte(), self.body());
        }
        session_key.encrypt(wire.as_slice())
    }

    /// Decrypts a received payload and parses the message inside; the
    /// message gets a fresh id and the current time.
    pub fn decrypt_envelope(data: &[u8], session_key: &SessionKey) -> (r: Result<
        Self,
        MeshGuardError,
    >)
        ensures
            match spec_open_envelope(session_key@, data@) {
                Some((t, body)) => r matches Ok(m) && m.type_byte() == t && m.body() == body
                    && is_uuid_v4_text(m.spec_id()),
                None => r matches Err(e) && envelope_error_matches(session_key@, data@, e),
            },
            data@.len() < NONCE_SIZE + TAG_SIZE ==> r is Err,
    {
        let wire = session_key.decrypt(data)?;
        Self::from_wire(wire.as_slice())
    }

    /// The local id of the message.
    pub fn id(&self) -> (r: &str)
        ensures
            r@ == self.spec_id(),
    {
        match self {
            MeshMessage::Text { id, .. } => id.as_str(),
            MeshMessage::PairRequest { id, .. } => id.as_str(),
            MeshMessage::PairAccept { id, .. } => id.as_str(),
        }
    }
}

} // verus!
