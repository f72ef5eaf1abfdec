use vstd::prelude::*;
use vstd::utf8::*;

use aes_gcm::aead::{Aead, KeyInit, OsRng};
use rand::RngCore;
use sha2::Digest;

use crate::error::MeshGuardError;
use crate::text::{bytes_le, push_bytes, seq_le, trim_chars, trim_str};
use crate::text::{lemma_seq_le_antisymmetric, lemma_seq_le_total, lemma_trim_idempotent};

verus! {

/// Length of the random AES-GCM nonce that prefixes every sealed message.
pub const NONCE_SIZE: usize = 12;

/// Length of the AES-GCM authentication tag.
pub const TAG_SIZE: usize = 16;

/// Longest plaintext that AES-GCM accepts, in bytes.
pub const AES_GCM_P_MAX: u64 = 0x10_0000_0000;

// ── Outside cryptography ────────────────────────────────────────

/// What `sha2::Sha256::digest` returns for `data`.
pub uninterp spec fn sha256(data: Seq<u8>) -> Seq<u8>;

/// What HKDF over SHA-256 (`hkdf::Hkdf::<Sha256>::new` with this salt and
/// input keying material, then `Hkdf::expand` with this info) writes into an
/// output buffer of `len` bytes.
pub uninterp spec fn hkdf_sha256(salt: Seq<u8>, ikm: Seq<u8>, info: Seq<u8>, len: nat) -> Seq<u8>;

/// What `Aead::encrypt` of `aes_gcm::Aes256Gcm` returns for this key, nonce
/// and plaintext (ciphertext followed by the tag).
pub uninterp spec fn aes256gcm_seal(key: Seq<u8>, nonce: Seq<u8>, plaintext: Seq<u8>) -> Seq<u8>;

/// What `Aead::decrypt` of `aes_gcm::Aes256Gcm` returns for this key, nonce
/// and ciphertext: the plaintext, or `None` where it refuses the ciphertext.
pub uninterp spec fn aes256gcm_open(key: Seq<u8>, nonce: Seq<u8>, ciphertext: Seq<u8>) -> Option<Seq<u8>>;

/// `sha2::Sha256::digest`: the SHA-256 digest of `data`, named by `sha256`.
#[verifier::external_body]
fn sha256_digest(data: &[u8]) -> (r: [u8; 32])
    ensures
        r@ == sha256(data@),
{
    sha2::Sha256::digest(data).into()
}

#[verifier::external_type_specification]
#[verifier::external_body]
pub struct ExInvalidLength(hkdf::InvalidLength);

/// `hkdf::Hkdf::<Sha256>::new(Some(salt), ikm)` followed by `expand(info, okm)`
/// into a 32-byte buffer. The buffer then holds `hkdf_sha256(salt, ikm, info, 32)`.
/// The crate's `expand` fails only for buffers longer than 255 digests, so
/// with 32 bytes the call succeeds.
#[verifier::external_body]
fn hkdf_sha256_expand(salt: &[u8], ikm: &[u8], info: &[u8], okm: &mut [u8; 32]) -> (r: Result<
    (),
    hkdf::InvalidLength,
>)
    ensures
        r is Ok,
        final(okm)@ == hkdf_sha256(salt@, ikm@, info@, 32),
{
    hkdf::Hkdf::<sha2::Sha256>::new(Some(salt), ikm).expand(info, &mut okm[..])
}

#[verifier::external_type_specification]
#[verifier::external_body]
pub struct ExAeadError(aes_gcm::Error);

/// `Aes256Gcm::new(key).encrypt(nonce, plaintext)` of `aes_gcm`. The crate
/// refuses plaintexts longer than `P_MAX` (2^36 bytes) and otherwise returns
/// the ciphertext with the 16-byte tag appended, named by `aes256gcm_seal`.
/// Decrypting that output with the same key and nonce gives the plaintext
/// back (counter-mode keystream and tag are recomputed identically).
#[verifier::external_body]
fn aes256gcm_encrypt(key: &[u8; 32], nonce: &[u8; 12], plaintext: &[u8]) -> (r: Result<
    Vec<u8>,
    aes_gcm::Error,
>)
    ensures
        r is Ok <==> plaintext@.len() <= AES_GCM_P_MAX,
        r matches Ok(c) ==> {
            &&& c@ == aes256gcm_seal(key@, nonce@, plaintext@)
            &&& c@.len() == plaintext@.len() + TAG_SIZE
            &&& aes256gcm_open(key@, nonce@, c@) == Some(plaintext@)
        },
{
    aes_gcm::Aes256Gcm::new(key.into()).encrypt(aes_gcm::Nonce::from_slice(nonce), plaintext)
}

/// `Aes256Gcm::new(key).decrypt(nonce, ciphertext)` of `aes_gcm`: its outcome
/// is named by `aes256gcm_open`. A ciphertext shorter than the 16-byte tag
/// is refused. `Nonce::from_slice` panics unless the nonce is 12 bytes long,
/// hence the precondition.
#[verifier::external_body]
fn aes256gcm_decrypt(key: &[u8; 32], nonce: &[u8], ciphertext: &[u8]) -> (r: Result<
    Vec<u8>,
    aes_gcm::Error,
>)
    requires
        nonce@.len() == NONCE_SIZE,
    ensures
        r is Ok <==> aes256gcm_open(key@, nonce@, ciphertext@) is Some,
        r matches Ok(p) ==> aes256gcm_open(key@, nonce@, ciphertext@) == Some(p@),
        ciphertext@.len() < TAG_SIZE ==> r is Err,
{
    aes_gcm::Aes256Gcm::new(key.into()).decrypt(aes_gcm::Nonce::from_slice(nonce), ciphertext)
}

/// The text of `aead::Error`, whose `Display` writes `"aead::Error"`.
#[verifier::external_body]
fn aead_error_text(e: &aes_gcm::Error) -> (r: String)
    ensures
        r@ == "aead::Error"@,
{
    e.to_string()
}

/// Twelve bytes from the operating system's random source (`OsRng`), to
/// serve as a nonce. Nothing is stated of their value.
#[verifier::external_body]
fn random_nonce() -> (r: [u8; 12]) {
    let mut nonce = [0u8;12];
    OsRng.fill_bytes(&mut nonce);
    nonce
}

// ── Key derivation ──────────────────────────────────────────────

/// The bytes of a device name as it enters the derivation: trimmed, UTF-8.
pub open spec fn name_bytes(name: Seq<char>) -> Seq<u8> {
    encode_utf8(trim_chars(name))
}

/// The two trimmed names, smaller first, so that both peers agree.
pub open spec fn ordered_names(my: Seq<char>, peer: Seq<char>) -> (Seq<u8>, Seq<u8>) {
    let a = name_bytes(my);
    let b = name_bytes(peer);
    if seq_le(a, b) {
        (a, b)
    } else {
        (b, a)
    }
}

/// `first | second | passphrase`, the input that is hashed for both secrets.
pub open spec fn pairing_material(my: Seq<char>, peer: Seq<char>, pass: Seq<char>) -> Seq<u8> {
    let (first, second) = ordered_names(my, peer);
    first + encode_utf8("|"@) + second + encode_utf8("|"@) + encode_utf8(pass)
}

/// The AES-256 session key that two peers derive from their pairing.
pub open spec fn spec_p2p_key(my: Seq<char>, peer: Seq<char>, pass: Seq<char>) -> Seq<u8> {
    hkdf_sha256(
        encode_utf8("meshguard-p2p-v1"@),
        sha256(pairing_material(my, peer, pass)),
        encode_utf8("aes-256-gcm-p2p-key"@),
        32,
    )
}

/// The Meshtastic channel PSK that two peers derive from their pairing.
pub open spec fn spec_channel_psk(my: Seq<char>, peer: Seq<char>, pass: Seq<char>) -> Seq<u8> {
    sha256(encode_utf8("meshguard-channel-psk|"@) + pairing_material(my, peer, pass))
}

/// The order of the names does not depend on which side computes it.
pub proof fn lemma_ordered_names_symmetric(a: Seq<char>, b: Seq<char>)
    ensures
        ordered_names(a, b) == ordered_names(b, a),
{
    let x = name_bytes(a);
    let y = name_bytes(b);
    lemma_seq_le_total(x, y);
    if seq_le(x, y) && seq_le(y, x) {
        lemma_seq_le_antisymmetric(x, y);
    }
}

/// Both peers derive the same session key: swapping "my" and "peer" name
/// leaves the key unchanged.
pub proof fn lemma_p2p_key_symmetric(my: Seq<char>, peer: Seq<char>, pass: Seq<char>)
    ensures
        spec_p2p_key(my, peer, pass) == spec_p2p_key(peer, my, pass),
{
    lemma_ordered_names_symmetric(my, peer);
}

/// Both peers derive the same channel PSK: swapping "my" and "peer" name
/// leaves the PSK unchanged.
pub proof fn lemma_channel_psk_symmetric(my: Seq<char>, peer: Seq<char>, pass: Seq<char>)
    ensures
        spec_channel_psk(my, peer, pass) == spec_channel_psk(peer, my, pass),
{
    lemma_ordered_names_symmetric(my, peer);
}

/// The hashed material is the smaller trimmed name, a `|` byte, the larger
/// trimmed name, a `|` byte, and then every UTF-8 byte of the passphrase.
pub proof fn lemma_pairing_material_layout(my: Seq<char>, peer: Seq<char>, pass: Seq<char>)
    ensures
        ({
            let a = encode_utf8(trim_chars(my));
            let b = encode_utf8(trim_chars(peer));
            let (first, second) = if seq_le(a, b) {
                (a, b)
            } else {
                (b, a)
            };
            pairing_material(my, peer, pass) == first + seq![124u8] + second + seq![124u8]
                + encode_utf8(pass)
        }),
{
    reveal_strlit("|");
    assert(is_ascii_chars("|"@));
    is_ascii_chars_encode_utf8("|"@);
    assert(encode_utf8("|"@)[0] == '|' as u8);
    assert(encode_utf8("|"@) =~= seq![124u8]);
}

/// The material ends with the whole passphrase, byte for byte, after the
/// part made of the names alone.
pub proof fn lemma_pairing_material_ends_with_passphrase(
    my: Seq<char>,
    peer: Seq<char>,
    pass: Seq<char>,
)
    ensures
        ({
            let m = pairing_material(my, peer, pass);
            let p = encode_utf8(pass);
            &&& m.len() == pairing_material(my, peer, Seq::empty()).len() + p.len()
            &&& m.take(m.len() - p.len()) == pairing_material(my, peer, Seq::empty())
            &&& m.skip(m.len() - p.len()) == p
        }),
{
    let (f, s) = ordered_names(my, peer);
    let head = f + encode_utf8("|"@) + s + encode_utf8("|"@);
    assert(encode_utf8(Seq::<char>::empty()) =~= Seq::<u8>::empty());
    assert(pairing_material(my, peer, Seq::empty()) =~= head);
    let m = pairing_material(my, peer, pass);
    assert(m.take(head.len() as int) =~= head);
    assert(m.skip(head.len() as int) =~= encode_utf8(pass));
}

/// Different passphrases never give the same material for the same names:
/// the whole passphrase enters the derivation.
pub proof fn lemma_pairing_material_distinguishes_passphrases(
    my: Seq<char>,
    peer: Seq<char>,
    pass1: Seq<char>,
    pass2: Seq<char>,
)
    requires
        pass1 != pass2,
    ensures
        pairing_material(my, peer, pass1) != pairing_material(my, peer, pass2),
{
    lemma_pairing_material_ends_with_passphrase(my, peer, pass1);
    lemma_pairing_material_ends_with_passphrase(my, peer, pass2);
    encode_utf8_decode_utf8(pass1);
    encode_utf8_decode_utf8(pass2);
    if pairing_material(my, peer, pass1) == pairing_material(my, peer, pass2) {
        assert(encode_utf8(pass1) == encode_utf8(pass2));
    }
}

/// Device names enter the derivation trimmed: trimming them beforehand
/// leaves both the session key and the channel PSK unchanged.
pub proof fn lemma_keys_ignore_surrounding_white_space(
    my: Seq<char>,
    peer: Seq<char>,
    pass: Seq<char>,
)
    ensures
        spec_p2p_key(trim_chars(my), trim_chars(peer), pass) == spec_p2p_key(my, peer, pass),
        spec_channel_psk(trim_chars(my), trim_chars(peer), pass) == spec_channel_psk(my, peer, pass),
{
    lemma_trim_idempotent(my);
    lemma_trim_idempotent(peer);
}

/// Appends `first | second | passphrase` to `buf`.
fn push_pairing_material(
    buf: &mut Vec<u8>,
    my_device_name: &str,
    peer_device_name: &str,
    shared_passphrase: &str,
)
    ensures
        final(buf)@ == old(buf)@ + pairing_material(
            my_device_name@,
            peer_device_name@,
            shared_passphrase@,
        ),
{
    let my_name = trim_str(my_device_name);
    let peer_name = trim_str(peer_device_name);
    let my_bytes = my_name.as_bytes();
    let peer_bytes = peer_name.as_bytes();
    let (first, second) = if bytes_le(my_bytes, peer_bytes) {
        (my_bytes, peer_bytes)
    } else {
        (peer_bytes, my_bytes)
    };
    push_bytes(buf, first);
    push_bytes(buf, "|".as_bytes());
    push_bytes(buf, second);
    push_bytes(buf, "|".as_bytes());
    push_bytes(buf, shared_passphrase.as_bytes());
    proof {
        let (f, s) = ordered_names(my_device_name@, peer_device_name@);
        assert(final(buf)@ =~= old(buf)@ + (f + encode_utf8("|"@) + s + encode_utf8("|"@)
            + encode_utf8(shared_passphrase@)));
    }
}

/// Derives the session key shared by two paired peers. Both peers know
/// their own device name, the peer's device name and a passphrase agreed on
/// out of band; the names are trimmed and put in order first, so both
/// sides arrive at the same key.
pub fn derive_p2p_key(
    my_device_name: &str,
    peer_device_name: &str,
    shared_passphrase: &str,
) -> (r: Result<SessionKey, MeshGuardError>)
    ensures
        r matches Ok(k) && k@ == spec_p2p_key(
            my_device_name@,
            peer_device_name@,
            shared_passphrase@,
        ),
{
    let mut material: Vec<u8> = Vec::new();
    push_pairing_material(&mut material, my_device_name, peer_device_name, shared_passphrase);
    let ikm = sha256_digest(material.as_slice());
    let mut key_bytes = [0u8;32];
    match hkdf_sha256_expand(
        "meshguard-p2p-v1".as_bytes(),
        ikm.as_slice(),
        "aes-256-gcm-p2p-key".as_bytes(),
        &mut key_bytes,
    ) {
        Ok(()) => Ok(SessionKey { key: key_bytes }),
        Err(_) => Err(MeshGuardError::KeyDerivation),
    }
}

/// Derives the 32-byte PSK of the Meshtastic channel that two paired peers
/// configure on their devices.
pub fn derive_channel_psk(
    my_device_name: &str,
    peer_device_name: &str,
    shared_passphrase: &str,
) -> (r: Result<[u8; 32], MeshGuardError>)
    ensures
        r matches Ok(psk) && psk@ == spec_channel_psk(
            my_device_name@,
            peer_device_name@,
            shared_passphrase@,
        ),
{
    let mut material: Vec<u8> = Vec::new();
    push_bytes(&mut material, "meshguard-channel-psk|".as_bytes());
    push_pairing_material(&mut material, my_device_name, peer_device_name, shared_passphrase);
    Ok(sha256_digest(material.as_slice()))
}

// ── Session key ─────────────────────────────────────────────────

/// A derived AES-256 session key.
pub struct SessionKey {
    key: [u8; 32],
}

impl View for SessionKey {
    type V = Seq<u8>;

    closed spec fn view(&self) -> Seq<u8> {
        self.key@
    }
}

/// What `encrypt` sends for a plaintext under a nonce: `nonce || ciphertext`.
pub open spec fn sealed_message(key: Seq<u8>, nonce: Seq<u8>, plaintext: Seq<u8>) -> Seq<u8> {
    nonce + aes256gcm_seal(key, nonce, plaintext)
}

/// What `decrypt` recovers from `nonce || ciphertext`, if anything.
pub open spec fn spec_decrypt(key: Seq<u8>, data: Seq<u8>) -> Option<Seq<u8>> {
    if data.len() < NONCE_SIZE {
        None
    } else {
        aes256gcm_open(key, data.take(NONCE_SIZE as int), data.skip(NONCE_SIZE as int))
    }
}

impl SessionKey {
    /// The key is always 32 bytes long.
    pub proof fn lemma_len(&self)
        ensures
            self@.len() == 32,
    {
    }

    /// Encrypts `plaintext` with AES-256-GCM under the given nonce and
    /// returns `nonce || ciphertext`.
    pub fn encrypt_with_nonce(&self, nonce: &[u8; 12], plaintext: &[u8]) -> (r: Result<
        Vec<u8>,
        MeshGuardError,
    >)
        ensures
            r is Ok <==> plaintext@.len() <= AES_GCM_P_MAX,
            r matches Ok(v) ==> {
                &&& v@ == sealed_message(self@, nonce@, plaintext@)
                &&& v@.len() == NONCE_SIZE + plaintext@.len() + TAG_SIZE
                &&& spec_decrypt(self@, v@) == Some(plaintext@)
            },
            r matches Err(e) ==> e matches MeshGuardError::Encryption(m) && m@ == "aead::Error"@,
    {
        match aes256gcm_encrypt(&self.key, nonce, plaintext) {
            Ok(ciphertext) => {
                let mut output: Vec<u8> = Vec::new();
                push_bytes(&mut output, nonce.as_slice());
                push_bytes(&mut output, ciphertext.as_slice());
                assert(output@.take(NONCE_SIZE as int) =~= nonce@);
                assert(output@.skip(NONCE_SIZE as int) =~= ciphertext@);
                Ok(output)
            },
            Err(e) => Err(MeshGuardError::Encryption(aead_error_text(&e))),
        }
    }

    /// Encrypts `plaintext` with AES-256-GCM under a fresh random nonce and
    /// returns `nonce || ciphertext`.
    pub fn encrypt(&self, plaintext: &[u8]) -> (r: Result<Vec<u8>, MeshGuardError>)
        ensures
            r is Ok <==> plaintext@.len() <= AES_GCM_P_MAX,
            r matches Ok(v) ==> {
                &&& exists|n: Seq<u8>|
                    n.len() == NONCE_SIZE && v@ == #[trigger] sealed_message(self@, n, plaintext@)
                &&& v@.len() == NONCE_SIZE + plaintext@.len() + TAG_SIZE
                &&& spec_decrypt(self@, v@) == Some(plaintext@)
            },
            r matches Err(e) ==> e matches MeshGuardError::Encryption(m) && m@ == "aead::Error"@,
    {
        let nonce = random_nonce();
        self.encrypt_with_nonce(&nonce, plaintext)
    }

    /// Decrypts `nonce || ciphertext` as produced by `encrypt`.
    pub fn decrypt(&self, data: &[u8]) -> (r: Result<Vec<u8>, MeshGuardError>)
        ensures
            match spec_decrypt(self@, data@) {
                Some(p) => r matches Ok(q) && q@ == p,
                None => r is Err,
            },
            data@.len() < NONCE_SIZE + TAG_SIZE ==> r is Err,
            r matches Err(e) ==> e matches MeshGuardError::Decryption(m) && m@ == (if data@.len()
                < NONCE_SIZE {
                "data too short"@
            } else {
                "aead::Error"@
            }),
    {
        if data.len() < NONCE_SIZE {
            return Err(MeshGuardError::Decryption(String::from_str("data too short")));
        }
        let (nonce_bytes, ciphertext) = data.split_at(NONCE_SIZE);
        match aes256gcm_decrypt(&self.key, nonce_bytes, ciphertext) {
            Ok(p) => Ok(p),
            Err(e) => Err(MeshGuardError::Decryption(aead_error_text(&e))),
        }
    }
}

} // verus!
