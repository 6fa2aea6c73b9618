use vstd::prelude::*;

use aes_gcm::aead::generic_array::GenericArray;
use aes_gcm::aead::{Aead, KeyInit};
use aes_gcm::Aes256Gcm;
use base64::engine::general_purpose;
use base64::Engine;
use chacha20poly1305::aead::Aead as ChaChaAead;
use chacha20poly1305::{ChaCha20Poly1305, KeyInit as ChaChaKeyInit};
use rand::RngCore;
use sha3::{Digest, Sha3_512};

verus! {

/// The SHA3-512 digest of a byte sequence.
pub uninterp spec fn sha3_512_of(bytes: Seq<u8>) -> Seq<u8>;

/// The AES-256-GCM ciphertext (tag appended) for a key, a nonce, a
/// plaintext and associated data.
pub uninterp spec fn aes_gcm_ct(key: Seq<u8>, nonce: Seq<u8>, pt: Seq<u8>, aad: Seq<u8>) -> Seq<u8>;

/// The ChaCha20-Poly1305 ciphertext (tag appended) for a key, a nonce, a
/// plaintext and associated data.
pub uninterp spec fn chacha_ct(key: Seq<u8>, nonce: Seq<u8>, pt: Seq<u8>, aad: Seq<u8>) -> Seq<u8>;

/// The standard base64 encoding of a byte sequence, with padding.
pub uninterp spec fn b64_of(bytes: Seq<u8>) -> Seq<u8>;

/// Relies on sha3::Sha3_512: a 64-byte digest that depends on the input
/// bytes alone.
#[verifier::external_body]
pub fn sha3_512(bytes: &Vec<u8>) -> (r: Vec<u8>)
    ensures
        r@ == sha3_512_of(bytes@),
        r@.len() == 64,
{
    let mut h = Sha3_512::new();
    h.update(bytes.as_slice());
    h.finalize().to_vec()
}

/// Relies on aes_gcm::Aes256Gcm::encrypt: deterministic in the key, nonce,
/// plaintext and associated data; the ciphertext is the plaintext length
/// plus a 16-byte tag.  The construction rejects a plaintext or associated
/// data over its limits; the two length bounds keep the call under both,
/// and below them encryption cannot fail.
#[verifier::external_body]
pub fn aesgcm_encrypt(key: &Vec<u8>, nonce: &Vec<u8>, pt: &Vec<u8>, aad: &Vec<u8>) -> (r: Vec<u8>)
    requires
        key@.len() == 32,
        nonce@.len() == 12,
        pt@.len() < 0x8_0000_0000,
        aad@.len() < 0x8_0000_0000,
    ensures
        r@ == aes_gcm_ct(key@, nonce@, pt@, aad@),
        r@.len() == pt@.len() + 16,
{
    let cipher = Aes256Gcm::new(GenericArray::from_slice(key));
    let payload = aes_gcm::aead::Payload { msg: pt, aad };
    cipher.encrypt(GenericArray::from_slice(nonce), payload).expect("AES-GCM encrypt")
}

/// Relies on aes_gcm::Aes256Gcm::decrypt: it recomputes the tag over the
/// ciphertext and associated data and succeeds exactly when the tag
/// verifies, that is, exactly when the ciphertext is the encryption of
/// some plaintext under this key, nonce and associated data; the result is
/// then that plaintext.
#[verifier::external_body]
pub fn aesgcm_decrypt(key: &Vec<u8>, nonce: &Vec<u8>, ct: &Vec<u8>, aad: &Vec<u8>) -> (r: Option<
    Vec<u8>,
>)
    requires
        key@.len() == 32,
        nonce@.len() == 12,
        ct@.len() < 0x8_0000_0100,
    ensures
        r is Some <==> exists|pt: Seq<u8>| ct@ == aes_gcm_ct(key@, nonce@, pt, aad@),
        r matches Some(v) ==> ct@ == aes_gcm_ct(key@, nonce@, v@, aad@),
        r matches Some(v) ==> v@.len() + 16 == ct@.len(),
        r matches Some(v) ==> forall|pt: Seq<u8>|
            ct@ == aes_gcm_ct(key@, nonce@, pt, aad@) ==> v@ == pt,
{
    let cipher = Aes256Gcm::new(GenericArray::from_slice(key));
    let payload = aes_gcm::aead::Payload { msg: ct, aad };
    match cipher.decrypt(GenericArray::from_slice(nonce), payload) {
        Ok(pt) => Some(pt),
        Err(_) => None,
    }
}

/// Relies on chacha20poly1305::ChaCha20Poly1305::encrypt: deterministic in
/// the key, nonce, plaintext and associated data; the ciphertext is the
/// plaintext length plus a 16-byte tag.  The length bound keeps the buffer
/// under the construction's block limit, its only failure condition: this
/// crate does not bound the associated data.
#[verifier::external_body]
pub fn chacha_encrypt(key: &Vec<u8>, nonce: &Vec<u8>, pt: &Vec<u8>, aad: &Vec<u8>) -> (r: Vec<u8>)
    requires
        key@.len() == 32,
        nonce@.len() == 12,
        pt@.len() < 0x8_0000_0000,
    ensures
        r@ == chacha_ct(key@, nonce@, pt@, aad@),
        r@.len() == pt@.len() + 16,
{
    let cipher = ChaCha20Poly1305::new(GenericArray::from_slice(key));
    let payload = chacha20poly1305::aead::Payload { msg: pt, aad };
    cipher.encrypt(GenericArray::from_slice(nonce), payload).expect("ChaCha20-Poly1305 encrypt")
}

/// Relies on chacha20poly1305::ChaCha20Poly1305::decrypt: it recomputes
/// the tag over the ciphertext and associated data and succeeds exactly
/// when the tag verifies, that is, exactly when the ciphertext is the
/// encryption of some plaintext under this key, nonce and associated data;
/// the result is then that plaintext.
#[verifier::external_body]
pub fn chacha_decrypt(key: &Vec<u8>, nonce: &Vec<u8>, ct: &Vec<u8>, aad: &Vec<u8>) -> (r: Option<
    Vec<u8>,
>)
    requires
        key@.len() == 32,
        nonce@.len() == 12,
        ct@.len() < 0x8_0000_0100,
    ensures
        r is Some <==> exists|pt: Seq<u8>| ct@ == chacha_ct(key@, nonce@, pt, aad@),
        r matches Some(v) ==> ct@ == chacha_ct(key@, nonce@, v@, aad@),
        r matches Some(v) ==> v@.len() + 16 == ct@.len(),
        r matches Some(v) ==> forall|pt: Seq<u8>|
            ct@ == chacha_ct(key@, nonce@, pt, aad@) ==> v@ == pt,
{
    let cipher = ChaCha20Poly1305::new(GenericArray::from_slice(key));
    let payload = chacha20poly1305::aead::Payload { msg: ct, aad };
    match cipher.decrypt(GenericArray::from_slice(nonce), payload) {
        Ok(pt) => Some(pt),
        Err(_) => None,
    }
}

/// Relies on rand::rngs::OsRng::fill_bytes for a fresh 12-byte nonce from
/// the operating system's randomness source.  Nothing is promised of the
/// value; exhaustion of the source is an unrecoverable fault.
#[verifier::external_body]
pub fn fresh_nonce() -> (r: Vec<u8>)
    ensures
        r@.len() == 12,
{
    let mut nonce = [0u8; 12];
    rand::rngs::OsRng.fill_bytes(&mut nonce);
    nonce.to_vec()
}

/// Relies on rand::random for a bundle identifier.  Nothing is promised of
/// the value.
#[verifier::external_body]
pub fn random_u64() -> (r: u64) {
    rand::random::<u64>()
}

/// Relies on base64::engine::general_purpose::STANDARD.encode: padded
/// standard-alphabet base64, deterministic in the input bytes, four output
/// characters for every three input bytes begun.
#[verifier::external_body]
pub fn b64_encode(bytes: &Vec<u8>) -> (r: Vec<u8>)
    ensures
        r@ == b64_of(bytes@),
        r@.len() == ((bytes@.len() + 2) / 3) * 4,
{
    general_purpose::STANDARD.encode(bytes).into_bytes()
}

/// Relies on base64::engine::general_purpose::STANDARD.decode: the
/// standard engine requires canonical padding and rejects set trailing
/// bits, so it succeeds exactly on the encodings that
/// general_purpose::STANDARD.encode produces, and inverts them.
#[verifier::external_body]
pub fn b64_decode(text: &Vec<u8>) -> (r: Option<Vec<u8>>)
    ensures
        r is Some <==> exists|x: Seq<u8>| text@ == b64_of(x),
        r matches Some(v) ==> text@ == b64_of(v@),
        r matches Some(v) ==> forall|x: Seq<u8>| text@ == b64_of(x) ==> v@ == x,
{
    match general_purpose::STANDARD.decode(text) {
        Ok(v) => Some(v),
        Err(_) => None,
    }
}

} // verus!
