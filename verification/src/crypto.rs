//! Calls into the cryptography crates and the system's random source.

use vstd::prelude::*;

use aes_gcm::aead::{Aead, KeyInit, Payload};
use aes_gcm::{Aes256Gcm, Nonce};
use base64::Engine;
use sha2::{Digest, Sha256};

verus! {

/// The longest message AES-GCM encrypts under one nonce: its 32-bit block counter starts at two.
pub const MAX_PLAINTEXT: u64 = 0xf_ffff_ffe0;

/// The longest associated data AES-GCM authenticates.
pub const MAX_ASSOCIATED_DATA: u64 = 0x10_0000_0000;

/// The length of an AES-GCM tag.
pub const TAG_BYTES: u64 = 16;

/// The SHA-256 digest of some bytes.
pub uninterp spec fn sha256(bytes: Seq<u8>) -> Seq<u8>;

/// What the standard base64 alphabet with padding decodes a text to, if it is base64.
pub uninterp spec fn base64_decoded(text: Seq<char>) -> Option<Seq<u8>>;

/// Some bytes in the standard base64 alphabet with padding.
pub uninterp spec fn base64_text(bytes: Seq<u8>) -> Seq<char>;

/// The AES-256-GCM ciphertext of a message with its tag behind it.
pub uninterp spec fn aes_gcm_sealed(
    key: Seq<u8>,
    nonce: Seq<u8>,
    associated: Seq<u8>,
    message: Seq<u8>,
) -> Seq<u8>;

/// The message behind an AES-256-GCM ciphertext, if its tag is genuine.
pub uninterp spec fn aes_gcm_opened(
    key: Seq<u8>,
    nonce: Seq<u8>,
    associated: Seq<u8>,
    ciphertext: Seq<u8>,
) -> Option<Seq<u8>>;

/// The bytes of an optional byte vector.
pub open spec fn bytes_in(bytes: Option<Vec<u8>>) -> Option<Seq<u8>> {
    match bytes {
        Some(bytes) => Some(bytes@),
        None => None,
    }
}

/// Whether two ciphertexts differ in the tag behind them and in nothing else.
pub open spec fn other_tag(sealed: Seq<u8>, altered: Seq<u8>) -> bool {
    &&& sealed.len() == altered.len() >= TAG_BYTES
    &&& sealed.take(sealed.len() - TAG_BYTES) == altered.take(altered.len() - TAG_BYTES)
    &&& sealed != altered
}

/// `Sha256::digest`.
#[verifier::external_body]
pub(crate) fn digest(bytes: &[u8]) -> (digest: [u8; 32])
    ensures
        digest@ == sha256(bytes@),
{
    Sha256::digest(bytes).into()
}

/// `decode` of base64's `STANDARD` engine.
#[verifier::external_body]
pub(crate) fn decode_base64(text: &str) -> (decoded: Option<Vec<u8>>)
    ensures
        bytes_in(decoded) == base64_decoded(text@),
{
    base64::engine::general_purpose::STANDARD.decode(text).ok()
}

/// `encode` of base64's `STANDARD` engine: what it writes, `decode` reads back.
#[verifier::external_body]
pub(crate) fn encode_base64(bytes: &[u8]) -> (text: String)
    requires
        bytes@.len() <= isize::MAX / 2,
    ensures
        text@ == base64_text(bytes@),
        base64_decoded(text@) == Some(bytes@),
{
    base64::engine::general_purpose::STANDARD.encode(bytes)
}

/// `getrandom::fill`: as many bytes as asked for from the system's random source, or the message
/// of the error. Nothing is said of the bytes themselves.
#[verifier::external_body]
pub(crate) fn random_bytes(count: usize) -> (bytes: Result<Vec<u8>, String>)
    ensures
        bytes matches Ok(bytes) ==> bytes@.len() == count,
{
    let mut bytes = vec![0u8; count];
    getrandom::fill(&mut bytes).map(|_| bytes).map_err(|error| error.to_string())
}

/// `Aead::encrypt` of `Aes256Gcm`: it fails only on a message or associated data beyond the
/// lengths it takes. The ciphertext is as long as the message and its tag.
#[verifier::external_body]
pub(crate) fn encrypt(key: &[u8; 32], nonce: &[u8; 12], associated: &[u8], message: &[u8]) -> (
    ciphertext: Option<Vec<u8>>)
    requires
        message@.len() <= MAX_PLAINTEXT,
        associated@.len() <= MAX_ASSOCIATED_DATA,
    ensures
        bytes_in(ciphertext) == Some(aes_gcm_sealed(key@, nonce@, associated@, message@)),
        ciphertext matches Some(bytes) ==> bytes@.len() == message@.len() + TAG_BYTES,
{
    let payload = Payload { msg: message, aad: associated };
    Aes256Gcm::new(key.into()).encrypt(Nonce::from_slice(nonce), payload).ok()
}

/// `Aead::decrypt` of `Aes256Gcm`: what was encrypted with the same key, nonce and associated data
/// comes back as it was, and with another tag behind it is refused.
#[verifier::external_body]
pub(crate) fn decrypt(key: &[u8; 32], nonce: &[u8; 12], associated: &[u8], ciphertext: &[u8]) -> (
    message: Option<Vec<u8>>)
    requires
        ciphertext@.len() <= MAX_PLAINTEXT + TAG_BYTES,
    ensures
        bytes_in(message) == aes_gcm_opened(key@, nonce@, associated@, ciphertext@),
        forall|original: Seq<u8>|
            original.len() <= MAX_PLAINTEXT && associated@.len() <= MAX_ASSOCIATED_DATA
                && #[trigger] aes_gcm_sealed(key@, nonce@, associated@, original) == ciphertext@
                ==> bytes_in(message) == Some(original),
        forall|original: Seq<u8>|
            original.len() <= MAX_PLAINTEXT && associated@.len() <= MAX_ASSOCIATED_DATA
                && other_tag(
                #[trigger] aes_gcm_sealed(key@, nonce@, associated@, original),
                ciphertext@,
            ) ==> message is None,
{
    let payload = Payload { msg: ciphertext, aad: associated };
    Aes256Gcm::new(key.into()).decrypt(Nonce::from_slice(nonce), payload).ok()
}

} // verus!
