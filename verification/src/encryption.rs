//! Key derivation and authenticated encryption.
//!
//! A 256-bit key is derived from credential material by one SHA-256 pass;
//! payloads are encrypted with AES-256-GCM under a fresh random 96-bit nonce
//! per call. Decryption is all-or-nothing: a tampered or wrong-key
//! ciphertext yields an error, never garbage plaintext.

use aes_gcm::aead::{Aead, AeadCore, KeyInit, OsRng};
use aes_gcm::{Aes256Gcm, Nonce};
use vstd::prelude::*;

verus! {

/// Size in bytes of the AES-GCM nonce; part of the on-disk wire format.
pub const NONCE_SIZE: usize = 12;

/// The SHA-256 digest of a byte sequence. The digest is a function of the
/// input bytes alone; nothing more is assumed of it.
pub uninterp spec fn sha256_of(input: Seq<u8>) -> Seq<u8>;

/// The plaintext that AES-256-GCM decryption (empty associated data)
/// recovers from `ciphertext` under `key` and `nonce`, or `None` when
/// authentication fails. Decryption is a function of these three alone.
pub uninterp spec fn aes256_gcm_open(key: Seq<u8>, nonce: Seq<u8>, ciphertext: Seq<u8>) -> Option<
    Seq<u8>,
>;

/// Relies on `hmac_sha256::Hash::hash`: a single SHA-256 pass over the
/// input, producing a 32-byte digest that depends on the input alone.
#[verifier::external_body]
fn sha256(input: &[u8]) -> (r: [u8; 32])
    ensures
        r@ == sha256_of(input@),
{
    hmac_sha256::Hash::hash(input)
}

/// Largest plaintext length (2^36 bytes) that AES-GCM accepts.
pub const PLAINTEXT_LEN_MAX: u64 = 0x10_0000_0000;

/// Relies on `aes_gcm::Aes256Gcm`: `encrypt` draws a fresh random 96-bit
/// nonce from the operating system, appends a 16-byte authentication tag to
/// the ciphertext, fails only when the plaintext exceeds 2^36 bytes, and
/// `decrypt` under the same key and nonce returns the plaintext.
#[verifier::external_body]
fn aes256_gcm_seal(key: &[u8; 32], plaintext: &[u8]) -> (r: Result<
    EncryptedMessage,
    EncryptError,
>)
    ensures
        r matches Ok(m) ==> m@.ciphertext.len() == plaintext@.len() + 16 && aes256_gcm_open(
            key@,
            m@.nonce,
            m@.ciphertext,
        ) == Some(plaintext@),
        plaintext@.len() <= PLAINTEXT_LEN_MAX ==> r is Ok,
{
    let aes = Aes256Gcm::new(key.into());
    let nonce = Aes256Gcm::generate_nonce(&mut OsRng);
    match aes.encrypt(&nonce, plaintext) {
        Ok(ciphertext) => Ok(EncryptedMessage { nonce: nonce.into(), ciphertext }),
        Err(_) => Err(EncryptError),
    }
}

/// Relies on `aes_gcm::Aes256Gcm`: `decrypt` is deterministic in key, nonce
/// and ciphertext, and fails on any authentication-tag mismatch, returning
/// no partial plaintext.
#[verifier::external_body]
fn aes256_gcm_unseal(key: &[u8; 32], nonce: &[u8; 12], ciphertext: &[u8]) -> (r: Result<
    Vec<u8>,
    DecryptError,
>)
    ensures
        r matches Ok(p) ==> aes256_gcm_open(key@, nonce@, ciphertext@) == Some(p@),
        r is Err ==> aes256_gcm_open(key@, nonce@, ciphertext@) is None,
{
    let aes = Aes256Gcm::new(key.into());
    match aes.decrypt(Nonce::from_slice(&nonce[..]), ciphertext) {
        Ok(plaintext) => Ok(plaintext),
        Err(_) => Err(DecryptError),
    }
}

/// A 256-bit cipher key, derived deterministically from credential material.
pub struct CipherKey {
    bytes: [u8; 32],
}

impl View for CipherKey {
    type V = Seq<u8>;

    closed spec fn view(&self) -> Seq<u8> {
        self.bytes@
    }
}

impl CipherKey {
    /// Wraps 32 raw key bytes.
    pub fn new(bytes: [u8; 32]) -> (r: Self)
        ensures
            r@ == bytes@,
    {
        CipherKey { bytes }
    }

    /// Key from one hash pass over arbitrary bytes.
    pub fn from_bytes(input: &[u8]) -> (r: Self)
        ensures
            r@ == sha256_of(input@),
    {
        CipherKey { bytes: sha256(input) }
    }
}

/// The transient result of one encryption call: a fresh 12-byte nonce and
/// the tagged ciphertext. Consumed immediately by the blob codec.
pub struct EncryptedMessage {
    nonce: [u8; 12],
    ciphertext: Vec<u8>,
}

pub ghost struct EncryptedMessageView {
    pub nonce: Seq<u8>,
    pub ciphertext: Seq<u8>,
}

impl View for EncryptedMessage {
    type V = EncryptedMessageView;

    closed spec fn view(&self) -> EncryptedMessageView {
        EncryptedMessageView { nonce: self.nonce@, ciphertext: self.ciphertext@ }
    }
}

impl EncryptedMessage {
    pub fn ciphertext(&self) -> (r: &[u8])
        ensures
            r@ == self@.ciphertext,
    {
        self.ciphertext.as_slice()
    }

    pub fn nonce(&self) -> (r: [u8; 12])
        ensures
            r@ == self@.nonce,
    {
        self.nonce
    }
}

/// Encryption failed (plaintext over the AES-GCM length bound).
#[derive(Debug)]
pub struct EncryptError;

/// Decryption failed: the ciphertext was not produced under this key and
/// nonce, or has been tampered with.
#[derive(Debug)]
pub struct DecryptError;

/// One AEAD context, keyed for the lifetime of a store session.
pub struct Cipher {
    key: [u8; 32],
}

impl View for Cipher {
    type V = Seq<u8>;

    closed spec fn view(&self) -> Seq<u8> {
        self.key@
    }
}

impl Cipher {
    pub fn new(key: &CipherKey) -> (r: Self)
        ensures
            r@ == key@,
    {
        Cipher { key: key.bytes }
    }

    /// Encrypts under a fresh random nonce. Never takes a caller-supplied
    /// nonce, so a nonce is never reused under this key by construction.
    pub fn encrypt(&self, plaintext: &[u8]) -> (r: Result<EncryptedMessage, EncryptError>)
        ensures
            r matches Ok(m) ==> m@.nonce.len() == 12 && m@.ciphertext.len() == plaintext@.len()
                + 16 && aes256_gcm_open(self@, m@.nonce, m@.ciphertext) == Some(plaintext@),
            plaintext@.len() <= PLAINTEXT_LEN_MAX ==> r is Ok,
    {
        aes256_gcm_seal(&self.key, plaintext)
    }

    /// Decrypts all-or-nothing: returns exactly the sealed plaintext, or an
    /// error when the tag does not verify.
    pub fn decrypt(&self, ciphertext: &[u8], nonce: &[u8; 12]) -> (r: Result<Vec<u8>, DecryptError>)
        ensures
            r matches Ok(p) ==> aes256_gcm_open(self@, nonce@, ciphertext@) == Some(p@),
            r is Err ==> aes256_gcm_open(self@, nonce@, ciphertext@) is None,
    {
        aes256_gcm_unseal(&self.key, nonce, ciphertext)
    }
}

} // verus!
