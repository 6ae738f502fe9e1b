//! Blob codec: the wire format of a stored secret.
//!
//! A blob is `nonce(12 bytes) || ciphertext`; the nonce is generated fresh
//! per encryption call. `seal` wraps this format around the cipher and
//! `open` unwraps it, so that opening a sealed blob under the same cipher
//! returns the sealed plaintext.

use crate::encryption::{aes256_gcm_open, Cipher, EncryptError, NONCE_SIZE, PLAINTEXT_LEN_MAX};
use crate::errors::StoreError;
use vstd::prelude::*;
use vstd::slice::slice_subrange;

verus! {

/// What opening `blob` under `key` yields: `MalformedBlob` when the blob is
/// shorter than a nonce, `AuthenticationFailure` when the tag does not
/// verify, the plaintext otherwise.
pub open spec fn spec_open_blob(key: Seq<u8>, blob: Seq<u8>) -> Result<Seq<u8>, StoreError> {
    if blob.len() < NONCE_SIZE {
        Err(StoreError::MalformedBlob)
    } else {
        match aes256_gcm_open(key, blob.take(NONCE_SIZE as int), blob.skip(NONCE_SIZE as int)) {
            Some(p) => Ok(p),
            None => Err(StoreError::AuthenticationFailure),
        }
    }
}

/// Encrypts `plaintext` and returns `nonce || ciphertext`.
///
/// Round-trip law: on success, opening the returned blob under the same
/// cipher yields `plaintext` again, as the postcondition states.
pub fn seal(cipher: &Cipher, plaintext: &[u8]) -> (r: Result<Vec<u8>, EncryptError>)
    ensures
        r matches Ok(b) ==> b@.len() == plaintext@.len() + 28 && spec_open_blob(cipher@, b@)
            == Ok::<Seq<u8>, StoreError>(plaintext@),
        plaintext@.len() <= PLAINTEXT_LEN_MAX ==> r is Ok,
{
    let msg = match cipher.encrypt(plaintext) {
        Ok(m) => m,
        Err(e) => {
            return Err(e);
        },
    };
    let nonce = msg.nonce();
    let mut blob: Vec<u8> = Vec::new();
    blob.extend_from_slice(&nonce);
    blob.extend_from_slice(msg.ciphertext());
    proof {
        assert(blob@.take(NONCE_SIZE as int) =~= msg@.nonce);
        assert(blob@.skip(NONCE_SIZE as int) =~= msg@.ciphertext);
    }
    Ok(blob)
}

/// Splits the first 12 bytes off as the nonce and decrypts the remainder.
/// Fails with `MalformedBlob` on a blob shorter than a nonce and with
/// `AuthenticationFailure` when the ciphertext does not authenticate; no
/// partial plaintext is ever returned.
pub fn open(cipher: &Cipher, blob: &[u8]) -> (r: Result<Vec<u8>, StoreError>)
    ensures
        r matches Ok(p) ==> spec_open_blob(cipher@, blob@) == Ok::<Seq<u8>, StoreError>(p@),
        r matches Err(e) ==> spec_open_blob(cipher@, blob@) == Err::<Seq<u8>, StoreError>(e),
{
    if blob.len() < NONCE_SIZE {
        return Err(StoreError::MalformedBlob);
    }
    let nonce_slice = slice_subrange(blob, 0, NONCE_SIZE);
    let mut nonce: [u8; 12] = [0; 12];
    let mut i: usize = 0;
    while i < 12
        invariant
            i <= 12,
            nonce_slice@.len() == 12,
            nonce_slice@ == blob@.take(NONCE_SIZE as int),
            forall|j: int| 0 <= j < i ==> nonce@[j] == nonce_slice@[j],
        decreases 12 - i,
    {
        nonce[i] = *vstd::slice::slice_index_get(nonce_slice, i);
        i += 1;
    }
    assert(nonce@ =~= blob@.take(NONCE_SIZE as int));
    let ciphertext = slice_subrange(blob, NONCE_SIZE, blob.len());
    match cipher.decrypt(ciphertext, &nonce) {
        Ok(p) => Ok(p),
        Err(_) => Err(StoreError::AuthenticationFailure),
    }
}

} // verus!
