use aes_gcm::aead::{AeadCore, OsRng};
use aes_gcm::Aes256Gcm;
use password_store::encryption::{Cipher, CipherKey};

#[test]
fn can_decrypt() {
    let secret = b"my super secret key";
    let og_plaintext = b"plaintext message";
    let cipher = Cipher::new(&CipherKey::from_bytes(secret.as_slice()));
    let msg = cipher.encrypt(og_plaintext).expect("encrypt error");
    let plaintext = cipher
        .decrypt(msg.ciphertext(), &msg.nonce())
        .expect("decrypt error");

    assert_eq!(plaintext.as_slice(), og_plaintext);
}

#[test]
fn different_nonce_cant_decrypt() {
    let secret = b"my super secret key";
    let og_plaintext = b"plaintext message";
    let cipher = Cipher::new(&CipherKey::from_bytes(secret.as_slice()));
    let msg = cipher.encrypt(og_plaintext).expect("encrypt error");

    let wrong_nonce: [u8; 12] = Aes256Gcm::generate_nonce(&mut OsRng).into();
    cipher.decrypt(msg.ciphertext(), &wrong_nonce).unwrap_err();
}

#[test]
fn different_key_cant_decrypt() {
    let secret = b"my super secret key";
    let og_plaintext = b"plaintext message";
    let cipher = Cipher::new(&CipherKey::from_bytes(secret.as_slice()));
    let msg = cipher.encrypt(og_plaintext).expect("encrypt error");

    let wrong_secret = b"1234";
    let wrong_cipher = Cipher::new(&CipherKey::from_bytes(wrong_secret.as_slice()));
    wrong_cipher
        .decrypt(msg.ciphertext(), &msg.nonce())
        .unwrap_err();
}

#[test]
fn encrypted_message_has_fresh_nonce_and_tagged_ciphertext() {
    let cipher = Cipher::new(&CipherKey::from_bytes(b"key material".as_slice()));
    let msg = cipher.encrypt(b"payload").expect("encrypt error");
    // 16-byte authentication tag appended to the 7 plaintext bytes.
    assert_eq!(msg.ciphertext().len(), 7 + 16);
    // The ciphertext is not the plaintext handed back unchanged.
    assert_ne!(&msg.ciphertext()[..7], b"payload".as_slice());
}

#[test]
fn key_derivation_is_deterministic_and_not_identity() {
    let k1 = CipherKey::from_bytes(b"some credential bytes".as_slice());
    let k2 = CipherKey::from_bytes(b"some credential bytes".as_slice());
    let c1 = Cipher::new(&k1);
    let c2 = Cipher::new(&k2);
    // The two ciphers interoperate, so the derived keys are equal.
    let msg = c1.encrypt(b"check").expect("encrypt error");
    let plaintext = c2
        .decrypt(msg.ciphertext(), &msg.nonce())
        .expect("decrypt error");
    assert_eq!(plaintext.as_slice(), b"check");
    // A key from different input does not interoperate, so hashing is
    // not handing the input back unchanged.
    let c3 = Cipher::new(&CipherKey::from_bytes(b"other credential bytes".as_slice()));
    c3.decrypt(msg.ciphertext(), &msg.nonce()).unwrap_err();
}
