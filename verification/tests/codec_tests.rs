use password_store::blob::{open, seal};
use password_store::encryption::{Cipher, CipherKey};
use password_store::errors::StoreError;
use password_store::record::{
    decode_entry_data, decode_group_data, encode_entry_data, encode_group_data,
};
use password_store::model::{EntryData, EntryGroupData};

fn test_cipher(secret: &[u8]) -> Cipher {
    Cipher::new(&CipherKey::from_bytes(secret))
}

#[test]
fn encrypt_then_decrypt_blob() {
    let blob_data = b"some data";
    let cipher_secret = b"secret key";
    let test_cipher = test_cipher(cipher_secret.as_slice());
    let encrypted = seal(&test_cipher, blob_data).unwrap();
    let decrypted = open(&test_cipher, encrypted.as_slice()).unwrap();

    assert_eq!(decrypted.as_slice(), blob_data);
}

#[test]
fn seal_open_round_trip_empty_plaintext() {
    let cipher = test_cipher(b"k");
    let sealed = seal(&cipher, b"").unwrap();
    assert_eq!(sealed.len(), 28);
    let opened = open(&cipher, sealed.as_slice()).unwrap();
    assert_eq!(opened.len(), 0);
}

#[test]
fn sealing_twice_gives_different_blobs() {
    let cipher = test_cipher(b"nonce freshness");
    let one = seal(&cipher, b"same plaintext").unwrap();
    let two = seal(&cipher, b"same plaintext").unwrap();
    assert_ne!(one, two);
}

#[test]
fn flipping_any_bit_fails_authentication() {
    let cipher = test_cipher(b"tamper detection");
    let sealed = seal(&cipher, b"plaintext message").unwrap();
    for byte in 0..sealed.len() {
        for bit in 0..8 {
            let mut tampered = sealed.clone();
            tampered[byte] ^= 1 << bit;
            let got = open(&cipher, tampered.as_slice());
            assert_eq!(got.unwrap_err(), StoreError::AuthenticationFailure);
        }
    }
}

#[test]
fn wrong_key_fails_authentication() {
    let sealed = seal(&test_cipher(b"key one"), b"guarded").unwrap();
    let got = open(&test_cipher(b"key two"), sealed.as_slice());
    assert_eq!(got.unwrap_err(), StoreError::AuthenticationFailure);
}

#[test]
fn short_blob_is_malformed() {
    let cipher = test_cipher(b"short");
    assert_eq!(
        open(&cipher, &[0u8; 11]).unwrap_err(),
        StoreError::MalformedBlob
    );
    assert_eq!(open(&cipher, &[]).unwrap_err(), StoreError::MalformedBlob);
}

#[test]
fn entry_record_round_trip() {
    let data = EntryData::new(
        String::from("site1"),
        String::from("alice@x"),
        String::from("p@ss"),
    );
    let bytes = encode_entry_data(&data);
    let back = decode_entry_data(bytes.as_slice()).unwrap();
    assert_eq!(back.name(), "site1");
    assert_eq!(back.username(), "alice@x");
    assert_eq!(back.password(), "p@ss");
}

#[test]
fn entry_record_round_trip_non_ascii_and_empty() {
    let data = EntryData::new(
        String::from("пароль λ"),
        String::new(),
        String::from("🔑"),
    );
    let bytes = encode_entry_data(&data);
    let back = decode_entry_data(bytes.as_slice()).unwrap();
    assert_eq!(back.name(), "пароль λ");
    assert_eq!(back.username(), "");
    assert_eq!(back.password(), "🔑");
}

#[test]
fn group_record_round_trip() {
    let data = EntryGroupData::new(String::from("group name"));
    let bytes = encode_group_data(&data);
    let back = decode_group_data(bytes.as_slice()).unwrap();
    assert_eq!(back.name(), "group name");
}

#[test]
fn entry_record_encoding_is_deterministic() {
    let a = EntryData::new(String::from("n"), String::from("u"), String::from("p"));
    let b = EntryData::new(String::from("n"), String::from("u"), String::from("p"));
    assert_eq!(encode_entry_data(&a), encode_entry_data(&b));
}

#[test]
fn decode_rejects_trailing_bytes() {
    let data = EntryGroupData::new(String::from("g"));
    let mut bytes = encode_group_data(&data);
    bytes.push(0);
    assert_eq!(
        decode_group_data(bytes.as_slice()).unwrap_err(),
        StoreError::CorruptRecord
    );
}

#[test]
fn decode_rejects_wrong_tag_truncation_and_bad_utf8() {
    let entry = EntryData::new(String::from("n"), String::from("u"), String::from("p"));
    let entry_bytes = encode_entry_data(&entry);
    // A group decoder must not accept an entry record.
    assert_eq!(
        decode_group_data(entry_bytes.as_slice()).unwrap_err(),
        StoreError::CorruptRecord
    );
    // Truncation anywhere is rejected.
    assert_eq!(
        decode_entry_data(&entry_bytes[..entry_bytes.len() - 1]).unwrap_err(),
        StoreError::CorruptRecord
    );
    assert_eq!(
        decode_entry_data(&[]).unwrap_err(),
        StoreError::CorruptRecord
    );
    // A field whose bytes are not valid UTF-8 is rejected.
    let mut bad = vec![2u8];
    bad.extend_from_slice(&1u64.to_le_bytes());
    bad.push(0xFF);
    assert_eq!(
        decode_group_data(bad.as_slice()).unwrap_err(),
        StoreError::CorruptRecord
    );
}
