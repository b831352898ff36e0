use base64::Engine;
use vault_crypto::backup::{decrypt_envelope, encrypt_backup_with};
use vault_crypto::{decrypt_backup, encrypt_backup, CryptoError};

const SALT: [u8; 16] = [0, 1, 2, 3, 4, 5, 6, 7, 8, 9, 10, 11, 12, 13, 14, 15];
const NONCE: [u8; 12] = [100, 101, 102, 103, 104, 105, 106, 107, 108, 109, 110, 111];

/// "hello backup" under "correct horse" with `SALT` and `NONCE`.
const HELLO: &str =
    "AQABAgMEBQYHCAkKCwwNDg9kZWZnaGlqa2xtbm88O/9tWSCEVpSM9V/EZschWsl+D/jFk+c1DH5y";

fn b64(bytes: &[u8]) -> String {
    base64::engine::general_purpose::STANDARD.encode(bytes)
}

fn unb64(text: &str) -> Vec<u8> {
    base64::engine::general_purpose::STANDARD.decode(text).unwrap()
}

#[test]
fn backup_round_trip() {
    let text = encrypt_backup("hello".to_string(), "pw".to_string()).unwrap();
    assert_eq!(decrypt_backup(text, "pw".to_string()), Ok("hello".to_string()));
}

#[test]
fn backup_round_trip_of_empty_plaintext() {
    let text = encrypt_backup(String::new(), "pw".to_string()).unwrap();
    assert_eq!(unb64(&text).len(), 1 + 16 + 12 + 16);
    assert_eq!(decrypt_backup(text, "pw".to_string()), Ok(String::new()));
}

#[test]
fn backup_round_trip_of_unicode_and_empty_password() {
    let plain = "{\"名前\":\"päss → 秘密\"}".to_string();
    let text = encrypt_backup(plain.clone(), String::new()).unwrap();
    assert_eq!(decrypt_backup(text, String::new()), Ok(plain));
}

#[test]
fn backup_envelope_layout() {
    let text = encrypt_backup("abc".to_string(), "pw".to_string()).unwrap();
    let bytes = unb64(&text);
    assert_eq!(bytes[0], 1);
    assert_eq!(bytes.len(), 1 + 16 + 12 + 3 + 16);
}

#[test]
fn backup_salt_and_nonce_are_fresh() {
    let first = unb64(&encrypt_backup("abc".to_string(), "pw".to_string()).unwrap());
    let second = unb64(&encrypt_backup("abc".to_string(), "pw".to_string()).unwrap());
    assert_ne!(first[1..17], second[1..17]);
    assert_ne!(first[17..29], second[17..29]);
    assert_ne!(first, second);
}

#[test]
fn backup_with_fixed_salt_and_nonce() {
    assert_eq!(
        encrypt_backup_with("hello backup", "correct horse", &SALT, &NONCE),
        Ok(HELLO.to_string())
    );
}

#[test]
fn backup_with_fixed_salt_and_nonce_empty_plaintext() {
    assert_eq!(
        encrypt_backup_with("", "correct horse", &SALT, &NONCE),
        Ok("AQABAgMEBQYHCAkKCwwNDg9kZWZnaGlqa2xtbm9At4fhAusBq6tO9J0UizBf".to_string())
    );
}

#[test]
fn backup_with_fixed_salt_and_nonce_unicode() {
    let expected =
        "AQABAgMEBQYHCAkKCwwNDg9kZWZnaGlqa2xtbm8FtCrqXNnRtFH22MJNbYDQ3d9dTi73JbpVxE1iIH5Zhg==";
    assert_eq!(
        encrypt_backup_with("päss → 秘密", "pässwörd", &SALT, &NONCE),
        Ok(expected.to_string())
    );
    assert_eq!(
        decrypt_backup(expected.to_string(), "pässwörd".to_string()),
        Ok("päss → 秘密".to_string())
    );
}

#[test]
fn decrypt_known_envelope() {
    assert_eq!(
        decrypt_backup(HELLO.to_string(), "correct horse".to_string()),
        Ok("hello backup".to_string())
    );
}

#[test]
fn decrypt_envelope_bytes() {
    assert_eq!(decrypt_envelope(&unb64(HELLO), "correct horse"), Ok("hello backup".to_string()));
}

#[test]
fn wrong_password_fails() {
    assert_eq!(
        decrypt_backup(HELLO.to_string(), "correct horsf".to_string()),
        Err(CryptoError::DecryptionFailed)
    );
    assert_eq!(
        decrypt_backup(HELLO.to_string(), String::new()),
        Err(CryptoError::DecryptionFailed)
    );
}

fn tampered(at: usize) -> String {
    let mut bytes = unb64(HELLO);
    bytes[at] ^= 0x01;
    b64(&bytes)
}

#[test]
fn tampered_ciphertext_start_fails() {
    assert_eq!(
        decrypt_backup(tampered(29), "correct horse".to_string()),
        Err(CryptoError::DecryptionFailed)
    );
    assert_eq!(
        decrypt_backup(tampered(30), "correct horse".to_string()),
        Err(CryptoError::DecryptionFailed)
    );
}

#[test]
fn tampered_ciphertext_middle_fails() {
    assert_eq!(
        decrypt_backup(tampered(35), "correct horse".to_string()),
        Err(CryptoError::DecryptionFailed)
    );
    assert_eq!(
        decrypt_backup(tampered(40), "correct horse".to_string()),
        Err(CryptoError::DecryptionFailed)
    );
}

#[test]
fn tampered_tag_fails() {
    assert_eq!(
        decrypt_backup(tampered(41), "correct horse".to_string()),
        Err(CryptoError::DecryptionFailed)
    );
    assert_eq!(
        decrypt_backup(tampered(56), "correct horse".to_string()),
        Err(CryptoError::DecryptionFailed)
    );
}

#[test]
fn tampered_every_byte_of_a_short_ciphertext_fails() {
    let text = encrypt_backup_with("", "k", &SALT, &NONCE).unwrap();
    let bytes = unb64(&text);
    for at in [29usize, 33, 37, 41, 44] {
        let mut changed = bytes.clone();
        changed[at] ^= 0x80;
        assert_eq!(
            decrypt_backup(b64(&changed), "k".to_string()),
            Err(CryptoError::DecryptionFailed)
        );
    }
}

#[test]
fn tampered_salt_or_nonce_fails() {
    assert_eq!(
        decrypt_backup(tampered(1), "correct horse".to_string()),
        Err(CryptoError::DecryptionFailed)
    );
    assert_eq!(
        decrypt_backup(tampered(17), "correct horse".to_string()),
        Err(CryptoError::DecryptionFailed)
    );
}

#[test]
fn truncated_ciphertext_fails() {
    let bytes = unb64(HELLO);
    assert_eq!(
        decrypt_backup(b64(&bytes[..bytes.len() - 1]), "correct horse".to_string()),
        Err(CryptoError::DecryptionFailed)
    );
}

#[test]
fn unknown_version_is_rejected() {
    let v2 = "AgABAgMEBQYHCAkKCwwNDg9kZWZnaGlqa2xtbm88O/9tWSCEVpSM9V/EZschWsl+D/jFk+c1DH5y";
    assert_eq!(
        decrypt_backup(v2.to_string(), "correct horse".to_string()),
        Err(CryptoError::UnsupportedVersion)
    );
    let mut bytes = unb64(HELLO);
    bytes[0] = 0;
    assert_eq!(
        decrypt_backup(b64(&bytes), "correct horse".to_string()),
        Err(CryptoError::UnsupportedVersion)
    );
    bytes[0] = 255;
    assert_eq!(decrypt_envelope(&bytes, "correct horse"), Err(CryptoError::UnsupportedVersion));
}

#[test]
fn unknown_version_at_the_shortest_versioned_length() {
    let mut bytes = vec![0u8; 30];
    bytes[0] = 7;
    assert_eq!(decrypt_backup(b64(&bytes), "pw".to_string()), Err(CryptoError::UnsupportedVersion));
}

#[test]
fn text_that_is_not_base64_is_invalid_data() {
    assert_eq!(
        decrypt_backup("not base64!".to_string(), "pw".to_string()),
        Err(CryptoError::InvalidData)
    );
    assert_eq!(decrypt_backup("AQAB".to_string() + "=", "pw".to_string()), Err(CryptoError::InvalidData));
    // padding left out
    let unpadded = "AQABAgMEBQYHCAkKCwwNDg9kZWZnaGlqa2xtbm8FtCrqXNnRtFH22MJNbYDQ3d9dTi73JbpVxE1iIH5Zhg";
    assert_eq!(
        decrypt_backup(unpadded.to_string(), "pässwörd".to_string()),
        Err(CryptoError::InvalidData)
    );
}

#[test]
fn short_envelopes_are_invalid_data() {
    assert_eq!(decrypt_backup(String::new(), "pw".to_string()), Err(CryptoError::InvalidData));
    assert_eq!(decrypt_backup(b64(&[1u8]), "pw".to_string()), Err(CryptoError::InvalidData));
    assert_eq!(decrypt_backup(b64(&[0u8; 28]), "pw".to_string()), Err(CryptoError::InvalidData));
    let mut bytes = vec![0u8; 28];
    bytes[0] = 1;
    assert_eq!(decrypt_envelope(&bytes, "pw"), Err(CryptoError::InvalidData));
}

#[test]
fn envelope_of_twenty_nine_bytes_is_read_without_version() {
    // One byte of ciphertext cannot hold a tag: the envelope is read, and fails to open.
    assert_eq!(decrypt_backup(b64(&[0u8; 29]), "pw".to_string()), Err(CryptoError::DecryptionFailed));
    let mut bytes = vec![0u8; 29];
    bytes[0] = 9;
    assert_eq!(decrypt_envelope(&bytes, "pw"), Err(CryptoError::DecryptionFailed));
}

#[test]
fn envelope_of_thirty_bytes_is_read_with_version() {
    let mut bytes = vec![0u8; 30];
    bytes[0] = 1;
    assert_eq!(decrypt_envelope(&bytes, "pw"), Err(CryptoError::DecryptionFailed));
}

#[test]
fn unversioned_envelope_with_a_tag_is_read_as_versioned() {
    // salt ‖ nonce ‖ ciphertext of "old data", the salt starting with 0: the
    // 52 bytes are long enough for a version byte, and 0 is not the version.
    let legacy = "AAECAwQFBgcICQoLDA0OD2RlZmdoaWprbG1ubzsy9yFSYZJWrhMkF7Z7nmyZVka2bbhEbA==";
    assert_eq!(
        decrypt_backup(legacy.to_string(), "correct horse".to_string()),
        Err(CryptoError::UnsupportedVersion)
    );
    // The same with a salt that starts with 1: the fields are read one byte off.
    let legacy = "AQECAwQFBgcICQoLDA0OD2RlZmdoaWprbG1ub1mk8L8VXClRCMn088TjbAysjAJ+lof12w==";
    assert_eq!(
        decrypt_backup(legacy.to_string(), "correct horse".to_string()),
        Err(CryptoError::DecryptionFailed)
    );
}

#[test]
fn plaintext_that_is_not_utf8_is_invalid_data() {
    // The bytes ff fe 00 sealed under "correct horse".
    let sealed = "AQABAgMEBQYHCAkKCwwNDg9kZWZnaGlqa2xtbm+roJMDCNDvdBKvy0VUnhhKDMhc";
    assert_eq!(
        decrypt_backup(sealed.to_string(), "correct horse".to_string()),
        Err(CryptoError::InvalidData)
    );
}

#[test]
fn passwords_that_derive_one_key_open_alike() {
    // HMAC pads a short key with zero bytes, so a trailing NUL changes nothing.
    assert_eq!(
        decrypt_backup(HELLO.to_string(), "correct horse\u{0}".to_string()),
        Ok("hello backup".to_string())
    );
}

#[test]
fn backup_text_and_envelope_lengths() {
    for len in [0usize, 1, 2, 3, 4, 50, 1000] {
        let text = encrypt_backup("x".repeat(len), "pw".to_string()).unwrap();
        assert_eq!(text.len(), 4 * ((len + 45 + 2) / 3));
        let bytes = unb64(&text);
        assert_eq!(bytes.len(), len + 45);
        assert_eq!(bytes[0], 1);
    }
    // The length counts the bytes of the plaintext, not its characters.
    let text = encrypt_backup("é秘".to_string(), "pw".to_string()).unwrap();
    assert_eq!(unb64(&text).len(), 5 + 45);
}

#[test]
fn envelope_with_a_ciphertext_shorter_than_a_tag_fails() {
    for len in [30usize, 31, 44] {
        let mut bytes = vec![0u8; len];
        bytes[0] = 1;
        assert_eq!(decrypt_envelope(&bytes, "pw"), Err(CryptoError::DecryptionFailed));
    }
}
