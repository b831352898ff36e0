use vault_crypto::master_password::hash_master_password_with;
use vault_crypto::{hash_master_password, verify_master_password};

const SALT_HEX: &str = "000102030405060708090a0b0c0d0e0f101112131415161718191a1b1c1d1e1f";
const HASH_HEX: &str = "d269d79fd465c708599b3114850e6a20bb8cb90c8fbba32574954ab158d23a7c";

fn ascending_salt() -> [u8; 32] {
    let mut salt = [0u8; 32];
    for (i, byte) in salt.iter_mut().enumerate() {
        *byte = i as u8;
    }
    salt
}

#[test]
fn hash_with_known_salt() {
    let data = hash_master_password_with("hunter2", &ascending_salt());
    assert_eq!(data.hash, HASH_HEX);
    assert_eq!(data.salt, SALT_HEX);
}

#[test]
fn hash_is_lower_case_hex_of_thirty_two_bytes() {
    let data = hash_master_password("hunter2".to_string());
    assert_eq!(data.hash.len(), 64);
    assert_eq!(data.salt.len(), 64);
    assert!(data.hash.bytes().all(|b| b.is_ascii_digit() || (b'a'..=b'f').contains(&b)));
    assert!(data.salt.bytes().all(|b| b.is_ascii_digit() || (b'a'..=b'f').contains(&b)));
}

#[test]
fn verify_after_hash() {
    let data = hash_master_password("hunter2".to_string());
    assert!(verify_master_password("hunter2".to_string(), data.hash, data.salt));
}

#[test]
fn verify_after_hash_of_empty_and_unicode_passwords() {
    let data = hash_master_password(String::new());
    assert!(verify_master_password(String::new(), data.hash, data.salt));
    let data = hash_master_password("pässwörd 秘密".to_string());
    assert!(verify_master_password("pässwörd 秘密".to_string(), data.hash, data.salt));
}

#[test]
fn verify_known_record() {
    assert!(verify_master_password(
        "hunter2".to_string(),
        HASH_HEX.to_string(),
        SALT_HEX.to_string()
    ));
}

#[test]
fn verify_rejects_another_password() {
    assert!(!verify_master_password(
        "hunter3".to_string(),
        HASH_HEX.to_string(),
        SALT_HEX.to_string()
    ));
    assert!(!verify_master_password(String::new(), HASH_HEX.to_string(), SALT_HEX.to_string()));
    assert!(!verify_master_password(
        "Hunter2".to_string(),
        HASH_HEX.to_string(),
        SALT_HEX.to_string()
    ));
}

#[test]
fn verify_rejects_another_hash() {
    let mut hash = HASH_HEX.to_string();
    hash.replace_range(0..1, "e");
    assert!(!verify_master_password("hunter2".to_string(), hash, SALT_HEX.to_string()));
    assert!(!verify_master_password("hunter2".to_string(), String::new(), SALT_HEX.to_string()));
}

#[test]
fn verify_compares_the_hash_text_exactly() {
    assert!(!verify_master_password(
        "hunter2".to_string(),
        HASH_HEX.to_uppercase(),
        SALT_HEX.to_string()
    ));
}

#[test]
fn verify_reads_the_salt_in_either_case() {
    assert!(verify_master_password(
        "hunter2".to_string(),
        HASH_HEX.to_string(),
        SALT_HEX.to_uppercase()
    ));
}

#[test]
fn verify_is_false_for_a_malformed_salt() {
    for salt in ["", "zz", "0", "xyz", "00 01", "é", &SALT_HEX[..63], &SALT_HEX[..62]] {
        assert!(!verify_master_password(
            "hunter2".to_string(),
            HASH_HEX.to_string(),
            salt.to_string()
        ));
    }
    let mut salt = SALT_HEX.to_string();
    salt.replace_range(10..11, "g");
    assert!(!verify_master_password("hunter2".to_string(), HASH_HEX.to_string(), salt));
}

#[test]
fn verify_is_false_for_a_salt_of_another_length() {
    // The hash of "hunter2" under sixteen bytes of salt.
    let hash = "844d6e092def956a3d2773e41d721bf2d95a1d8f524d970ca76cd20528a03679";
    assert!(!verify_master_password(
        "hunter2".to_string(),
        hash.to_string(),
        SALT_HEX[..32].to_string()
    ));
    let long = format!("{}00", SALT_HEX);
    assert!(!verify_master_password("hunter2".to_string(), HASH_HEX.to_string(), long));
}

#[test]
fn two_hashes_of_one_password_differ() {
    let first = hash_master_password("hunter2".to_string());
    let second = hash_master_password("hunter2".to_string());
    assert_ne!(first.salt, second.salt);
    assert_ne!(first.hash, second.hash);
    assert!(verify_master_password("hunter2".to_string(), first.hash, first.salt));
    assert!(verify_master_password("hunter2".to_string(), second.hash, second.salt));
}

#[test]
fn a_record_does_not_verify_under_the_salt_of_another() {
    let first = hash_master_password("hunter2".to_string());
    let second = hash_master_password("hunter2".to_string());
    assert!(!verify_master_password("hunter2".to_string(), first.hash, second.salt));
}

#[test]
fn passwords_that_derive_one_key_verify_alike() {
    // HMAC pads a short key with zero bytes, so a trailing NUL changes nothing.
    assert!(verify_master_password(
        "hunter2\u{0}".to_string(),
        HASH_HEX.to_string(),
        SALT_HEX.to_string()
    ));
}

#[test]
fn salts_that_differ_give_records_that_differ() {
    let mut other = ascending_salt();
    other[31] ^= 1;
    let first = hash_master_password_with("hunter2", &ascending_salt());
    let second = hash_master_password_with("hunter2", &other);
    assert_ne!(first.salt, second.salt);
    assert_ne!(first.hash, second.hash);
}
