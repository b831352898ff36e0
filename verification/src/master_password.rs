//! Hashing and verification of the master password.
//!
//! What is stored is the key that the password derives under a random salt of
//! 32 bytes, and that salt, both as hexadecimal text. Verification derives the
//! key again and compares the texts.

use vstd::prelude::*;
use vstd::utf8::encode_utf8;

use crate::account::MasterPasswordData;
use crate::encoding::{
    hex_bytes,
    hex_decode,
    hex_encode,
    hex_text,
    lemma_hex_round_trip,
    lemma_hex_text_injective,
};
use crate::kdf::{derive_key, derive_master_key, derived_key, KEY_LENGTH, MASTER_SALT_LENGTH};
use crate::random::random_bytes;

verus! {

/// The stored hash of a password under a salt: the hexadecimal text of the
/// derived key.
pub open spec fn master_hash(password: Seq<char>, salt: Seq<u8>) -> Seq<char> {
    hex_text(derived_key(password, salt))
}

/// Whether a password matches a stored hash and salt.
///
/// The salt text must be hexadecimal and stand for 32 bytes; the password
/// matches when the hash it derives under that salt is the stored text,
/// character for character. A salt text that is malformed matches nothing.
pub open spec fn master_password_matches(
    password: Seq<char>,
    stored_hash_hex: Seq<char>,
    salt_hex: Seq<char>,
) -> bool {
    match hex_bytes(encode_utf8(salt_hex)) {
        Some(salt) => salt.len() == MASTER_SALT_LENGTH && master_hash(password, salt)
            == stored_hash_hex,
        None => false,
    }
}

/// Hashes `password` under the given salt.
pub fn hash_master_password_with(password: &str, salt: &[u8; MASTER_SALT_LENGTH]) -> (data:
    MasterPasswordData)
    ensures
        data.hash@ == master_hash(password@, salt@),
        data.salt@ == hex_text(salt@),
        data.hash@.len() == 2 * KEY_LENGTH,
        data.salt@.len() == 2 * MASTER_SALT_LENGTH,
{
    let hash = derive_key(password, salt.as_slice());
    MasterPasswordData { hash: hex_encode(hash.as_slice()), salt: hex_encode(salt.as_slice()) }
}

/// Hashes `password` under a fresh random salt of 32 bytes. It always
/// succeeds; hash and salt are 64 hexadecimal digits each, and the password
/// verifies against them.
pub fn hash_master_password(password: String) -> (data: MasterPasswordData)
    ensures
        exists|salt: Seq<u8>|
            salt.len() == MASTER_SALT_LENGTH && data.hash@ == master_hash(password@, salt)
                && data.salt@ == #[trigger] hex_text(salt),
        data.hash@.len() == 2 * KEY_LENGTH,
        data.salt@.len() == 2 * MASTER_SALT_LENGTH,
        master_password_matches(password@, data.hash@, data.salt@),
{
    let salt = random_bytes::<MASTER_SALT_LENGTH>();
    let data = hash_master_password_with(password.as_str(), &salt);
    proof {
        lemma_hex_round_trip(salt@);
    }
    data
}

/// Tells whether `password` is the one behind a stored hash and salt. A salt
/// that is not hexadecimal text of 32 bytes gives `false`, as a wrong
/// password does.
pub fn verify_master_password(password: String, stored_hash_hex: String, salt_hex: String) -> (ok:
    bool)
    ensures
        ok == master_password_matches(password@, stored_hash_hex@, salt_hex@),
{
    let salt = match hex_decode(salt_hex.as_str()) {
        Ok(salt) => salt,
        Err(_) => {
            return false;
        },
    };
    let current_hash = match derive_master_key(password.as_str(), salt.as_slice()) {
        Ok(hash) => hash,
        Err(_) => {
            return false;
        },
    };
    hex_encode(current_hash.as_slice()) == stored_hash_hex
}

/// A password verifies against the record made of another password and a
/// salt exactly when both derive the same key under that salt. So the
/// password that made a record always verifies against it.
pub proof fn lemma_verify_after_hash(password: Seq<char>, candidate: Seq<char>, salt: Seq<u8>)
    requires
        salt.len() == MASTER_SALT_LENGTH,
    ensures
        master_password_matches(candidate, master_hash(password, salt), hex_text(salt)) <==> (
        derived_key(candidate, salt) == derived_key(password, salt)),
        master_password_matches(password, master_hash(password, salt), hex_text(salt)),
{
    lemma_hex_round_trip(salt);
    if master_hash(candidate, salt) == master_hash(password, salt) {
        lemma_hex_text_injective(derived_key(candidate, salt), derived_key(password, salt));
    }
}

/// Two salts that differ give records that differ: their salt texts do, and
/// their hashes do exactly when the two keys derived under them do.
pub proof fn lemma_distinct_salts_distinct_records(
    password: Seq<char>,
    first: Seq<u8>,
    second: Seq<u8>,
)
    requires
        first != second,
    ensures
        hex_text(first) != hex_text(second),
        master_hash(password, first) != master_hash(password, second) <==> derived_key(
            password,
            first,
        ) != derived_key(password, second),
{
    if hex_text(first) == hex_text(second) {
        lemma_hex_text_injective(first, second);
    }
    if master_hash(password, first) == master_hash(password, second) {
        lemma_hex_text_injective(derived_key(password, first), derived_key(password, second));
    }
}

/// A salt text that is not hexadecimal, or that does not stand for 32 bytes,
/// matches no password and no hash.
pub proof fn lemma_malformed_salt_never_matches(
    password: Seq<char>,
    stored_hash_hex: Seq<char>,
    salt_hex: Seq<char>,
)
    requires
        hex_bytes(encode_utf8(salt_hex)) is None || hex_bytes(encode_utf8(salt_hex))->0.len()
            != MASTER_SALT_LENGTH,
    ensures
        !master_password_matches(password, stored_hash_hex, salt_hex),
{
}

} // verus!
