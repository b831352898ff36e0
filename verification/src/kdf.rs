//! Key derivation: a password and a salt become a 32-byte symmetric key.

use vstd::prelude::*;
use vstd::utf8::encode_utf8;

use crate::error::CryptoError;

verus! {

/// Rounds of PBKDF2 behind every derived key.
pub const ITERATION_COUNT: u32 = 100_000;

/// Length of a derived key, in bytes.
pub const KEY_LENGTH: usize = 32;

/// Length of the salt of a backup, in bytes.
pub const BACKUP_SALT_LENGTH: usize = 16;

/// Length of the salt of a master password, in bytes.
pub const MASTER_SALT_LENGTH: usize = 32;

/// The first `len` bytes that PBKDF2 with HMAC-SHA-256 derives from a
/// password and a salt in the given number of rounds.
pub uninterp spec fn pbkdf2_hmac_sha256(
    password: Seq<u8>,
    salt: Seq<u8>,
    rounds: u32,
    len: nat,
) -> Seq<u8>;

/// The key of a password under a salt: PBKDF2-HMAC-SHA-256 over the UTF-8
/// bytes of the password, with the fixed round count and key length.
pub open spec fn derived_key(password: Seq<char>, salt: Seq<u8>) -> Seq<u8> {
    pbkdf2_hmac_sha256(encode_utf8(password), salt, ITERATION_COUNT, KEY_LENGTH as nat)
}

/// Calls `pbkdf2::pbkdf2` with `hmac::Hmac<sha2::Sha256>` as its PRF, on an
/// output buffer of `N` bytes. Trusted: the buffer then holds the PBKDF2
/// output for these arguments. HMAC takes a key of any length, so the call
/// cannot fail.
#[verifier::external_body]
fn pbkdf2_sha256<const N: usize>(password: &[u8], salt: &[u8], rounds: u32) -> (key: [u8; N])
    ensures
        key@ == pbkdf2_hmac_sha256(password@, salt@, rounds, N as nat),
{
    let mut key = [0u8; N];
    let _ = pbkdf2::pbkdf2::<hmac::Hmac<sha2::Sha256>>(password, salt, rounds, &mut key);
    key
}

/// Derives the key of `password` under `salt`. The same inputs give the same key.
pub fn derive_key(password: &str, salt: &[u8]) -> (key: [u8; KEY_LENGTH])
    ensures
        key@ == derived_key(password@, salt@),
{
    pbkdf2_sha256::<KEY_LENGTH>(password.as_bytes(), salt, ITERATION_COUNT)
}

/// Derives the key of a backup. The salt of a backup has 16 bytes; any other
/// length is refused before any derivation.
pub fn derive_backup_key(password: &str, salt: &[u8]) -> (res: Result<
    [u8; KEY_LENGTH],
    CryptoError,
>)
    ensures
        match res {
            Ok(key) => salt@.len() == BACKUP_SALT_LENGTH && key@ == derived_key(
                password@,
                salt@,
            ),
            Err(e) => salt@.len() != BACKUP_SALT_LENGTH && e == CryptoError::InvalidData,
        },
{
    if salt.len() != BACKUP_SALT_LENGTH {
        return Err(CryptoError::InvalidData);
    }
    Ok(derive_key(password, salt))
}

/// Derives the key that stands for a master password. Its salt has 32 bytes;
/// any other length is refused before any derivation.
pub fn derive_master_key(password: &str, salt: &[u8]) -> (res: Result<
    [u8; KEY_LENGTH],
    CryptoError,
>)
    ensures
        match res {
            Ok(key) => salt@.len() == MASTER_SALT_LENGTH && key@ == derived_key(
                password@,
                salt@,
            ),
            Err(e) => salt@.len() != MASTER_SALT_LENGTH && e == CryptoError::InvalidData,
        },
{
    if salt.len() != MASTER_SALT_LENGTH {
        return Err(CryptoError::InvalidData);
    }
    Ok(derive_key(password, salt))
}

} // verus!
