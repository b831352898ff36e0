//! The records that travel between the host application and this crate.

use vstd::prelude::*;

verus! {

/// The hash function inside the HMAC of a one-time password.
#[derive(Debug, Clone, Copy, PartialEq, Eq)]
pub enum OtpHashAlgorithm {
    Sha1,
    Sha256,
    Sha512,
}

/// One stored account. The fields pass through this crate unread.
pub struct Account {
    pub id: i32,
    pub name: String,
    pub username: String,
    pub password: String,
    pub icon_initial: String,
    pub secret_key: String,
    pub algorithm: OtpHashAlgorithm,
    pub has_otp: bool,
}

/// What is stored of a master password: the derived hash and its salt, both as
/// lower-case hexadecimal text of 32 bytes.
pub struct MasterPasswordData {
    pub hash: String,
    pub salt: String,
}

} // verus!
