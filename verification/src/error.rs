//! The closed set of failures that the operations of this crate report.

use vstd::prelude::*;

verus! {

/// Why an operation failed. No variant carries a password, a key or plaintext.
#[derive(Debug, Clone, Copy, PartialEq, Eq)]
pub enum CryptoError {
    /// The plaintext could not be sealed.
    EncryptionFailed,
    /// The ciphertext did not authenticate under the derived key.
    DecryptionFailed,
    /// The cipher refused the key.
    InvalidKey,
    /// Malformed input: an encoding, a salt length, or plaintext that is not UTF-8.
    InvalidData,
    /// A digit count or a period out of range.
    InvalidParameter,
    /// An envelope whose version tag is not the supported one.
    UnsupportedVersion,
    /// The clock could not be read.
    TotpFailed,
    /// Account records could not be written or read as JSON.
    SerializationError,
}

impl CryptoError {
    /// The text of each failure.
    pub open spec fn message_text(self) -> Seq<char> {
        match self {
            CryptoError::EncryptionFailed => "Encryption failed"@,
            CryptoError::DecryptionFailed => "Decryption failed"@,
            CryptoError::InvalidKey => "Invalid key"@,
            CryptoError::InvalidData => "Invalid data"@,
            CryptoError::InvalidParameter => "Invalid parameter"@,
            CryptoError::UnsupportedVersion => "Unsupported backup version"@,
            CryptoError::TotpFailed => "TOTP generation failed"@,
            CryptoError::SerializationError => "Serialization failed"@,
        }
    }

    /// A short description of the failure, fit for display.
    pub fn message(&self) -> (text: &'static str)
        ensures
            text@ == self.message_text(),
    {
        match self {
            CryptoError::EncryptionFailed => "Encryption failed",
            CryptoError::DecryptionFailed => "Decryption failed",
            CryptoError::InvalidKey => "Invalid key",
            CryptoError::InvalidData => "Invalid data",
            CryptoError::InvalidParameter => "Invalid parameter",
            CryptoError::UnsupportedVersion => "Unsupported backup version",
            CryptoError::TotpFailed => "TOTP generation failed",
            CryptoError::SerializationError => "Serialization failed",
        }
    }
}

/// The view of a textual result: the characters of the text, or the failure.
pub open spec fn text_result(res: Result<String, CryptoError>) -> Result<Seq<char>, CryptoError> {
    match res {
        Ok(text) => Ok(text@),
        Err(e) => Err(e),
    }
}

} // verus!
