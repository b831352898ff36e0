//! Cryptographic services of a password manager: key derivation from a
//! password, the encrypted backup envelope, master-password hashing and
//! time-based one-time passwords.
//!
//! Every operation is a synchronous function without state. The contracts are
//! stated over byte and character sequences; what an outside primitive
//! computes (PBKDF2, AES-GCM, HMAC, Base64, Base32) appears in them under a
//! name, and the framing, validation and arithmetic around it are proved.

pub mod account;
pub mod backup;
pub mod cipher;
pub mod clock;
pub mod encoding;
pub mod envelope;
pub mod error;
pub mod kdf;
pub mod mac;
pub mod master_password;
pub mod random;
pub mod totp;

pub use account::{Account, MasterPasswordData, OtpHashAlgorithm};
pub use backup::{decrypt_backup, encrypt_backup};
pub use error::CryptoError;
pub use kdf::{derive_backup_key, derive_key, derive_master_key};
pub use master_password::{hash_master_password, verify_master_password};
pub use totp::{generate_totp, generate_totp_at};
