//! Authenticated encryption: AES-256 in GCM mode, with no associated data.

use vstd::prelude::*;

use aes_gcm::aead::{Aead, KeyInit};
use aes_gcm::{Aes256Gcm, Key, Nonce};

use crate::kdf::KEY_LENGTH;

verus! {

/// Length of a GCM nonce, in bytes.
pub const IV_LENGTH: usize = 12;

/// Length of the authentication tag that closes a ciphertext, in bytes.
pub const TAG_LENGTH: usize = 16;

/// The longest plaintext that AES-GCM seals, in bytes.
pub const MAX_PLAINTEXT_LENGTH: u64 = 0x10_0000_0000;

/// The ciphertext, tag included, of AES-256-GCM for a plaintext under a key
/// and a nonce.
pub uninterp spec fn aes256_gcm_sealed(key: Seq<u8>, nonce: Seq<u8>, plaintext: Seq<u8>) -> Seq<u8>;

/// The plaintext of an AES-256-GCM ciphertext that authenticates under a key
/// and a nonce; `None` where it does not.
pub uninterp spec fn aes256_gcm_opened(key: Seq<u8>, nonce: Seq<u8>, ciphertext: Seq<u8>) -> Option<
    Seq<u8>,
>;

/// What opening a ciphertext gives: nothing where it is too short to hold a
/// tag, and else what AES-256-GCM finds.
pub open spec fn opened_ciphertext(key: Seq<u8>, nonce: Seq<u8>, ciphertext: Seq<u8>) -> Option<
    Seq<u8>,
> {
    if ciphertext.len() < TAG_LENGTH {
        None
    } else {
        aes256_gcm_opened(key, nonce, ciphertext)
    }
}

/// `aes_gcm::Error`: the one failure of the cipher, without detail.
#[verifier::external_type_specification]
#[verifier::external_body]
pub struct ExAeadError(aes_gcm::Error);

/// Builds an `aes_gcm::Aes256Gcm` from the key and calls `encrypt` of
/// `aes_gcm::aead::Aead` on it. Trusted: it fails exactly on a plaintext
/// over the limit of GCM; what it returns is the ciphertext of the plaintext,
/// sixteen bytes longer, and opens to the plaintext under the same key and
/// nonce. A nonce of another length makes the outside code panic, and so
/// does a buffer that no allocation can hold.
#[verifier::external_body]
pub(crate) fn aes256_gcm_encrypt(key: &[u8; KEY_LENGTH], nonce: &[u8], plaintext: &[u8]) -> (res:
    Result<Vec<u8>, aes_gcm::Error>)
    requires
        nonce@.len() == IV_LENGTH,
        plaintext@.len() + TAG_LENGTH <= isize::MAX,
    ensures
        res is Ok <==> plaintext@.len() <= MAX_PLAINTEXT_LENGTH,
        res matches Ok(sealed) ==> {
            &&& sealed@ == aes256_gcm_sealed(key@, nonce@, plaintext@)
            &&& sealed@.len() == plaintext@.len() + TAG_LENGTH
            &&& aes256_gcm_opened(key@, nonce@, sealed@) == Some(plaintext@)
        },
{
    let cipher = Aes256Gcm::new(Key::<Aes256Gcm>::from_slice(key));
    cipher.encrypt(Nonce::from_slice(nonce), plaintext)
}

/// Builds an `aes_gcm::Aes256Gcm` from the key and calls `decrypt` of
/// `aes_gcm::aead::Aead` on it. Trusted: it returns the plaintext where the
/// ciphertext authenticates, and fails where it does not; a ciphertext
/// shorter than a tag is refused before anything is computed. A nonce of
/// another length makes the outside code panic.
#[verifier::external_body]
pub(crate) fn aes256_gcm_decrypt(key: &[u8; KEY_LENGTH], nonce: &[u8], ciphertext: &[u8]) -> (res:
    Result<Vec<u8>, aes_gcm::Error>)
    requires
        nonce@.len() == IV_LENGTH,
    ensures
        match res {
            Ok(plaintext) => aes256_gcm_opened(key@, nonce@, ciphertext@) == Some(plaintext@),
            Err(_) => aes256_gcm_opened(key@, nonce@, ciphertext@) is None,
        },
        ciphertext@.len() < TAG_LENGTH ==> res is Err,
{
    let cipher = Aes256Gcm::new(Key::<Aes256Gcm>::from_slice(key));
    cipher.decrypt(Nonce::from_slice(nonce), ciphertext)
}

} // verus!
