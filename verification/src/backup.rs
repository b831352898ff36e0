//! The backup cipher: a plaintext is sealed with AES-256-GCM under a key
//! derived from a password, framed in an envelope and carried as Base64 text.

use vstd::prelude::*;
use vstd::utf8::{
    decode_utf8,
    encode_utf8,
    encode_utf8_decode_utf8,
    encode_utf8_valid_utf8,
    valid_utf8,
};

use crate::cipher::{
    aes256_gcm_decrypt,
    aes256_gcm_encrypt,
    aes256_gcm_sealed,
    opened_ciphertext,
    IV_LENGTH,
    MAX_PLAINTEXT_LENGTH,
    TAG_LENGTH,
};
use crate::encoding::{
    base64_bytes,
    base64_decode,
    base64_encodable,
    base64_encode,
    base64_length,
    base64_text,
};
use crate::envelope::{
    build_envelope,
    envelope_bytes,
    envelope_parts,
    lemma_envelope_round_trip,
    parse_envelope,
    EnvelopeParts,
    BACKUP_VERSION,
    LEGACY_MINIMUM,
    VERSIONED_MINIMUM,
};
use crate::error::{text_result, CryptoError};
use crate::kdf::{derive_backup_key, derived_key, BACKUP_SALT_LENGTH};
use crate::random::random_bytes;

verus! {

/// What an envelope adds to the length of the plaintext: version byte, salt,
/// nonce and tag.
pub const ENVELOPE_OVERHEAD: usize = 1 + BACKUP_SALT_LENGTH + IV_LENGTH + TAG_LENGTH;

/// Whether a plaintext of `len` bytes can be sealed: it is within the limit
/// of AES-GCM, and the text of its envelope can be held on this machine.
pub open spec fn plaintext_fits(len: nat) -> bool {
    len <= MAX_PLAINTEXT_LENGTH && base64_encodable(len + ENVELOPE_OVERHEAD as nat)
}

/// The envelope of a plaintext under a password, for a salt and a nonce.
pub open spec fn sealed_envelope(
    plaintext: Seq<char>,
    password: Seq<char>,
    salt: Seq<u8>,
    nonce: Seq<u8>,
) -> Seq<u8> {
    envelope_bytes(
        salt,
        nonce,
        aes256_gcm_sealed(derived_key(password, salt), nonce, encode_utf8(plaintext)),
    )
}

/// The text of the backup of a plaintext under a password, for a salt and a
/// nonce; `EncryptionFailed` where the plaintext does not fit.
pub open spec fn encrypted_backup(
    plaintext: Seq<char>,
    password: Seq<char>,
    salt: Seq<u8>,
    nonce: Seq<u8>,
) -> Result<Seq<char>, CryptoError> {
    if plaintext_fits(encode_utf8(plaintext).len()) {
        Ok(base64_text(sealed_envelope(plaintext, password, salt, nonce)))
    } else {
        Err(CryptoError::EncryptionFailed)
    }
}

/// What the bytes of an envelope decrypt to under a password.
///
/// The key is derived from the password and the salt of the envelope. A
/// ciphertext that is too short to hold a tag, or that does not authenticate
/// under the key, is `DecryptionFailed`; plaintext that is not UTF-8 is
/// `InvalidData`.
pub open spec fn opened_envelope(bytes: Seq<u8>, password: Seq<char>) -> Result<
    Seq<char>,
    CryptoError,
> {
    match envelope_parts(bytes) {
        Err(e) => Err(e),
        Ok(parts) => match opened_ciphertext(
            derived_key(password, parts.salt),
            parts.nonce,
            parts.ciphertext,
        ) {
            None => Err(CryptoError::DecryptionFailed),
            Some(plaintext) => if valid_utf8(plaintext) {
                Ok(decode_utf8(plaintext))
            } else {
                Err(CryptoError::InvalidData)
            },
        },
    }
}

/// What the text of a backup decrypts to under a password: text that is not
/// Base64 is `InvalidData`, and the decoded bytes are read as an envelope.
pub open spec fn decrypted_backup(text: Seq<char>, password: Seq<char>) -> Result<
    Seq<char>,
    CryptoError,
> {
    match base64_bytes(text) {
        None => Err(CryptoError::InvalidData),
        Some(bytes) => opened_envelope(bytes, password),
    }
}

/// Whether a text is the backup of a plaintext under a password, for a salt
/// and a nonce: it is the Base64 text of the envelope and decodes to it. The
/// envelope starts with the version byte, holds the salt and the nonce, and
/// is `ENVELOPE_OVERHEAD` bytes longer than the UTF-8 plaintext; the text has
/// four characters for every three bytes of it begun.
pub open spec fn is_backup_of(
    text: Seq<char>,
    plaintext: Seq<char>,
    password: Seq<char>,
    salt: Seq<u8>,
    nonce: Seq<u8>,
) -> bool {
    let envelope = sealed_envelope(plaintext, password, salt, nonce);
    &&& text == base64_text(envelope)
    &&& base64_bytes(text) == Some(envelope)
    &&& envelope.len() == encode_utf8(plaintext).len() + ENVELOPE_OVERHEAD
    &&& envelope[0] == BACKUP_VERSION
    &&& envelope_parts(envelope) == Ok::<EnvelopeParts, CryptoError>(
        EnvelopeParts {
            version: Some(BACKUP_VERSION),
            salt,
            nonce,
            ciphertext: aes256_gcm_sealed(
                derived_key(password, salt),
                nonce,
                encode_utf8(plaintext),
            ),
        },
    )
    &&& text.len() == base64_length(envelope.len())
}

/// Whether a plaintext of `len` bytes can be sealed.
fn fits(len: usize) -> (ok: bool)
    ensures
        ok == plaintext_fits(len as nat),
{
    len as u64 <= MAX_PLAINTEXT_LENGTH && len <= 3 * ((isize::MAX as usize) / 4) - ENVELOPE_OVERHEAD
}

/// Encrypts `data` under `password` with the given salt and nonce, and
/// returns the Base64 text of the envelope.
///
/// The result is `encrypted_backup` of the arguments. The text decodes to
/// the envelope, which is `ENVELOPE_OVERHEAD` bytes longer than the plaintext
/// and starts with the version byte, and the same password decrypts it to
/// `data` again. No other failure than `EncryptionFailed` occurs.
pub fn encrypt_backup_with(
    data: &str,
    password: &str,
    salt: &[u8; BACKUP_SALT_LENGTH],
    nonce: &[u8; IV_LENGTH],
) -> (res: Result<String, CryptoError>)
    ensures
        text_result(res) == encrypted_backup(data@, password@, salt@, nonce@),
        res matches Ok(text) ==> is_backup_of(text@, data@, password@, salt@, nonce@),
        res matches Ok(text) ==> decrypted_backup(text@, password@) == Ok::<Seq<char>, CryptoError>(
            data@,
        ),
{
    let plaintext = data.as_bytes();
    if !fits(plaintext.len()) {
        return Err(CryptoError::EncryptionFailed);
    }
    let key = match derive_backup_key(password, salt.as_slice()) {
        Ok(key) => key,
        Err(e) => {
            return Err(e);
        },
    };
    let ciphertext = match aes256_gcm_encrypt(&key, nonce.as_slice(), plaintext) {
        Ok(ciphertext) => ciphertext,
        Err(_) => {
            return Err(CryptoError::EncryptionFailed);
        },
    };
    let combined = build_envelope(salt.as_slice(), nonce.as_slice(), ciphertext.as_slice());
    let text = base64_encode(combined.as_slice());
    proof {
        lemma_envelope_round_trip(salt@, nonce@, ciphertext@);
        encode_utf8_valid_utf8(data@);
        encode_utf8_decode_utf8(data@);
    }
    Ok(text)
}

/// Encrypts `data` under `password` with a fresh random salt and a fresh
/// random nonce, and returns the Base64 text of the envelope.
///
/// It succeeds exactly when the plaintext fits. The text is then the backup
/// of `data` for some salt and nonce: it decodes to an envelope that starts
/// with the version byte and is `ENVELOPE_OVERHEAD` bytes longer than the
/// plaintext, and the same password decrypts it to `data` again.
pub fn encrypt_backup(data: String, password: String) -> (res: Result<String, CryptoError>)
    ensures
        match res {
            Ok(text) => {
                &&& plaintext_fits(encode_utf8(data@).len())
                &&& exists|salt: Seq<u8>, nonce: Seq<u8>|
                    salt.len() == BACKUP_SALT_LENGTH && nonce.len() == IV_LENGTH
                        && #[trigger] is_backup_of(text@, data@, password@, salt, nonce)
                &&& base64_bytes(text@) matches Some(envelope) && envelope.len() == encode_utf8(
                    data@,
                ).len() + ENVELOPE_OVERHEAD && envelope[0] == BACKUP_VERSION
                &&& text@.len() == base64_length(
                    encode_utf8(data@).len() + ENVELOPE_OVERHEAD as nat,
                )
                &&& decrypted_backup(text@, password@) == Ok::<Seq<char>, CryptoError>(data@)
            },
            Err(e) => e == CryptoError::EncryptionFailed && !plaintext_fits(
                encode_utf8(data@).len(),
            ),
        },
{
    let salt = random_bytes::<BACKUP_SALT_LENGTH>();
    let iv = random_bytes::<IV_LENGTH>();
    let res = encrypt_backup_with(data.as_str(), password.as_str(), &salt, &iv);
    proof {
        if res is Ok {
            assert(is_backup_of(res->Ok_0@, data@, password@, salt@, iv@));
        }
    }
    res
}

/// Decrypts the bytes of an envelope under `password`.
pub fn decrypt_envelope(bytes: &[u8], password: &str) -> (res: Result<String, CryptoError>)
    ensures
        text_result(res) == opened_envelope(bytes@, password@),
{
    let envelope = match parse_envelope(bytes) {
        Ok(envelope) => envelope,
        Err(e) => {
            return Err(e);
        },
    };
    let key = match derive_backup_key(password, envelope.salt) {
        Ok(key) => key,
        Err(e) => {
            return Err(e);
        },
    };
    let decrypted_bytes = match aes256_gcm_decrypt(&key, envelope.nonce, envelope.ciphertext) {
        Ok(plaintext) => plaintext,
        Err(_) => {
            return Err(CryptoError::DecryptionFailed);
        },
    };
    match String::from_utf8(decrypted_bytes) {
        Ok(text) => Ok(text),
        Err(_) => Err(CryptoError::InvalidData),
    }
}

/// Decrypts the Base64 text of a backup under `password`.
///
/// The result is `decrypted_backup` of the arguments: `InvalidData` for text
/// that is not Base64, for an envelope that is too short and for plaintext
/// that is not UTF-8; `UnsupportedVersion` for an unknown version byte;
/// `DecryptionFailed` for a ciphertext that does not authenticate.
pub fn decrypt_backup(encrypted_base64: String, password: String) -> (res: Result<
    String,
    CryptoError,
>)
    ensures
        text_result(res) == decrypted_backup(encrypted_base64@, password@),
{
    let combined = match base64_decode(encrypted_base64.as_str()) {
        Ok(bytes) => bytes,
        Err(_) => {
            return Err(CryptoError::InvalidData);
        },
    };
    decrypt_envelope(combined.as_slice(), password.as_str())
}

/// An envelope long enough to carry a version byte is refused when that byte
/// is not the supported version, whatever follows it and whatever the
/// password.
pub proof fn lemma_unsupported_version_rejected(bytes: Seq<u8>, password: Seq<char>)
    requires
        bytes.len() >= VERSIONED_MINIMUM,
        bytes[0] != BACKUP_VERSION,
    ensures
        opened_envelope(bytes, password) == Err::<Seq<char>, CryptoError>(
            CryptoError::UnsupportedVersion,
        ),
{
}

/// A current envelope whose ciphertext does not authenticate under the key
/// of a password is refused with `DecryptionFailed`: it is never opened, and
/// no other failure is reported. This holds for a ciphertext that was changed
/// and for a password that is not the one it was sealed under alike.
pub proof fn lemma_rejected_ciphertext_fails(
    salt: Seq<u8>,
    nonce: Seq<u8>,
    ciphertext: Seq<u8>,
    password: Seq<char>,
)
    requires
        salt.len() == BACKUP_SALT_LENGTH,
        nonce.len() == IV_LENGTH,
        ciphertext.len() >= 1,
        opened_ciphertext(derived_key(password, salt), nonce, ciphertext) is None,
    ensures
        opened_envelope(envelope_bytes(salt, nonce, ciphertext), password) == Err::<
            Seq<char>,
            CryptoError,
        >(CryptoError::DecryptionFailed),
{
    lemma_envelope_round_trip(salt, nonce, ciphertext);
}

/// A change to one byte of the ciphertext of a current envelope leaves
/// version, salt and nonce as they were: the changed envelope is read as the
/// same envelope around the changed ciphertext. So it is refused with
/// `DecryptionFailed` wherever the changed ciphertext does not authenticate
/// under the same key and nonce, and it is never refused for another reason.
pub proof fn lemma_changed_ciphertext(
    salt: Seq<u8>,
    nonce: Seq<u8>,
    ciphertext: Seq<u8>,
    password: Seq<char>,
    at: int,
    byte: u8,
)
    requires
        salt.len() == BACKUP_SALT_LENGTH,
        nonce.len() == IV_LENGTH,
        0 <= at < ciphertext.len(),
    ensures
        envelope_bytes(salt, nonce, ciphertext).update(
            1 + BACKUP_SALT_LENGTH + IV_LENGTH + at,
            byte,
        ) == envelope_bytes(salt, nonce, ciphertext.update(at, byte)),
        opened_ciphertext(derived_key(password, salt), nonce, ciphertext.update(at, byte))
            is None ==> opened_envelope(
            envelope_bytes(salt, nonce, ciphertext).update(
                1 + BACKUP_SALT_LENGTH + IV_LENGTH + at,
                byte,
            ),
            password,
        ) == Err::<Seq<char>, CryptoError>(CryptoError::DecryptionFailed),
        opened_envelope(
            envelope_bytes(salt, nonce, ciphertext).update(
                1 + BACKUP_SALT_LENGTH + IV_LENGTH + at,
                byte,
            ),
            password,
        ) != Err::<Seq<char>, CryptoError>(CryptoError::UnsupportedVersion),
{
    let changed = ciphertext.update(at, byte);
    assert(envelope_bytes(salt, nonce, ciphertext).update(
        1 + BACKUP_SALT_LENGTH + IV_LENGTH + at,
        byte,
    ) =~= envelope_bytes(salt, nonce, changed));
    lemma_envelope_round_trip(salt, nonce, changed);
}

/// An envelope too short to be read with a version byte holds one byte of
/// ciphertext, which cannot hold a tag: whatever the password, it never
/// opens, and is refused with `DecryptionFailed`.
pub proof fn lemma_unversioned_envelope_never_opens(bytes: Seq<u8>, password: Seq<char>)
    requires
        LEGACY_MINIMUM <= bytes.len() < VERSIONED_MINIMUM,
    ensures
        opened_envelope(bytes, password) == Err::<Seq<char>, CryptoError>(
            CryptoError::DecryptionFailed,
        ),
{
}

/// The shortest envelope that is read with a version byte holds one byte of
/// ciphertext too: with the supported version in front, it is refused with
/// `DecryptionFailed`.
pub proof fn lemma_shortest_versioned_envelope_never_opens(bytes: Seq<u8>, password: Seq<char>)
    requires
        VERSIONED_MINIMUM <= bytes.len() < 1 + BACKUP_SALT_LENGTH + IV_LENGTH + TAG_LENGTH,
        bytes[0] == BACKUP_VERSION,
    ensures
        opened_envelope(bytes, password) == Err::<Seq<char>, CryptoError>(
            CryptoError::DecryptionFailed,
        ),
{
}

} // verus!
