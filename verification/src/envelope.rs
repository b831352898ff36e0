//! The envelope of a backup: one version byte, sixteen bytes of salt, twelve
//! bytes of nonce, then the ciphertext with its tag.
//!
//! Envelopes written before the version byte existed lack it. The two kinds
//! are told apart by length alone: an envelope long enough to hold a version
//! byte, the header and one byte of ciphertext is read as having one.

use vstd::prelude::*;

use crate::cipher::IV_LENGTH;
use crate::error::CryptoError;
use crate::kdf::BACKUP_SALT_LENGTH;

verus! {

/// The one version of the envelope that is written and read.
pub const BACKUP_VERSION: u8 = 1;

/// The shortest envelope that is read with a version byte: the header and
/// one byte of ciphertext.
pub const VERSIONED_MINIMUM: usize = 1 + BACKUP_SALT_LENGTH + IV_LENGTH + 1;

/// The shortest envelope that is read at all: salt, nonce and one byte of
/// ciphertext.
pub const LEGACY_MINIMUM: usize = BACKUP_SALT_LENGTH + IV_LENGTH + 1;

/// The parts of an envelope, as byte strings.
pub struct EnvelopeParts {
    /// The version byte, where the envelope has one.
    pub version: Option<u8>,
    pub salt: Seq<u8>,
    pub nonce: Seq<u8>,
    /// The ciphertext with its tag.
    pub ciphertext: Seq<u8>,
}

/// An envelope, split; the parts borrow from its bytes.
pub struct Envelope<'a> {
    /// The version byte, where the envelope has one.
    pub version: Option<u8>,
    pub salt: &'a [u8],
    pub nonce: &'a [u8],
    /// The ciphertext with its tag.
    pub ciphertext: &'a [u8],
}

impl<'a> View for Envelope<'a> {
    type V = EnvelopeParts;

    open spec fn view(&self) -> EnvelopeParts {
        EnvelopeParts {
            version: self.version,
            salt: self.salt@,
            nonce: self.nonce@,
            ciphertext: self.ciphertext@,
        }
    }
}

/// The bytes of a current envelope.
pub open spec fn envelope_bytes(salt: Seq<u8>, nonce: Seq<u8>, ciphertext: Seq<u8>) -> Seq<u8> {
    seq![BACKUP_VERSION] + salt + nonce + ciphertext
}

/// How the bytes of an envelope are read.
///
/// From `VERSIONED_MINIMUM` bytes on, the first byte is the version: any but
/// the supported one is refused, and salt, nonce and ciphertext follow it.
/// A shorter envelope of at least `LEGACY_MINIMUM` bytes holds the same three
/// parts with no version byte. Anything shorter is no envelope.
pub open spec fn envelope_parts(bytes: Seq<u8>) -> Result<EnvelopeParts, CryptoError> {
    if bytes.len() >= VERSIONED_MINIMUM {
        if bytes[0] != BACKUP_VERSION {
            Err(CryptoError::UnsupportedVersion)
        } else {
            Ok(
                EnvelopeParts {
                    version: Some(bytes[0]),
                    salt: bytes.subrange(1, 1 + BACKUP_SALT_LENGTH),
                    nonce: bytes.subrange(
                        1 + BACKUP_SALT_LENGTH,
                        1 + BACKUP_SALT_LENGTH + IV_LENGTH,
                    ),
                    ciphertext: bytes.subrange(
                        1 + BACKUP_SALT_LENGTH + IV_LENGTH,
                        bytes.len() as int,
                    ),
                },
            )
        }
    } else if bytes.len() >= LEGACY_MINIMUM {
        Ok(
            EnvelopeParts {
                version: None,
                salt: bytes.subrange(0, BACKUP_SALT_LENGTH as int),
                nonce: bytes.subrange(BACKUP_SALT_LENGTH as int, BACKUP_SALT_LENGTH + IV_LENGTH),
                ciphertext: bytes.subrange(BACKUP_SALT_LENGTH + IV_LENGTH, bytes.len() as int),
            },
        )
    } else {
        Err(CryptoError::InvalidData)
    }
}

/// Splits the bytes of an envelope into its parts, as `envelope_parts` reads
/// them.
pub fn parse_envelope(bytes: &[u8]) -> (res: Result<Envelope<'_>, CryptoError>)
    ensures
        match res {
            Ok(envelope) => envelope_parts(bytes@) == Ok::<EnvelopeParts, CryptoError>(envelope@),
            Err(e) => envelope_parts(bytes@) == Err::<EnvelopeParts, CryptoError>(e),
        },
{
    let len = bytes.len();
    if len >= VERSIONED_MINIMUM {
        let version = bytes[0];
        if version != BACKUP_VERSION {
            return Err(CryptoError::UnsupportedVersion);
        }
        let salt_start: usize = 1;
        let iv_start: usize = salt_start + BACKUP_SALT_LENGTH;
        let cipher_start: usize = iv_start + IV_LENGTH;
        Ok(
            Envelope {
                version: Some(version),
                salt: &bytes[salt_start..iv_start],
                nonce: &bytes[iv_start..cipher_start],
                ciphertext: &bytes[cipher_start..len],
            },
        )
    } else {
        if len < LEGACY_MINIMUM {
            return Err(CryptoError::InvalidData);
        }
        let salt_start: usize = 0;
        let iv_start: usize = salt_start + BACKUP_SALT_LENGTH;
        let cipher_start: usize = iv_start + IV_LENGTH;
        Ok(
            Envelope {
                version: None,
                salt: &bytes[salt_start..iv_start],
                nonce: &bytes[iv_start..cipher_start],
                ciphertext: &bytes[cipher_start..len],
            },
        )
    }
}

/// Writes a current envelope: the version byte, then salt, nonce and
/// ciphertext.
pub fn build_envelope(salt: &[u8], nonce: &[u8], ciphertext: &[u8]) -> (bytes: Vec<u8>)
    ensures
        bytes@ == envelope_bytes(salt@, nonce@, ciphertext@),
{
    let mut combined: Vec<u8> = Vec::new();
    combined.push(BACKUP_VERSION);
    combined.extend_from_slice(salt);
    combined.extend_from_slice(nonce);
    combined.extend_from_slice(ciphertext);
    assert(combined@ =~= envelope_bytes(salt@, nonce@, ciphertext@));
    combined
}

/// A current envelope with a non-empty ciphertext is read back as the parts
/// it was written from.
pub proof fn lemma_envelope_round_trip(salt: Seq<u8>, nonce: Seq<u8>, ciphertext: Seq<u8>)
    requires
        salt.len() == BACKUP_SALT_LENGTH,
        nonce.len() == IV_LENGTH,
        ciphertext.len() >= 1,
    ensures
        envelope_parts(envelope_bytes(salt, nonce, ciphertext)) == Ok::<EnvelopeParts, CryptoError>(
            EnvelopeParts { version: Some(BACKUP_VERSION), salt, nonce, ciphertext },
        ),
{
    let bytes = envelope_bytes(salt, nonce, ciphertext);
    assert(bytes.subrange(1, 1 + BACKUP_SALT_LENGTH) =~= salt);
    assert(bytes.subrange(1 + BACKUP_SALT_LENGTH, 1 + BACKUP_SALT_LENGTH + IV_LENGTH) =~= nonce);
    assert(bytes.subrange(1 + BACKUP_SALT_LENGTH + IV_LENGTH, bytes.len() as int) =~= ciphertext);
}

/// An envelope without a version byte, too short to be read with one, is
/// read as salt, nonce and ciphertext from its first byte on.
pub proof fn lemma_short_envelope_is_unversioned(
    salt: Seq<u8>,
    nonce: Seq<u8>,
    ciphertext: Seq<u8>,
)
    requires
        salt.len() == BACKUP_SALT_LENGTH,
        nonce.len() == IV_LENGTH,
        LEGACY_MINIMUM <= salt.len() + nonce.len() + ciphertext.len() < VERSIONED_MINIMUM,
    ensures
        envelope_parts(salt + nonce + ciphertext) == Ok::<EnvelopeParts, CryptoError>(
            EnvelopeParts { version: None, salt, nonce, ciphertext },
        ),
{
    let bytes = salt + nonce + ciphertext;
    assert(bytes.subrange(0, BACKUP_SALT_LENGTH as int) =~= salt);
    assert(bytes.subrange(BACKUP_SALT_LENGTH as int, BACKUP_SALT_LENGTH + IV_LENGTH) =~= nonce);
    assert(bytes.subrange(BACKUP_SALT_LENGTH + IV_LENGTH, bytes.len() as int) =~= ciphertext);
}

/// An envelope without a version byte that holds two or more bytes of
/// ciphertext is long enough to be read with one: its first salt byte is
/// taken for the version, and every part is read one byte further on.
pub proof fn lemma_long_envelope_is_versioned(salt: Seq<u8>, nonce: Seq<u8>, ciphertext: Seq<u8>)
    requires
        salt.len() == BACKUP_SALT_LENGTH,
        nonce.len() == IV_LENGTH,
        ciphertext.len() >= 2,
    ensures
        salt[0] != BACKUP_VERSION ==> envelope_parts(salt + nonce + ciphertext) == Err::<
            EnvelopeParts,
            CryptoError,
        >(CryptoError::UnsupportedVersion),
        salt[0] == BACKUP_VERSION ==> envelope_parts(salt + nonce + ciphertext) == Ok::<
            EnvelopeParts,
            CryptoError,
        >(
            EnvelopeParts {
                version: Some(BACKUP_VERSION),
                salt: salt.subrange(1, BACKUP_SALT_LENGTH as int).push(nonce[0]),
                nonce: nonce.subrange(1, IV_LENGTH as int).push(ciphertext[0]),
                ciphertext: ciphertext.subrange(1, ciphertext.len() as int),
            },
        ),
{
    let bytes = salt + nonce + ciphertext;
    assert(bytes[0] == salt[0]);
    assert(bytes.subrange(1, 1 + BACKUP_SALT_LENGTH) =~= salt.subrange(
        1,
        BACKUP_SALT_LENGTH as int,
    ).push(nonce[0]));
    assert(bytes.subrange(1 + BACKUP_SALT_LENGTH, 1 + BACKUP_SALT_LENGTH + IV_LENGTH)
        =~= nonce.subrange(1, IV_LENGTH as int).push(ciphertext[0]));
    assert(bytes.subrange(1 + BACKUP_SALT_LENGTH + IV_LENGTH, bytes.len() as int)
        =~= ciphertext.subrange(1, ciphertext.len() as int));
}

} // verus!
