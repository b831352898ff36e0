//! Message authentication codes: HMAC over SHA-1, SHA-256 and SHA-512.

use vstd::prelude::*;

use digest::{KeyInit, Mac};
use hmac::Hmac;
use sha1::Sha1;
use sha2::{Sha256, Sha512};

use crate::account::OtpHashAlgorithm;

verus! {

/// The shortest tag of the three: that of SHA-1.
pub const SHORTEST_TAG: usize = 20;

/// The length of the tag of each hash function, in bytes.
pub open spec fn tag_length(algo: OtpHashAlgorithm) -> nat {
    match algo {
        OtpHashAlgorithm::Sha1 => 20,
        OtpHashAlgorithm::Sha256 => 32,
        OtpHashAlgorithm::Sha512 => 64,
    }
}

/// The tag of HMAC-SHA-1 for a message under a key.
pub uninterp spec fn hmac_sha1(key: Seq<u8>, message: Seq<u8>) -> Seq<u8>;

/// The tag of HMAC-SHA-256 for a message under a key.
pub uninterp spec fn hmac_sha256(key: Seq<u8>, message: Seq<u8>) -> Seq<u8>;

/// The tag of HMAC-SHA-512 for a message under a key.
pub uninterp spec fn hmac_sha512(key: Seq<u8>, message: Seq<u8>) -> Seq<u8>;

/// The tag of a message under a key, with the chosen hash function.
pub open spec fn hmac_tag(algo: OtpHashAlgorithm, key: Seq<u8>, message: Seq<u8>) -> Seq<u8> {
    match algo {
        OtpHashAlgorithm::Sha1 => hmac_sha1(key, message),
        OtpHashAlgorithm::Sha256 => hmac_sha256(key, message),
        OtpHashAlgorithm::Sha512 => hmac_sha512(key, message),
    }
}

/// Runs `hmac::Hmac<sha1::Sha1>` over the message: `new_from_slice`, `update`,
/// `finalize`. Trusted: the result is the HMAC-SHA-1 tag, of 20 bytes. HMAC
/// takes a key of any length.
#[verifier::external_body]
fn hmac_sha1_tag(key: &[u8], message: &[u8]) -> (tag: Vec<u8>)
    ensures
        tag@ == hmac_sha1(key@, message@),
        tag@.len() == 20,
{
    let mut mac = <Hmac<Sha1> as KeyInit>::new_from_slice(key).expect("HMAC takes any key");
    mac.update(message);
    mac.finalize().into_bytes().to_vec()
}

/// Runs `hmac::Hmac<sha2::Sha256>` over the message: `new_from_slice`,
/// `update`, `finalize`. Trusted: the result is the HMAC-SHA-256 tag, of 32
/// bytes. HMAC takes a key of any length.
#[verifier::external_body]
fn hmac_sha256_tag(key: &[u8], message: &[u8]) -> (tag: Vec<u8>)
    ensures
        tag@ == hmac_sha256(key@, message@),
        tag@.len() == 32,
{
    let mut mac = <Hmac<Sha256> as KeyInit>::new_from_slice(key).expect("HMAC takes any key");
    mac.update(message);
    mac.finalize().into_bytes().to_vec()
}

/// Runs `hmac::Hmac<sha2::Sha512>` over the message: `new_from_slice`,
/// `update`, `finalize`. Trusted: the result is the HMAC-SHA-512 tag, of 64
/// bytes. HMAC takes a key of any length.
#[verifier::external_body]
fn hmac_sha512_tag(key: &[u8], message: &[u8]) -> (tag: Vec<u8>)
    ensures
        tag@ == hmac_sha512(key@, message@),
        tag@.len() == 64,
{
    let mut mac = <Hmac<Sha512> as KeyInit>::new_from_slice(key).expect("HMAC takes any key");
    mac.update(message);
    mac.finalize().into_bytes().to_vec()
}

/// The eight bytes of a counter, most significant first.
pub open spec fn counter_bytes(counter: u64) -> Seq<u8> {
    seq![
        (counter / 0x100_0000_0000_0000) as u8,
        (counter / 0x1_0000_0000_0000 % 0x100) as u8,
        (counter / 0x100_0000_0000 % 0x100) as u8,
        (counter / 0x1_0000_0000 % 0x100) as u8,
        (counter / 0x100_0000 % 0x100) as u8,
        (counter / 0x1_0000 % 0x100) as u8,
        (counter / 0x100 % 0x100) as u8,
        (counter % 0x100) as u8,
    ]
}

/// Writes a counter as eight bytes, most significant first.
pub fn counter_to_bytes(counter: u64) -> (bytes: Vec<u8>)
    ensures
        bytes@ == counter_bytes(counter),
{
    let b0: u8 = (counter >> 56) as u8;
    let b1: u8 = ((counter >> 48) & 0xff) as u8;
    let b2: u8 = ((counter >> 40) & 0xff) as u8;
    let b3: u8 = ((counter >> 32) & 0xff) as u8;
    let b4: u8 = ((counter >> 24) & 0xff) as u8;
    let b5: u8 = ((counter >> 16) & 0xff) as u8;
    let b6: u8 = ((counter >> 8) & 0xff) as u8;
    let b7: u8 = (counter & 0xff) as u8;
    assert(counter >> 56 == counter / 0x100_0000_0000_0000 && (counter >> 56) < 0x100)
        by (bit_vector);
    assert((counter >> 48) & 0xff == counter / 0x1_0000_0000_0000 % 0x100) by (bit_vector);
    assert((counter >> 40) & 0xff == counter / 0x100_0000_0000 % 0x100) by (bit_vector);
    assert((counter >> 32) & 0xff == counter / 0x1_0000_0000 % 0x100) by (bit_vector);
    assert((counter >> 24) & 0xff == counter / 0x100_0000 % 0x100) by (bit_vector);
    assert((counter >> 16) & 0xff == counter / 0x1_0000 % 0x100) by (bit_vector);
    assert((counter >> 8) & 0xff == counter / 0x100 % 0x100) by (bit_vector);
    assert(counter & 0xff == counter % 0x100) by (bit_vector);
    let mut bytes: Vec<u8> = Vec::new();
    bytes.push(b0);
    bytes.push(b1);
    bytes.push(b2);
    bytes.push(b3);
    bytes.push(b4);
    bytes.push(b5);
    bytes.push(b6);
    bytes.push(b7);
    assert(bytes@ =~= counter_bytes(counter));
    bytes
}

/// The HMAC of a counter, written as eight bytes with the most significant
/// first, under a key and with the chosen hash function. The tag has 20, 32
/// or 64 bytes, by the hash function; a key of any length is taken.
pub fn compute_hmac(algo: OtpHashAlgorithm, key: &[u8], counter: u64) -> (tag: Vec<u8>)
    ensures
        tag@ == hmac_tag(algo, key@, counter_bytes(counter)),
        counter_bytes(counter).len() == 8,
        tag@.len() == tag_length(algo),
        tag@.len() >= SHORTEST_TAG,
        tag@.last() as int % 16 + 4 <= tag@.len(),
{
    let message = counter_to_bytes(counter);
    match algo {
        OtpHashAlgorithm::Sha1 => hmac_sha1_tag(key, message.as_slice()),
        OtpHashAlgorithm::Sha256 => hmac_sha256_tag(key, message.as_slice()),
        OtpHashAlgorithm::Sha512 => hmac_sha512_tag(key, message.as_slice()),
    }
}

} // verus!
