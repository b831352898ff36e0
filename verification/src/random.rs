//! Fresh random bytes for salts and nonces.

use vstd::prelude::*;

use rand::RngCore;

verus! {

/// Calls `fill_bytes` of `rand::thread_rng()` on a buffer of `N` bytes.
/// Trusted: nothing beyond the length; two calls may differ.
#[verifier::external_body]
pub(crate) fn random_bytes<const N: usize>() -> (bytes: [u8; N]) {
    let mut bytes = [0u8; N];
    rand::thread_rng().fill_bytes(&mut bytes);
    bytes
}

} // verus!
