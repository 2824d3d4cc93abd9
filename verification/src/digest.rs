//! SHA-256.

use sha2::{Digest, Sha256};
use vstd::prelude::*;

verus! {

/// The length in bytes of the longest message that SHA-256 hashes: its length in bits, which the
/// padding holds, takes 64 bits.
pub const MAX_MESSAGE: u64 = 0x1fff_ffff_ffff_ffff;

/// The SHA-256 digest of `message`.
pub uninterp spec fn sha256_digest(message: Seq<u8>) -> Seq<u8>;

/// Hashes `message` through `Sha256` of sha2: `new`, one `update`, `finalize`.
///
/// Claimed: the digest depends on the message alone.
#[verifier::external_body]
pub(crate) fn sha256(message: &[u8]) -> (digest: [u8; 32])
    requires
        message@.len() <= MAX_MESSAGE,
    ensures
        digest@ == sha256_digest(message@),
{
    let mut hasher = Sha256::new();
    hasher.update(message);
    hasher.finalize().into()
}

} // verus!
