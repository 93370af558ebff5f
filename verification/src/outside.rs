//! The few calls into outside crates the library's logic needs: a content
//! digest, randomness, and fresh identifiers. Each is trusted by its
//! contract, which states only what the crate's own source shows.

use sha2::Digest;
use vstd::prelude::*;

verus! {

/// The SHA-256 digest of a byte sequence, rendered as lower-case hex. The
/// digest itself is a function of the bytes alone; it is named here, not
/// spelled out.
pub uninterp spec fn sha256_hex_of(data: Seq<u8>) -> Seq<char>;

/// Relies on sha2's `Sha256::digest` and `hex::encode`: the 32-byte digest
/// of the input, rendered as two lower-case hex digits per byte — 64
/// characters, depending on the input bytes alone.
#[verifier::external_body]
pub fn sha256_hex(data: &[u8]) -> (r: String)
    ensures
        r@ == sha256_hex_of(data@),
        r@.len() == 64,
{
    hex::encode(sha2::Sha256::digest(data))
}

/// Relies on `rand::random`: a 32-bit value from the thread's generator.
/// Nothing can be promised of a random value.
#[verifier::external_body]
pub fn random_u32() -> u32 {
    rand::random()
}

/// Relies on `rand::random_range`: a value sampled from the inclusive
/// range. The range must be non-empty — the call panics on an empty one —
/// and whatever is drawn lies within it.
#[verifier::external_body]
pub fn random_in_range(lo: u64, hi: u64) -> (r: u64)
    requires
        lo <= hi,
    ensures
        lo <= r <= hi,
{
    rand::random_range(lo..=hi)
}

/// Relies on uuid's `Uuid::new_v4` and its `Display`: a fresh random
/// version-4 UUID in the hyphenated text form, which is 36 characters.
/// Nothing more can be promised of a random identifier.
#[verifier::external_body]
pub fn new_uuid_string() -> (r: String)
    ensures
        r@.len() == 36,
{
    uuid::Uuid::new_v4().to_string()
}

} // verus!
