//! Fresh world seeds: the current time's text, digested to 64 bits.

use vstd::prelude::*;

use sha2::{Digest, Sha256};

verus! {

/// The SHA-256 digest of a byte string.
pub uninterp spec fn sha256_of(data: Seq<u8>) -> Seq<u8>;

/// Relies on sha2's `Sha256`: the digest is a function of the input bytes
/// alone, and is 32 bytes long.
#[verifier::external_body]
pub fn sha256(data: &Vec<u8>) -> (r: Vec<u8>)
    ensures
        r@ == sha256_of(data@),
        r@.len() == 32,
{
    let mut h = Sha256::new();
    h.update(data.as_slice());
    h.finalize().to_vec()
}

/// Relies on chrono's `Utc::now` and `to_rfc3339` for the current moment as
/// text; the result depends on the clock, so nothing is promised of it.
#[verifier::external_body]
pub fn now_rfc3339_bytes() -> Vec<u8> {
    chrono::Utc::now().to_rfc3339().into_bytes()
}

/// The little-endian 64-bit value of a byte string's first eight bytes.
pub open spec fn spec_le64(s: Seq<u8>) -> int {
    s[0] + 256 * (s[1] + 256 * (s[2] + 256 * (s[3] + 256 * (s[4] + 256 * (s[5] + 256 * (s[6] + 256
        * s[7]))))))
}

/// Reads a digest's first eight bytes as a little-endian 64-bit seed.
pub fn seed_from_digest(digest: &Vec<u8>) -> (r: u64)
    requires
        digest@.len() >= 8,
    ensures
        r == spec_le64(digest@),
{
    let mut acc: u64 = digest[7] as u64;
    acc = acc * 256 + (digest[6] as u64);
    acc = acc * 256 + (digest[5] as u64);
    acc = acc * 256 + (digest[4] as u64);
    acc = acc * 256 + (digest[3] as u64);
    acc = acc * 256 + (digest[2] as u64);
    acc = acc * 256 + (digest[1] as u64);
    acc = acc * 256 + (digest[0] as u64);
    acc
}

/// A fresh seed for a new material or world: the first eight bytes of the
/// SHA-256 digest of the current time's RFC 3339 text, little endian.  The
/// time-dependence lives entirely in `now_rfc3339_bytes`;
/// `seed_from_digest` and `sha256_of` fix everything after it.
pub fn generate_seed() -> (r: u64) {
    let t: Vec<u8> = now_rfc3339_bytes();
    let d: Vec<u8> = sha256(&t);
    seed_from_digest(&d)
}

} // verus!
