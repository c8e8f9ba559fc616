//! Content hashes: BLAKE3 for identities and fingerprints, SHA-256 for definition bases.

use vstd::prelude::*;

verus! {

/// The BLAKE3 hash of `data`, as 64 lowercase hexadecimal digits.
pub uninterp spec fn blake3_hex(data: Seq<u8>) -> Seq<char>;

/// The SHA-256 digest of `data`, as 64 lowercase hexadecimal digits.
pub uninterp spec fn sha256_hex(data: Seq<u8>) -> Seq<char>;

/// Calls `blake3::hash` on `data` and renders the hash with `Hash::to_hex`, which writes
/// each of its 32 bytes as two lowercase hexadecimal digits. The contract names the
/// result and states its length; the digest itself is not stated.
#[verifier::external_body]
pub(crate) fn blake3_hex_of(data: &[u8]) -> (r: String)
    ensures
        r@ == blake3_hex(data@),
        r@.len() == 64,
{
    blake3::hash(data).to_hex().to_string()
}

/// Calls `<sha2::Sha256 as Digest>::digest` on `data` and formats the 32-byte digest with
/// `{:x}`, two lowercase hexadecimal digits per byte. The contract names the result and
/// states its length; the digest itself is not stated.
#[verifier::external_body]
pub(crate) fn sha256_hex_of(data: &[u8]) -> (r: String)
    ensures
        r@ == sha256_hex(data@),
        r@.len() == 64,
{
    format!("{:x}", <sha2::Sha256 as sha2::Digest>::digest(data))
}

} // verus!
