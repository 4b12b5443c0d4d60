//! Content hashing for provenance: the SHA-256 digest of a text, rendered as
//! hex digits.

use vstd::prelude::*;

verus! {

/// The 64 lowercase hex digits of the SHA-256 digest of the UTF-8 bytes of
/// `s`: a function of the characters of `s` alone.
pub uninterp spec fn sha256_hex_of(s: Seq<char>) -> Seq<char>;

/// Relies on `sha2::Sha256` (through its `Digest` impl) to digest the UTF-8
/// bytes of `s`, and on `hex::encode` to render the 32-byte digest as 64
/// lowercase hex digits. Both results are functions of `s` alone.
#[verifier::external_body]
pub(crate) fn sha256_hex(s: &str) -> (r: String)
    ensures
        r@ == sha256_hex_of(s@),
        r@.len() == 64,
{
    let digest = <sha2::Sha256 as sha2::Digest>::digest(s.as_bytes());
    hex::encode(digest)
}

} // verus!
