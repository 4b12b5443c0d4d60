//! The JSON values that flow through the library, carried as opaque
//! `serde_json::Value`s, with their canonical serialization and parsing.

use vstd::prelude::*;

use crate::hashing::{sha256_hex, sha256_hex_of};

verus! {

#[verifier::external_type_specification]
#[verifier::external_body]
pub struct ExJsonValue(serde_json::Value);

/// The compact serialization of the JSON value `v`: a function of the value
/// alone, byte-stable for identical logical values (object keys sit in
/// serde_json's default ordered map, so two equal values serialize alike).
pub uninterp spec fn canonical_of(v: serde_json::Value) -> Seq<char>;

/// What parsing `s` as a single JSON value yields: the value, or the parse
/// error's diagnostic text; either is a function of `s` alone.
pub uninterp spec fn json_parse_of(s: Seq<char>) -> Result<serde_json::Value, Seq<char>>;

/// Relies on `serde_json::to_string`: the compact serialization of a JSON
/// value. On a `Value` argument serialization cannot fail (every object key
/// is a string), and a failure would be rendered as the empty string.
#[verifier::external_body]
pub(crate) fn canonical_json(v: &serde_json::Value) -> (r: String)
    ensures
        r@ == canonical_of(*v),
{
    serde_json::to_string(v).unwrap_or_default()
}

/// The digest of a JSON value: the hash of its canonical serialization, so
/// that two logically identical payloads carry one input hash however their
/// source texts were written.
pub fn json_hash(v: &serde_json::Value) -> (r: String)
    ensures
        r@ == sha256_hex_of(canonical_of(*v)),
{
    let canonical = canonical_json(v);
    sha256_hex(canonical.as_str())
}

/// Relies on `serde_json::from_str`: parses `s` as one JSON value, and on a
/// malformed text returns an error whose message describes the failure.
#[verifier::external_body]
pub(crate) fn parse_json(s: &str) -> (r: Result<serde_json::Value, String>)
    ensures
        r is Ok <==> json_parse_of(s@) is Ok,
        r matches Ok(v) ==> json_parse_of(s@) matches Ok(w) && v == w,
        r matches Err(m) ==> json_parse_of(s@) matches Err(w) && m@ == w,
{
    match serde_json::from_str::<serde_json::Value>(s) {
        Ok(v) => Ok(v),
        Err(e) => Err(e.to_string()),
    }
}

} // verus!
