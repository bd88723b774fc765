//! Calls into outside crates, each behind a contract that states what the
//! crate's documentation promises.

use base64::Engine;
use vstd::prelude::*;

verus! {

/// The bytes that the standard, padded base64 alphabet decodes `s` to, or
/// `None` where `s` is not valid base64.
pub uninterp spec fn base64_decoded(s: Seq<char>) -> Option<Seq<u8>>;

/// Relies on `base64::Engine::decode` with the `STANDARD` engine: the bytes
/// that `s` encodes, or an error where `s` is not valid base64. The result
/// depends on `s` alone.
#[verifier::external_body]
pub(crate) fn base64_decode(s: &str) -> (r: Option<Vec<u8>>)
    ensures
        match r {
            Some(v) => base64_decoded(s@) == Some(v@),
            None => base64_decoded(s@) is None,
        },
{
    base64::engine::general_purpose::STANDARD.decode(s).ok()
}

/// Relies on `String::from_utf8`: the string whose UTF-8 encoding is `v`, or
/// an error where `v` is not valid UTF-8.
#[verifier::external_body]
pub(crate) fn string_from_utf8(v: Vec<u8>) -> (r: Option<String>)
    ensures
        r is Some <==> vstd::utf8::valid_utf8(v@),
        r is Some ==> r->0@ == vstd::utf8::decode_utf8(v@),
{
    String::from_utf8(v).ok()
}

} // verus!
