//! Trusted binding to the base64 crate (standard alphabet with padding),
//! used by the string-level interface of the core.

use vstd::prelude::*;
use base64::Engine;

verus! {

/// The standard padded base64 text of a byte string.
pub uninterp spec fn b64_of(b: Seq<u8>) -> Seq<char>;

/// The byte string a base64 text decodes to, or nothing when it is not
/// valid base64.
pub uninterp spec fn b64_parse(s: Seq<char>) -> Option<Seq<u8>>;

/// Relies on base64's STANDARD engine encode: the text depends on the bytes
/// alone, is four characters for every started group of three bytes, and
/// decodes back to the same bytes.
#[verifier::external_body]
pub(crate) fn b64_encode(b: &[u8]) -> (r: String)
    ensures
        r@ == b64_of(b@),
        r@.len() == 4 * ((b@.len() + 2) / 3),
        b64_parse(r@) == Some(b@),
{
    base64::engine::general_purpose::STANDARD.encode(b)
}

/// Relies on base64's STANDARD engine decode: decoding is a deterministic
/// function of the text and fails exactly on text that is not valid base64.
#[verifier::external_body]
pub(crate) fn b64_decode(s: &str) -> (r: Option<Vec<u8>>)
    ensures
        match r {
            Some(v) => b64_parse(s@) == Some(v@),
            None => b64_parse(s@) is None,
        },
{
    match base64::engine::general_purpose::STANDARD.decode(s) {
        Ok(v) => Some(v),
        Err(_) => None,
    }
}

} // verus!
