//! Base64 bridging for frame payloads and saved captures.

use vstd::prelude::*;

verus! {

/// The standard-alphabet base64 rendering of a byte string.
pub uninterp spec fn base64_of(b: Seq<u8>) -> Seq<char>;

/// What standard-alphabet base64 decoding yields for a character
/// string: the bytes, or nothing when the string is not valid
/// base64.
pub uninterp spec fn base64_decoded(s: Seq<char>) -> Option<Seq<u8>>;

/// Relies on base64's standard engine `encode`: the result depends on
/// the bytes alone, is four characters for every started group of
/// three bytes, and `decode` reads it back to the same bytes.
#[verifier::external_body]
pub(crate) fn b64_encode(data: &[u8]) -> (r: String)
    ensures
        r@ == base64_of(data@),
        r@.len() == 4 * ((data@.len() + 2) / 3),
        base64_decoded(r@) == Some(data@),
{
    base64::Engine::encode(&base64::engine::general_purpose::STANDARD, data)
}

/// Relies on base64's standard engine `decode`: the bytes a valid
/// base64 string denotes, or failure on an invalid one; the outcome
/// depends on the string alone.
#[verifier::external_body]
pub(crate) fn b64_decode(s: &str) -> (r: Option<Vec<u8>>)
    ensures
        match r {
            Some(v) => base64_decoded(s@) == Some(v@),
            None => base64_decoded(s@) == None::<Seq<u8>>,
        },
{
    match base64::Engine::decode(&base64::engine::general_purpose::STANDARD, s) {
        Ok(v) => Some(v),
        Err(_) => None,
    }
}

} // verus!
