//! Trusted bridge to the `base64` crate's standard engine.

use vstd::prelude::*;
use base64::Engine;

verus! {

/// The standard (padded) base64 text for a byte sequence.
pub uninterp spec fn b64_of(b: Seq<u8>) -> Seq<char>;

/// What base64 decoding yields: `None` exactly on text the standard engine
/// rejects.
pub uninterp spec fn b64_decode_of(s: Seq<char>) -> Option<Seq<u8>>;

/// Relies on `base64::engine::general_purpose::STANDARD.encode`: the text is
/// a function of the bytes alone, and decoding it yields the bytes back.
#[verifier::external_body]
pub(crate) fn b64_encode(b: &[u8]) -> (r: String)
    ensures
        r@ == b64_of(b@),
        b64_decode_of(r@) == Some(b@),
{
    base64::engine::general_purpose::STANDARD.encode(b)
}

/// Relies on `base64::engine::general_purpose::STANDARD.decode`: the result
/// is a function of the text alone; it fails exactly where the engine
/// rejects the text.
#[verifier::external_body]
pub(crate) fn b64_decode(s: &str) -> (r: Result<Vec<u8>, ()>)
    ensures
        r matches Ok(d) ==> b64_decode_of(s@) == Some(d@),
        r is Err ==> b64_decode_of(s@) is None,
{
    base64::engine::general_purpose::STANDARD.decode(s).map_err(|_| ())
}

} // verus!
