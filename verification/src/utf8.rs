//! UTF-8 validation utilities.
use vstd::prelude::*;

verus! {

/// What UTF-8 validation of a byte sequence yields: the decoded characters
/// when the bytes are valid UTF-8, and nothing otherwise. The result depends
/// on the bytes alone.
pub uninterp spec fn utf8_decode(bytes: Seq<u8>) -> Option<Seq<char>>;

/// Validate bytes as UTF-8 and view them as a string slice.
///
/// Relies on core::str::from_utf8: it succeeds exactly when the bytes are
/// valid UTF-8, and the resulting string is a function of the bytes alone.
#[verifier::external_body]
pub fn from_utf8(bytes: &[u8]) -> (r: Option<&str>)
    ensures
        r is Some <==> utf8_decode(bytes@) is Some,
        r matches Some(s) ==> utf8_decode(bytes@) == Some(s@),
{
    core::str::from_utf8(bytes).ok()
}

} // verus!
