//! Bytes read as text.

use vstd::prelude::*;
use vstd::string::StringSliceAdditionalSpecFns;
use vstd::utf8::valid_utf8;

verus! {

/// What a lossy reading of `bytes` as UTF-8 yields.
pub uninterp spec fn lossy_text(bytes: Seq<u8>) -> Seq<char>;

/// Reads `bytes` as UTF-8 text.
///
/// Trusted: calls `std::str::from_utf8`, which returns the bytes unchanged as
/// a string slice when they are valid UTF-8 and an error otherwise.
#[verifier::external_body]
pub(crate) fn utf8_text(bytes: &[u8]) -> (text: Option<&str>)
    ensures
        text is Some <==> valid_utf8(bytes@),
        text matches Some(s) ==> s.spec_bytes() == bytes@,
{
    std::str::from_utf8(bytes).ok()
}

/// Reads `bytes` as text for display, whatever they hold.
///
/// Trusted: calls `String::from_utf8_lossy`, which depends on the bytes
/// alone; its result is named `lossy_text`.
#[verifier::external_body]
pub(crate) fn display_text(bytes: &[u8]) -> (text: String)
    ensures
        text@ == lossy_text(bytes@),
{
    String::from_utf8_lossy(bytes).into_owned()
}

} // verus!
