//! Turning raw terminal output into text.

use vstd::prelude::*;
use vstd::utf8::{decode_utf8, valid_utf8};

verus! {

/// The text that a lossy conversion makes of `bytes`: the bytes read as
/// UTF-8, with the replacement character U+FFFD in place of every sequence
/// that is not valid.
pub uninterp spec fn lossy_decoded(bytes: Seq<u8>) -> Seq<char>;

/// Calls `String::from_utf8_lossy` and takes ownership of the result.
/// Trusted: the text is a function of the bytes alone, and bytes that are
/// valid UTF-8 are decoded as they are.
#[verifier::external_body]
pub(crate) fn decode_lossy(bytes: &[u8]) -> (text: String)
    ensures
        text@ == lossy_decoded(bytes@),
        valid_utf8(bytes@) ==> text@ == decode_utf8(bytes@),
{
    String::from_utf8_lossy(bytes).into_owned()
}

} // verus!
