//! Bytes as text: the three places where the standard library decides what a
//! text looks like.
use vstd::prelude::*;

verus! {

/// What the standard library says is wrong with bytes that are not UTF-8.
pub uninterp spec fn utf8_complaint(bytes: Seq<u8>) -> Seq<char>;

/// The text that the standard library makes of bytes that need not be UTF-8.
pub uninterp spec fn lossy(bytes: Seq<u8>) -> Seq<char>;

/// The text that the standard library shows for a text in double quotes.
pub uninterp spec fn quoted(text: Seq<char>) -> Seq<char>;

/// Calls `String::from_utf8`: bytes that are UTF-8 become the text that they
/// encode, all others are refused. Of the refusal nothing is claimed but that
/// its wording depends on the bytes alone.
#[verifier::external_body]
pub(crate) fn decode(bytes: &Vec<u8>) -> (text: Result<String, String>)
    ensures
        match text {
            Ok(text) => vstd::utf8::valid_utf8(bytes@) && text@ == vstd::utf8::decode_utf8(bytes@),
            Err(complaint) => !vstd::utf8::valid_utf8(bytes@) && complaint@ == utf8_complaint(
                bytes@,
            ),
        },
{
    String::from_utf8(bytes.clone()).map_err(|error| error.to_string())
}

/// Calls `String::from_utf8_lossy`: bytes that are UTF-8 become the text that
/// they encode. Of others nothing is claimed but that the text depends on them
/// alone.
#[verifier::external_body]
pub(crate) fn decode_lossy(bytes: &Vec<u8>) -> (text: String)
    ensures
        text@ == lossy(bytes@),
        vstd::utf8::valid_utf8(bytes@) ==> text@ == vstd::utf8::decode_utf8(bytes@),
{
    String::from_utf8_lossy(bytes).into_owned()
}

/// Formats a text with `Debug`. Nothing is claimed of what comes out but that it
/// depends on the text alone.
#[verifier::external_body]
pub(crate) fn quote(text: &str) -> (shown: String)
    ensures
        shown@ == quoted(text@),
{
    format!("{text:?}")
}

} // verus!
