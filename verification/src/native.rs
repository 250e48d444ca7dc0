//! The conversions that the standard library makes between bytes and text.

use vstd::prelude::*;
use vstd::utf8::*;

verus! {

/// The text that `String::from_utf8_lossy` makes of bytes.
pub uninterp spec fn utf8_lossy(bytes: Seq<u8>) -> Seq<char>;

/// The quoted and escaped form that `format!("{:?}")` gives a text.
pub uninterp spec fn debug_text(text: Seq<char>) -> Seq<char>;

/// `String::from_utf8_lossy`: a function of the bytes alone, which decodes valid UTF-8 as it
/// stands. What stands in place of an invalid part is left unsaid.
#[verifier::external_body]
pub(crate) fn lossy(bytes: &Vec<u8>) -> (r: String)
    ensures
        r@ == utf8_lossy(bytes@),
        valid_utf8(bytes@) ==> r@ == decode_utf8(bytes@),
{
    String::from_utf8_lossy(bytes).into_owned()
}

/// `String::from_utf8`: succeeds exactly on valid UTF-8, and then decodes it.
#[verifier::external_body]
pub(crate) fn strict(bytes: Vec<u8>) -> (r: Option<String>)
    ensures
        r is Some <==> valid_utf8(bytes@),
        r is Some ==> r->0@ == decode_utf8(bytes@),
{
    String::from_utf8(bytes).ok()
}

/// `format!` with the `Debug` form of a text: a function of the text alone, which holds no line
/// break, since the form escapes those of the text. The rest of its escapes is left unsaid.
#[verifier::external_body]
pub(crate) fn quoted(text: &str) -> (r: String)
    ensures
        r@ == debug_text(text@),
        !r@.contains('\n'),
{
    format!("{:?}", text)
}

/// Bytes read as text: the characters that they encode, where they are UTF-8.
pub open spec fn decoded(bytes: Seq<u8>) -> Seq<char> {
    if valid_utf8(bytes) {
        decode_utf8(bytes)
    } else {
        utf8_lossy(bytes)
    }
}

/// Bytes read as text.
pub fn decode(bytes: &Vec<u8>) -> (r: String)
    ensures
        r@ == decoded(bytes@),
{
    lossy(bytes)
}

/// A text in quotes and with escapes, on one line: its `Debug` form, where that is one line.
pub open spec fn quotation(text: Seq<char>) -> Seq<char> {
    if debug_text(text).contains('\n') {
        Seq::empty()
    } else {
        debug_text(text)
    }
}

/// A text in quotes and with escapes, on one line.
pub fn quote(text: &str) -> (r: String)
    ensures
        r@ == quotation(text@),
        r@ == debug_text(text@),
{
    quoted(text)
}

/// The UTF-8 bytes of `text`.
pub fn bytes_of(text: &str) -> (r: Vec<u8>)
    ensures
        r@ == encode_utf8(text@),
{
    text.as_bytes_vec()
}

/// A copy of `bytes`.
pub fn copy_of(bytes: &Vec<u8>) -> (r: Vec<u8>)
    ensures
        r@ == bytes@,
{
    let mut r: Vec<u8> = Vec::new();
    r.extend_from_slice(bytes.as_slice());
    assert(r@ == bytes@);
    r
}

} // verus!
