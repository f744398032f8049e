//! Byte strings: splitting them into lines and reading them as text.

use bstr::ByteSlice;
use vstd::prelude::*;
use vstd::utf8::{decode_utf8, valid_utf8};

verus! {

/// The byte that ends a line.
pub const LINE_FEED: u8 = 10;

/// The byte that may stand before the end of a line.
pub const CARRIAGE_RETURN: u8 = 13;

/// The number of bytes before the first line feed, or all of them.
pub open spec fn line_len(bytes: Seq<u8>) -> nat
    decreases bytes.len(),
{
    if bytes.len() == 0 || bytes[0] == LINE_FEED {
        0
    } else {
        line_len(bytes.drop_first()) + 1
    }
}

/// A line without the carriage return at its end.
pub open spec fn trim_return(line: Seq<u8>) -> Seq<u8> {
    if line.len() > 0 && line.last() == CARRIAGE_RETURN {
        line.drop_last()
    } else {
        line
    }
}

/// The lines of a byte string, without their terminators. A line ends at a line feed, with
/// or without a carriage return before it; the last line may be unterminated, and is then
/// kept as it is.
pub open spec fn byte_lines(bytes: Seq<u8>) -> Seq<Seq<u8>>
    decreases bytes.len(),
{
    let end = line_len(bytes);
    if bytes.len() == 0 {
        Seq::empty()
    } else if end >= bytes.len() {
        seq![bytes]
    } else {
        seq![trim_return(bytes.take(end as int))] + byte_lines(bytes.skip(end as int + 1))
    }
}

/// The contents of a sequence of slices.
pub open spec fn slice_views(slices: Seq<&[u8]>) -> Seq<Seq<u8>> {
    Seq::new(slices.len(), |i: int| slices[i]@)
}

/// Calls `bstr::ByteSlice::lines` and collects the lines it walks over.
#[verifier::external_body]
pub(crate) fn lines(bytes: &[u8]) -> (r: Vec<&[u8]>)
    ensures
        slice_views(r@) == byte_lines(bytes@),
{
    bytes.lines().collect()
}

/// The text of a byte string in which each maximal invalid part is replaced by U+FFFD, as
/// `bstr::ByteSlice::to_str_lossy` gives it.
pub uninterp spec fn lossy(bytes: Seq<u8>) -> Seq<char>;

/// Calls `bstr::ByteSlice::to_str_lossy`. The result is a function of the bytes; valid UTF-8
/// is decoded as it stands.
#[verifier::external_body]
pub(crate) fn lossy_text(bytes: &[u8]) -> (r: String)
    ensures
        r@ == lossy(bytes@),
        valid_utf8(bytes@) ==> r@ == decode_utf8(bytes@),
{
    bytes.to_str_lossy().into_owned()
}

/// What `Display` of `bstr::BStr` writes for a byte string.
pub uninterp spec fn displayed(bytes: Seq<u8>) -> Seq<char>;

/// Calls `to_string` of `bstr::BStr`, that is, its `Display`. The result is a function of the
/// bytes; valid UTF-8 is written as it stands.
#[verifier::external_body]
pub(crate) fn displayed_text(bytes: &[u8]) -> (r: String)
    ensures
        r@ == displayed(bytes@),
        valid_utf8(bytes@) ==> r@ == decode_utf8(bytes@),
{
    bytes.as_bstr().to_string()
}

} // verus!
