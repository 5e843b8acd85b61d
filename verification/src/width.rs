//! Display width of characters, as measured by the `unicode-width` crate.
use vstd::prelude::*;
use unicode_width::UnicodeWidthStr;

verus! {

/// The number of terminal columns that `UnicodeWidthStr::width` reports for
/// a string with the given characters. The library applies it to
/// one-character strings only: a row's or a text's width is the sum of its
/// characters' widths (`row::row_width`).
pub uninterp spec fn unicode_str_width(s: Seq<char>) -> nat;

/// Columns taken by one character: the width of the one-character string.
pub open spec fn char_width(c: char) -> nat {
    unicode_str_width(seq![c])
}

/// Calls `UnicodeWidthStr::width` on the one-character string holding `c`.
/// Trusted: the result is the crate's width of that string. The crate gives
/// NUL and the control characters (below 0x20, and 0x7F to 0x9F) no width,
/// the other ASCII characters a width of 1, and every other character a
/// table value of 0, 1 or 2 (1 outside the table); so the result is at most
/// two.
#[verifier::external_body]
pub fn grapheme_width(c: char) -> (w: usize)
    ensures
        w == unicode_str_width(seq![c]),
        w <= 2,
        (c as u32) < 0x20 ==> w == 0,
        0x20 <= (c as u32) < 0x7f ==> w == 1,
        0x7f <= (c as u32) < 0xa0 ==> w == 0,
{
    let mut buf = [0u8; 4];
    UnicodeWidthStr::width(&*c.encode_utf8(&mut buf))
}

} // verus!
