//! Display widths of text in terminal columns, as `unicode-width` measures
//! them.
use vstd::prelude::*;

use unicode_width::{UnicodeWidthChar, UnicodeWidthStr};

verus! {

/// `UnicodeWidthChar::width`: the columns a character occupies, `None` for
/// control characters.
pub uninterp spec fn unicode_char_width(c: char) -> Option<usize>;

/// `UnicodeWidthStr::width`: the columns a string occupies.
pub uninterp spec fn unicode_str_width(s: Seq<char>) -> usize;

/// Calls `UnicodeWidthChar::width` on `c`. Claims: the result is the named
/// width [`unicode_char_width`] of `c`.
#[verifier::external_body]
pub fn char_width(c: char) -> (r: Option<usize>)
    ensures
        r == unicode_char_width(c),
{
    UnicodeWidthChar::width(c)
}

/// Calls `UnicodeWidthStr::width` on `s`. Claims: the result is the named
/// width [`unicode_str_width`] of the characters of `s`.
#[verifier::external_body]
pub fn str_width(s: &str) -> (r: usize)
    ensures
        r == unicode_str_width(s@),
{
    UnicodeWidthStr::width(s)
}

} // verus!
