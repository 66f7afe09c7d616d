//! Character classes and string primitives of the standard library that the
//! slug pipeline relies on.
//!
//! The Unicode property tables behind these functions are large, so each
//! property gets a name here, and no claim is made about which characters
//! have it.

use vstd::prelude::*;

verus! {

/// Whether `c` has the Unicode `White_Space` property.
pub uninterp spec fn whitespace(c: char) -> bool;

/// Whether `c` has the Unicode `Alphabetic` property.
pub uninterp spec fn alphabetic(c: char) -> bool;

/// Whether `c` is numeric in the sense of `char::is_numeric`: its Unicode
/// general category is one of the number categories.
pub uninterp spec fn numeric(c: char) -> bool;

/// Whether `c` is alphabetic or numeric.
pub open spec fn alphanumeric(c: char) -> bool {
    alphabetic(c) || numeric(c)
}

/// The text that `str::to_lowercase` produces for `text`.
pub uninterp spec fn lowercase_form(text: Seq<char>) -> Seq<char>;

/// `char::is_whitespace` looks `c` up in the `White_Space` table; the result
/// depends on `c` alone and is called `whitespace(c)`.
pub assume_specification[ char::is_whitespace ](c: char) -> (b: bool)
    ensures
        b == whitespace(c),
;

/// `char::is_alphabetic` looks `c` up in the `Alphabetic` table; the result
/// depends on `c` alone and is called `alphabetic(c)`.
pub assume_specification[ char::is_alphabetic ](c: char) -> (b: bool)
    ensures
        b == alphabetic(c),
;

/// `char::is_alphanumeric` is documented to hold exactly of the characters
/// for which `char::is_alphabetic` or `char::is_numeric` holds.
pub assume_specification[ char::is_alphanumeric ](c: char) -> (b: bool)
    ensures
        b == (alphabetic(c) || numeric(c)),
;

/// `str::to_lowercase` returns a new string that depends on the characters of
/// `s` alone; its contents are called `lowercase_form(s@)`.
pub assume_specification[ str::to_lowercase ](s: &str) -> (lowered: String)
    ensures
        lowered@ == lowercase_form(s@),
;

/// `String::push` appends the single character `c` to the end of `s`.
pub assume_specification[ String::push ](s: &mut String, c: char)
    ensures
        final(s)@ == old(s)@.push(c),
;

/// The ASCII letters and digits.
pub open spec fn ascii_alphanumeric(c: char) -> bool {
    ('0' <= c && c <= '9') || ('A' <= c && c <= 'Z') || ('a' <= c && c <= 'z')
}

/// Tells whether `c` is an ASCII letter or digit.
pub fn is_ascii_alphanumeric(c: char) -> (b: bool)
    ensures
        b == ascii_alphanumeric(c),
{
    ('0' <= c && c <= '9') || ('A' <= c && c <= 'Z') || ('a' <= c && c <= 'z')
}

} // verus!
