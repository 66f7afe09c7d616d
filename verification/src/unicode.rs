//! The two Unicode algorithms that come from other crates: canonical
//! composition and word segmentation.

use crate::text::texts;
use unicode_normalization::UnicodeNormalization;
use unicode_segmentation::UnicodeSegmentation;
use vstd::prelude::*;

verus! {

/// The canonical composition (NFC) of `text`, as
/// `unicode_normalization::UnicodeNormalization::nfc` computes it.
pub uninterp spec fn nfc_form(text: Seq<char>) -> Seq<char>;

/// The words of `text` in order, as
/// `unicode_segmentation::UnicodeSegmentation::unicode_words` yields them.
pub uninterp spec fn word_segments(text: Seq<char>) -> Seq<Seq<char>>;

/// Runs `UnicodeNormalization::nfc` over the characters of `text` and
/// collects what the iterator yields. The result depends on the characters
/// alone and is called `nfc_form(text@)`.
#[verifier::external_body]
pub(crate) fn normalize_nfc(text: &str) -> (normalized: String)
    ensures
        normalized@ == nfc_form(text@),
{
    text.nfc().collect::<String>()
}

/// Runs `UnicodeSegmentation::unicode_words` over `text` and copies each
/// yielded slice into an owned string, in order. The list depends on the
/// characters alone and is called `word_segments(text@)`.
#[verifier::external_body]
pub(crate) fn split_words(text: &str) -> (words: Vec<String>)
    ensures
        texts(words@) == word_segments(text@),
{
    text.unicode_words().map(String::from).collect::<Vec<String>>()
}

} // verus!
