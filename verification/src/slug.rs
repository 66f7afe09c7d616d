//! The whole pipeline, from input text to slug.

use crate::chars::lowercase_form;
use crate::options::SlugOptions;
use crate::text::{blank, is_blank, texts};
use crate::truncate::{lemma_shortened_is_prefix, shortened, truncate_slug};
use crate::unicode::{nfc_form, normalize_nfc, split_words, word_segments};
use crate::words::{filter_words, join_words, joined, surviving_words};
use vstd::prelude::*;

verus! {

/// `text` after the casing step.
pub open spec fn cased(text: Seq<char>, lowercase: bool) -> Seq<char> {
    if lowercase {
        lowercase_form(text)
    } else {
        text
    }
}

/// The surviving words of a segmented text, joined with the separator:
/// the slug before casing and truncation.
pub open spec fn joined_slug(words: Seq<Seq<char>>, options: SlugOptions) -> Seq<char> {
    joined(surviving_words(words, options), options.separator)
}

/// The slug that a list of segmented words gives: the surviving words are
/// joined, the joined text is cased, and the cased text is held to the bound.
pub open spec fn slug_of_words(words: Seq<Seq<char>>, options: SlugOptions) -> Seq<char> {
    shortened(
        cased(joined_slug(words, options), options.lowercase),
        options.separator,
        options.max_length,
    )
}

/// The words of `input`: the segments of its canonical composition.
pub open spec fn segmented(input: Seq<char>) -> Seq<Seq<char>> {
    word_segments(nfc_form(input))
}

/// The slug of `input`. A blank input has the empty slug, whatever the
/// options. Any other input is brought into NFC, segmented into words, and
/// the words are turned into the slug.
pub open spec fn slug_of(input: Seq<char>, options: SlugOptions) -> Seq<char> {
    if blank(input) {
        Seq::empty()
    } else {
        slug_of_words(segmented(input), options)
    }
}

/// Lower-cases `text` if `lowercase` is set.
pub fn apply_case(text: String, lowercase: bool) -> (result: String)
    ensures
        result@ == cased(text@, lowercase),
{
    if lowercase {
        text.as_str().to_lowercase()
    } else {
        text
    }
}

/// Builds the slug from words that have already been segmented.
pub fn slugify_words(words: &Vec<String>, options: &SlugOptions) -> (slug: String)
    ensures
        slug@ == slug_of_words(texts(words@), *options),
        options.max_length matches Some(n) ==> slug@.len() <= n,
{
    let kept = filter_words(words, options);
    let text = join_words(&kept, options.separator);
    let text = apply_case(text, options.lowercase);
    proof {
        lemma_shortened_is_prefix(text@, options.separator, options.max_length);
    }
    truncate_slug(text, options.separator, options.max_length)
}

/// Converts `input` into a slug.
///
/// The result is the empty string when `input` is empty or holds only
/// whitespace, and it never has more characters than `options.max_length`.
pub fn slugify(input: &str, options: &SlugOptions) -> (slug: String)
    ensures
        slug@ == slug_of(input@, *options),
        blank(input@) ==> slug@.len() == 0,
        options.max_length matches Some(n) ==> slug@.len() <= n,
{
    if is_blank(input) {
        return String::new();
    }
    let normalized = normalize_nfc(input);
    let words = split_words(normalized.as_str());
    slugify_words(&words, options)
}

} // verus!
