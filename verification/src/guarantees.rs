//! What holds of every slug: which characters it is made of, how many
//! separators it has, and how it ends.
//!
//! Lower-casing is done by the standard library on the whole joined text, and
//! nothing is known here about which characters it yields. Where a statement
//! depends on that step, it says what it needs of the lower-cased text.

use crate::chars::{alphabetic, alphanumeric, ascii_alphanumeric, lowercase_form};
use crate::options::SlugOptions;
use crate::slug::{cased, joined_slug, segmented, slug_of};
use crate::text::{blank, trimmed};
use crate::translit::lemma_transliteration_is_ascii;
use crate::truncate::{ends_with, lemma_shortened_is_prefix};
use crate::unicode::{nfc_form, word_segments};
use crate::words::{filtered, joined, kept_char, surviving_words, word_slug};
use vstd::prelude::*;

verus! {

/// Whether `c` can stand inside a word of a slug: an ASCII letter or digit
/// when only ASCII is allowed, an alphabetic or alphanumeric character of any
/// script otherwise.
pub open spec fn slug_letter(c: char, ascii_only: bool) -> bool {
    if ascii_only {
        ascii_alphanumeric(c)
    } else {
        alphanumeric(c) || alphabetic(c)
    }
}

/// Whether `c` is the separator or can stand inside a word of a slug.
pub open spec fn slug_char(c: char, options: SlugOptions) -> bool {
    c == options.separator || slug_letter(c, options.ascii_only)
}

/// Whether every character of `word` can stand inside a word of a slug.
pub open spec fn only_letters(word: Seq<char>, ascii_only: bool) -> bool {
    forall|i: int| 0 <= i < word.len() ==> slug_letter(#[trigger] word[i], ascii_only)
}

/// Whether every character of `text` is the separator or a slug letter.
pub open spec fn only_slug_chars(text: Seq<char>, options: SlugOptions) -> bool {
    forall|i: int| 0 <= i < text.len() ==> slug_char(#[trigger] text[i], options)
}

/// Whether every word is non-empty and made of slug letters.
pub open spec fn words_of_letters(words: Seq<Seq<char>>, ascii_only: bool) -> bool {
    forall|k: int|
        0 <= k < words.len() ==> (#[trigger] words[k]).len() > 0 && only_letters(
            words[k],
            ascii_only,
        )
}

/// How often `c` occurs in `text`.
pub open spec fn occurrences(text: Seq<char>, c: char) -> nat
    decreases text.len(),
{
    if text.len() == 0 {
        0
    } else {
        occurrences(text.drop_last(), c) + if text.last() == c {
            1nat
        } else {
            0nat
        }
    }
}

/// The number of words of `input` that survive the per-word steps; none for
/// a blank input.
pub open spec fn surviving_count(input: Seq<char>, options: SlugOptions) -> nat {
    if blank(input) {
        0
    } else {
        surviving_words(segmented(input), options).len()
    }
}

/// The number of separators between `count` words.
pub open spec fn gaps(count: nat) -> nat {
    if count >= 1 {
        (count - 1) as nat
    } else {
        0
    }
}

/// A kept character is a slug letter.
pub proof fn lemma_kept_char_is_letter(c: char, ascii_only: bool)
    ensures
        kept_char(c, ascii_only) matches Some(k) ==> slug_letter(k, ascii_only),
{
    lemma_transliteration_is_ascii(c);
}

/// What is left of a word after filtering is made of slug letters.
pub proof fn lemma_filtered_letters(word: Seq<char>, ascii_only: bool)
    ensures
        only_letters(filtered(word, ascii_only), ascii_only),
    decreases word.len(),
{
    if word.len() > 0 {
        lemma_filtered_letters(word.drop_last(), ascii_only);
        lemma_kept_char_is_letter(word.last(), ascii_only);
    }
}

/// Every surviving word is non-empty and made of slug letters.
pub proof fn lemma_surviving_words_of_letters(words: Seq<Seq<char>>, options: SlugOptions)
    ensures
        words_of_letters(surviving_words(words, options), options.ascii_only),
        surviving_words(words, options).len() <= words.len(),
    decreases words.len(),
{
    if words.len() > 0 {
        lemma_surviving_words_of_letters(words.drop_last(), options);
        lemma_filtered_letters(trimmed(words.last()), options.ascii_only);
    }
}

/// Occurrences add up over concatenation.
pub proof fn lemma_occurrences_add(a: Seq<char>, b: Seq<char>, c: char)
    ensures
        occurrences(a + b, c) == occurrences(a, c) + occurrences(b, c),
    decreases b.len(),
{
    if b.len() > 0 {
        lemma_occurrences_add(a, b.drop_last(), c);
        assert((a + b).drop_last() =~= a + b.drop_last());
    } else {
        assert(a + b =~= a);
    }
}

/// A character that is no slug letter does not occur in a word of letters.
pub proof fn lemma_no_occurrence_in_letters(word: Seq<char>, c: char, ascii_only: bool)
    requires
        only_letters(word, ascii_only),
        !slug_letter(c, ascii_only),
    ensures
        occurrences(word, c) == 0,
    decreases word.len(),
{
    if word.len() > 0 {
        lemma_no_occurrence_in_letters(word.drop_last(), c, ascii_only);
    }
}

/// Joining words of letters gives a text of separators and letters that ends
/// with a letter, and, where the separator is no slug letter, holds one
/// separator for each gap between words.
pub proof fn lemma_joined_shape(words: Seq<Seq<char>>, separator: char, ascii_only: bool)
    requires
        words_of_letters(words, ascii_only),
    ensures
        forall|i: int|
            0 <= i < joined(words, separator).len() ==> {
                let c = #[trigger] joined(words, separator)[i];
                c == separator || slug_letter(c, ascii_only)
            },
        words.len() > 0 ==> joined(words, separator).len() > 0 && slug_letter(
            joined(words, separator).last(),
            ascii_only,
        ),
        words.len() == 0 ==> joined(words, separator).len() == 0,
        !slug_letter(separator, ascii_only) ==> occurrences(joined(words, separator), separator)
            == gaps(words.len()),
    decreases words.len(),
{
    if words.len() == 1 {
        let word = words[0];
        assert(slug_letter(word.last(), ascii_only));
        if !slug_letter(separator, ascii_only) {
            lemma_no_occurrence_in_letters(word, separator, ascii_only);
        }
    } else if words.len() > 1 {
        let before = words.drop_last();
        let word = words.last();
        assert forall|k: int| 0 <= k < before.len() implies (#[trigger] before[k]).len() > 0
            && only_letters(before[k], ascii_only) by {
            assert(before[k] == words[k]);
        }
        lemma_joined_shape(before, separator, ascii_only);
        assert(slug_letter(word.last(), ascii_only));
        if !slug_letter(separator, ascii_only) {
            // One separator more than before, and none inside the last word.
            let head = joined(before, separator).push(separator);
            assert(head.drop_last() =~= joined(before, separator));
            lemma_no_occurrence_in_letters(word, separator, ascii_only);
            lemma_occurrences_add(head, word, separator);
        }
    }
}

/// Before casing and truncation, every character of the joined text is the
/// separator or a slug letter, the text ends with a slug letter unless no
/// word survived, and, where the separator is no slug letter, there is one
/// separator for each gap between surviving words.
pub proof fn lemma_joined_slug_shape(words: Seq<Seq<char>>, options: SlugOptions)
    ensures
        only_slug_chars(joined_slug(words, options), options),
        surviving_words(words, options).len() > 0 ==> joined_slug(words, options).len() > 0
            && slug_letter(joined_slug(words, options).last(), options.ascii_only),
        surviving_words(words, options).len() == 0 ==> joined_slug(words, options).len() == 0,
        !slug_letter(options.separator, options.ascii_only) ==> occurrences(
            joined_slug(words, options),
            options.separator,
        ) == gaps(surviving_words(words, options).len()),
{
    lemma_surviving_words_of_letters(words, options);
    lemma_joined_shape(surviving_words(words, options), options.separator, options.ascii_only);
}

/// Every character of a slug is the separator or a slug letter: an ASCII
/// letter or digit when only ASCII is allowed, an alphabetic or alphanumeric
/// character otherwise.
///
/// Without lower-casing this holds of every input. With lower-casing it holds
/// of every input whose lower-cased joined text is made of such characters.
pub proof fn lemma_slug_chars(input: Seq<char>, options: SlugOptions)
    requires
        options.lowercase ==> only_slug_chars(
            lowercase_form(joined_slug(segmented(input), options)),
            options,
        ),
    ensures
        only_slug_chars(slug_of(input, options), options),
{
    if !blank(input) {
        let whole = cased(joined_slug(segmented(input), options), options.lowercase);
        lemma_joined_slug_shape(segmented(input), options);
        lemma_shortened_is_prefix(whole, options.separator, options.max_length);
        let slug = slug_of(input, options);
        assert forall|i: int| 0 <= i < slug.len() implies slug_char(#[trigger] slug[i], options) by {
            assert(slug[i] == whole[i]);
        }
    }
}

/// The number of separators in a slug is the number of gaps between the
/// surviving words: one less than their count, and none when no word
/// survived.
///
/// This holds when the separator cannot stand inside a word, when
/// lower-casing, where it is asked for, leaves the number of separators as it
/// was, and when the bound, if there is one, cuts nothing off.
pub proof fn lemma_separator_count(input: Seq<char>, options: SlugOptions)
    requires
        !slug_letter(options.separator, options.ascii_only),
        options.lowercase ==> occurrences(
            lowercase_form(joined_slug(segmented(input), options)),
            options.separator,
        ) == occurrences(joined_slug(segmented(input), options), options.separator),
        options.max_length matches Some(n) ==> cased(
            joined_slug(segmented(input), options),
            options.lowercase,
        ).len() <= n,
    ensures
        occurrences(slug_of(input, options), options.separator) == gaps(
            surviving_count(input, options),
        ),
{
    if !blank(input) {
        lemma_joined_slug_shape(segmented(input), options);
    }
}

/// A slug under a bound has at most that many characters and does not end
/// with the separator.
///
/// The length bound holds of every input. A slug that was cut never ends with
/// the separator; one that fits the bound as it is ends the way the cased
/// text ends, so the statement leaves out the inputs whose cased text fits
/// and ends with the separator.
pub proof fn lemma_bounded_slug(input: Seq<char>, options: SlugOptions, bound: usize)
    requires
        options.max_length == Some(bound),
        cased(joined_slug(segmented(input), options), options.lowercase).len() <= bound
            ==> !ends_with(
            cased(joined_slug(segmented(input), options), options.lowercase),
            options.separator,
        ),
    ensures
        slug_of(input, options).len() <= bound,
        !ends_with(slug_of(input, options), options.separator),
{
    if !blank(input) {
        let whole = cased(joined_slug(segmented(input), options), options.lowercase);
        lemma_shortened_is_prefix(whole, options.separator, options.max_length);
    }
}

/// Without lower-casing, a slug whose separator cannot stand inside a word
/// never ends with the separator, with or without a bound.
pub proof fn lemma_uncased_slug_end(input: Seq<char>, options: SlugOptions)
    requires
        !options.lowercase,
        !slug_letter(options.separator, options.ascii_only),
    ensures
        !ends_with(slug_of(input, options), options.separator),
{
    if !blank(input) {
        let whole = joined_slug(segmented(input), options);
        lemma_joined_slug_shape(segmented(input), options);
        lemma_shortened_is_prefix(whole, options.separator, options.max_length);
    }
}

/// Whether the pipeline leaves `text` as it is at every step: the text is
/// not blank and is its own canonical composition, each of its segments is
/// what that segment contributes to the slug, the segments joined with the
/// separator give the text back, casing does not change it, and it fits the
/// bound.
pub open spec fn settled(text: Seq<char>, options: SlugOptions) -> bool {
    &&& !blank(text)
    &&& nfc_form(text) == text
    &&& forall|k: int|
        0 <= k < word_segments(text).len() ==> word_slug(
            #[trigger] word_segments(text)[k],
            options,
        ) == Some(word_segments(text)[k])
    &&& joined(word_segments(text), options.separator) == text
    &&& cased(text, options.lowercase) == text
    &&& (options.max_length matches Some(n) ==> text.len() <= n)
}

/// Words that the per-word steps leave as they are all survive.
pub proof fn lemma_unchanged_words_survive(words: Seq<Seq<char>>, options: SlugOptions)
    requires
        forall|k: int|
            0 <= k < words.len() ==> word_slug(#[trigger] words[k], options) == Some(words[k]),
    ensures
        surviving_words(words, options) == words,
    decreases words.len(),
{
    if words.len() > 0 {
        let before = words.drop_last();
        assert forall|k: int| 0 <= k < before.len() implies word_slug(
            #[trigger] before[k],
            options,
        ) == Some(before[k]) by {
            assert(before[k] == words[k]);
        }
        lemma_unchanged_words_survive(before, options);
        assert(word_slug(words[words.len() - 1], options) == Some(words.last()));
        assert(before.push(words.last()) =~= words);
    }
}

/// A settled text is its own slug.
pub proof fn lemma_settled_text_is_own_slug(text: Seq<char>, options: SlugOptions)
    requires
        settled(text, options),
    ensures
        slug_of(text, options) == text,
{
    lemma_unchanged_words_survive(word_segments(text), options);
}

/// Slugifying a slug gives the same slug again, for every input whose slug
/// is empty or settled.
pub proof fn lemma_slug_of_slug(input: Seq<char>, options: SlugOptions)
    requires
        slug_of(input, options).len() == 0 || settled(slug_of(input, options), options),
    ensures
        slug_of(slug_of(input, options), options) == slug_of(input, options),
{
    let slug = slug_of(input, options);
    if slug.len() > 0 {
        lemma_settled_text_is_own_slug(slug, options);
    } else {
        // The empty text is blank, and a blank text has the empty slug.
        assert(slug =~= Seq::<char>::empty());
    }
}

} // verus!
