//! The per-word steps of the pipeline: trimming, stop-word removal and
//! character filtering, and the joining of the words that survive.

use crate::chars::{
    alphabetic, alphanumeric, ascii_alphanumeric, is_ascii_alphanumeric, lowercase_form,
};
use crate::options::SlugOptions;
use crate::stopwords::{is_stopword, stopwords};
use crate::text::{texts, trim, trimmed};
use crate::translit::{transliterate_char, transliteration};
use vstd::prelude::*;
use vstd::string::StringExecFns;

verus! {

/// What becomes of a character of a word, given its classes: the character
/// itself, the ASCII letter that stands for it, or nothing.
///
/// With `ascii_only`, ASCII letters and digits stay, any other alphabetic
/// character is replaced by its transliteration or dropped when it has none,
/// and everything else is dropped. Without it, alphabetic and alphanumeric
/// characters of any script stay and everything else is dropped.
pub open spec fn chosen_char(
    c: char,
    is_alphabetic: bool,
    is_alphanumeric: bool,
    ascii_only: bool,
) -> Option<char> {
    if ascii_only {
        if ascii_alphanumeric(c) {
            Some(c)
        } else if is_alphabetic {
            transliteration(c)
        } else {
            None
        }
    } else if is_alphanumeric || is_alphabetic {
        Some(c)
    } else {
        None
    }
}

/// What becomes of a character of a word.
pub open spec fn kept_char(c: char, ascii_only: bool) -> Option<char> {
    chosen_char(c, alphabetic(c), alphanumeric(c), ascii_only)
}

/// The characters of `word` that are kept, in order.
pub open spec fn filtered(word: Seq<char>, ascii_only: bool) -> Seq<char>
    decreases word.len(),
{
    if word.len() == 0 {
        Seq::empty()
    } else {
        let before = filtered(word.drop_last(), ascii_only);
        match kept_char(word.last(), ascii_only) {
            Some(c) => before.push(c),
            None => before,
        }
    }
}

/// What a segmented word contributes to the slug, or `None` when the word is
/// dropped: because nothing is left after trimming, because it is a stop word
/// and those are removed, or because none of its characters is kept.
pub open spec fn word_slug(word: Seq<char>, options: SlugOptions) -> Option<Seq<char>> {
    let inner = trimmed(word);
    if inner.len() == 0 {
        None
    } else if options.remove_stopwords && stopwords().contains(lowercase_form(inner)) {
        None
    } else {
        let kept = filtered(inner, options.ascii_only);
        if kept.len() == 0 {
            None
        } else {
            Some(kept)
        }
    }
}

/// The contributions of the words that are not dropped, in their original
/// order.
pub open spec fn surviving_words(words: Seq<Seq<char>>, options: SlugOptions) -> Seq<Seq<char>>
    decreases words.len(),
{
    if words.len() == 0 {
        Seq::empty()
    } else {
        let before = surviving_words(words.drop_last(), options);
        match word_slug(words.last(), options) {
            Some(kept) => before.push(kept),
            None => before,
        }
    }
}

/// The words in order with one separator between each two neighbours: none
/// before the first word, none after the last.
pub open spec fn joined(words: Seq<Seq<char>>, separator: char) -> Seq<char>
    decreases words.len(),
{
    if words.len() == 0 {
        Seq::empty()
    } else if words.len() == 1 {
        words[0]
    } else {
        joined(words.drop_last(), separator).push(separator) + words.last()
    }
}

/// Decides what becomes of `c`, given whether it is alphabetic and whether it
/// is alphanumeric.
pub fn select_char(
    c: char,
    is_alphabetic: bool,
    is_alphanumeric: bool,
    ascii_only: bool,
) -> (kept: Option<char>)
    ensures
        kept == chosen_char(c, is_alphabetic, is_alphanumeric, ascii_only),
{
    if ascii_only {
        if is_ascii_alphanumeric(c) {
            Some(c)
        } else if is_alphabetic {
            transliterate_char(c)
        } else {
            None
        }
    } else if is_alphanumeric || is_alphabetic {
        Some(c)
    } else {
        None
    }
}

/// Classifies `c` and decides what becomes of it.
pub fn keep_char(c: char, ascii_only: bool) -> (kept: Option<char>)
    ensures
        kept == kept_char(c, ascii_only),
{
    select_char(c, c.is_alphabetic(), c.is_alphanumeric(), ascii_only)
}

/// Copies the characters of `word` that are kept, transliterated where the
/// options ask for it.
pub fn filter_word(word: &str, ascii_only: bool) -> (kept: String)
    ensures
        kept@ == filtered(word@, ascii_only),
{
    let mut kept = String::new();
    for c in it: word.chars()
        invariant
            it.seq() == word@,
            kept@ == filtered(word@.take(it.index()), ascii_only),
    {
        assert(word@.take(it.index() + 1).drop_last() =~= word@.take(it.index()));
        match keep_char(c, ascii_only) {
            Some(k) => kept.push(k),
            None => {},
        }
    }
    assert(word@.take(word@.len() as int) =~= word@);
    kept
}

/// Runs the per-word steps on one segmented word.
pub fn process_word(word: &str, options: &SlugOptions) -> (kept: Option<String>)
    ensures
        match kept {
            Some(k) => word_slug(word@, *options) == Some(k@),
            None => word_slug(word@, *options) is None,
        },
{
    let inner = trim(word);
    if inner.is_empty() {
        return None;
    }
    if options.remove_stopwords {
        let lowered = inner.to_lowercase();
        if is_stopword(lowered.as_str()) {
            return None;
        }
    }
    let kept = filter_word(inner, options.ascii_only);
    if kept.as_str().is_empty() {
        None
    } else {
        Some(kept)
    }
}

/// Runs the per-word steps on every word and collects what survives.
pub fn filter_words(words: &Vec<String>, options: &SlugOptions) -> (kept: Vec<String>)
    ensures
        texts(kept@) == surviving_words(texts(words@), *options),
{
    let mut kept: Vec<String> = Vec::new();
    for i in 0..words.len()
        invariant
            texts(kept@) == surviving_words(texts(words@).take(i as int), *options),
    {
        assert(texts(words@).take(i + 1).drop_last() =~= texts(words@).take(i as int));
        let ghost before = kept@;
        match process_word(words[i].as_str(), options) {
            Some(k) => {
                kept.push(k);
                assert(texts(kept@) =~= texts(before).push(k@));
            },
            None => {},
        }
    }
    assert(texts(words@).take(words@.len() as int) =~= texts(words@));
    kept
}

/// Concatenates the words with `separator` between neighbours.
pub fn join_words(words: &Vec<String>, separator: char) -> (text: String)
    ensures
        text@ == joined(texts(words@), separator),
{
    let mut text = String::new();
    for i in 0..words.len()
        invariant
            text@ == joined(texts(words@).take(i as int), separator),
    {
        assert(texts(words@).take(i + 1).drop_last() =~= texts(words@).take(i as int));
        if i > 0 {
            text.push(separator);
        }
        text.append(words[i].as_str());
    }
    assert(texts(words@).take(words@.len() as int) =~= texts(words@));
    text
}

} // verus!
