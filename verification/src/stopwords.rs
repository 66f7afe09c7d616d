//! The fixed list of common English words that can be left out of a slug.

use crate::text::same_text;
use vstd::prelude::*;

verus! {

/// The stop words. Membership is all that matters; every entry is in lower
/// case.
pub open spec fn stopwords() -> Set<Seq<char>> {
    set![
        "a"@, "an"@, "and"@, "are"@, "as"@, "at"@, "be"@, "by"@, "for"@, "from"@,
        "has"@, "he"@, "in"@, "is"@, "it"@, "its"@, "of"@, "on"@, "that"@, "the"@,
        "to"@, "was"@, "will"@, "with"@, "this"@, "but"@, "they"@, "have"@,
    ]
}

/// Tells whether `word` is one of the stop words, compared character by
/// character. A caller that wants a case-insensitive match lower-cases the
/// word first.
pub fn is_stopword(word: &str) -> (found: bool)
    ensures
        found == stopwords().contains(word@),
{
    same_text(word, "a")
        || same_text(word, "an")
        || same_text(word, "and")
        || same_text(word, "are")
        || same_text(word, "as")
        || same_text(word, "at")
        || same_text(word, "be")
        || same_text(word, "by")
        || same_text(word, "for")
        || same_text(word, "from")
        || same_text(word, "has")
        || same_text(word, "he")
        || same_text(word, "in")
        || same_text(word, "is")
        || same_text(word, "it")
        || same_text(word, "its")
        || same_text(word, "of")
        || same_text(word, "on")
        || same_text(word, "that")
        || same_text(word, "the")
        || same_text(word, "to")
        || same_text(word, "was")
        || same_text(word, "will")
        || same_text(word, "with")
        || same_text(word, "this")
        || same_text(word, "but")
        || same_text(word, "they")
        || same_text(word, "have")
}

} // verus!
