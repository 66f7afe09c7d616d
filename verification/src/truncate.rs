//! Cutting a slug down to a bound on its number of characters.

use vstd::prelude::*;

verus! {

/// `text` without the run of separators at its end.
pub open spec fn strip_trailing(text: Seq<char>, separator: char) -> Seq<char>
    decreases text.len(),
{
    if text.len() > 0 && text.last() == separator {
        strip_trailing(text.drop_last(), separator)
    } else {
        text
    }
}

/// Whether `text` ends with the character `c`.
pub open spec fn ends_with(text: Seq<char>, c: char) -> bool {
    text.len() > 0 && text.last() == c
}

/// `text` held to a bound, if there is one. A text within the bound is left
/// alone. A longer one is cut to exactly `max_length` characters, and the
/// separators that the cut leaves at the end are removed, so the result can
/// be shorter than the bound.
pub open spec fn shortened(
    text: Seq<char>,
    separator: char,
    max_length: Option<usize>,
) -> Seq<char> {
    match max_length {
        Some(n) => if text.len() > n {
            strip_trailing(text.take(n as int), separator)
        } else {
            text
        },
        None => text,
    }
}

/// Stripping drops exactly the trailing run of separators.
pub proof fn lemma_strip_trailing_takes(text: Seq<char>, separator: char, k: int)
    requires
        0 <= k <= text.len(),
        forall|i: int| k <= i < text.len() ==> #[trigger] text[i] == separator,
        k == 0 || text[k - 1] != separator,
    ensures
        strip_trailing(text, separator) == text.take(k),
    decreases text.len() - k,
{
    if k < text.len() {
        lemma_strip_trailing_takes(text.drop_last(), separator, k);
        assert(text.drop_last().take(k) =~= text.take(k));
    } else {
        assert(text.take(k) =~= text);
    }
}

/// What stripping returns is a prefix of the text that does not end with the
/// separator, and everything it removed is a separator.
pub proof fn lemma_strip_trailing_shape(text: Seq<char>, separator: char)
    ensures
        strip_trailing(text, separator).len() <= text.len(),
        strip_trailing(text, separator) == text.take(strip_trailing(text, separator).len() as int),
        strip_trailing(text, separator).len() > 0 ==> strip_trailing(text, separator).last()
            != separator,
        forall|i: int|
            strip_trailing(text, separator).len() <= i < text.len() ==> #[trigger] text[i]
                == separator,
    decreases text.len(),
{
    if text.len() > 0 && text.last() == separator {
        let shorter = text.drop_last();
        lemma_strip_trailing_shape(shorter, separator);
        let n = strip_trailing(shorter, separator).len() as int;
        assert(shorter.take(n) =~= text.take(n));
        assert forall|i: int| n <= i < text.len() implies #[trigger] text[i] == separator by {
            if i < shorter.len() {
                assert(shorter[i] == separator);
            }
        }
    } else {
        assert(text.take(text.len() as int) =~= text);
    }
}

/// Holding a text to a bound only removes characters from its end, leaves at
/// most as many characters as the bound allows, and leaves no separator at
/// the end of a text that had to be cut.
pub proof fn lemma_shortened_is_prefix(text: Seq<char>, separator: char, max_length: Option<usize>)
    ensures
        shortened(text, separator, max_length).len() <= text.len(),
        shortened(text, separator, max_length) == text.take(
            shortened(text, separator, max_length).len() as int,
        ),
        max_length matches Some(n) ==> shortened(text, separator, max_length).len() <= n,
        max_length matches Some(n) && text.len() > n ==> !ends_with(
            shortened(text, separator, max_length),
            separator,
        ),
{
    let short = shortened(text, separator, max_length);
    match max_length {
        Some(n) if text.len() > n => {
            let head = text.take(n as int);
            lemma_strip_trailing_shape(head, separator);
            assert(head.take(short.len() as int) =~= text.take(short.len() as int));
        },
        _ => {
            assert(text.take(text.len() as int) =~= text);
        },
    }
}

/// Holds `text` to `max_length` characters, if a bound is given, and removes
/// the separators that a cut leaves at the end.
pub fn truncate_slug(text: String, separator: char, max_length: Option<usize>) -> (short: String)
    ensures
        short@ == shortened(text@, separator, max_length),
{
    let bound = match max_length {
        Some(n) => n,
        None => {
            return text;
        },
    };
    let len = text.as_str().unicode_len();
    if len <= bound {
        return text;
    }
    let head = text.as_str().substring_char(0, bound);
    let mut end: usize = 0;
    let mut pos: usize = 0;
    for c in it: head.chars()
        invariant
            it.seq() == head@,
            head@.len() == bound,
            pos == it.index(),
            end <= pos,
            forall|i: int| end <= i < pos ==> #[trigger] head@[i] == separator,
            end == 0 || head@[end - 1] != separator,
    {
        if c != separator {
            end = pos + 1;
        }
        pos = pos + 1;
    }
    proof {
        lemma_strip_trailing_takes(head@, separator, end as int);
    }
    head.substring_char(0, end).to_owned()
}

} // verus!
