//! Whitespace handling and comparison of texts.

use crate::chars::whitespace;
use vstd::prelude::*;
use vstd::string::StringSliceAdditionalSpecFns;
use vstd::utf8::encode_utf8_decode_utf8;

verus! {

/// The contents of each string of a list, in order.
pub open spec fn texts(words: Seq<String>) -> Seq<Seq<char>> {
    Seq::new(words.len(), |i: int| words[i]@)
}

/// A text is blank when it holds nothing but whitespace; the empty text is
/// blank.
pub open spec fn blank(text: Seq<char>) -> bool {
    forall|i: int| 0 <= i < text.len() ==> whitespace(#[trigger] text[i])
}

/// Tells whether `text` is empty or made of whitespace only.
pub fn is_blank(text: &str) -> (b: bool)
    ensures
        b == blank(text@),
{
    for c in it: text.chars()
        invariant
            it.seq() == text@,
            forall|i: int| 0 <= i < it.index() ==> whitespace(#[trigger] text@[i]),
    {
        if !c.is_whitespace() {
            return false;
        }
    }
    true
}

/// `text` without its leading whitespace.
pub open spec fn trim_start(text: Seq<char>) -> Seq<char>
    decreases text.len(),
{
    if text.len() > 0 && whitespace(text.first()) {
        trim_start(text.drop_first())
    } else {
        text
    }
}

/// `text` without its trailing whitespace.
pub open spec fn trim_end(text: Seq<char>) -> Seq<char>
    decreases text.len(),
{
    if text.len() > 0 && whitespace(text.last()) {
        trim_end(text.drop_last())
    } else {
        text
    }
}

/// `text` without its leading and trailing whitespace.
pub open spec fn trimmed(text: Seq<char>) -> Seq<char> {
    trim_end(trim_start(text))
}

/// Trimming at the start drops exactly the leading run of whitespace.
pub proof fn lemma_trim_start_skips(text: Seq<char>, k: int)
    requires
        0 <= k <= text.len(),
        forall|i: int| 0 <= i < k ==> whitespace(#[trigger] text[i]),
        k == text.len() || !whitespace(text[k]),
    ensures
        trim_start(text) == text.skip(k),
    decreases k,
{
    if k > 0 {
        lemma_trim_start_skips(text.drop_first(), k - 1);
        assert(text.drop_first().skip(k - 1) =~= text.skip(k));
    } else {
        assert(text.skip(0) =~= text);
    }
}

/// Trimming at the end drops exactly the trailing run of whitespace.
pub proof fn lemma_trim_end_takes(text: Seq<char>, k: int)
    requires
        0 <= k <= text.len(),
        forall|i: int| k <= i < text.len() ==> whitespace(#[trigger] text[i]),
        k == 0 || !whitespace(text[k - 1]),
    ensures
        trim_end(text) == text.take(k),
    decreases text.len() - k,
{
    if k < text.len() {
        lemma_trim_end_takes(text.drop_last(), k);
        assert(text.drop_last().take(k) =~= text.take(k));
    } else {
        assert(text.take(k) =~= text);
    }
}

/// Returns the part of `text` between its leading and trailing whitespace.
pub fn trim(text: &str) -> (inner: &str)
    ensures
        inner@ == trimmed(text@),
{
    let len = text.unicode_len();
    if len == 0 {
        return text;
    }
    let mut start: usize = 0;
    let mut end: usize = 0;
    let mut pos: usize = 0;
    for c in it: text.chars()
        invariant
            it.seq() == text@,
            len == text@.len(),
            pos == it.index(),
            start <= end <= pos,
            forall|i: int| 0 <= i < start ==> whitespace(#[trigger] text@[i]),
            forall|i: int| end <= i < pos ==> whitespace(#[trigger] text@[i]),
            end == 0 ==> start == 0,
            end > 0 ==> start < end && !whitespace(text@[start as int]) && !whitespace(
                text@[end - 1],
            ),
    {
        if !c.is_whitespace() {
            if end == 0 {
                start = pos;
            }
            end = pos + 1;
        }
        pos = pos + 1;
    }
    proof {
        let whole = text@;
        if end == 0 {
            // Nothing but whitespace: trimming at the start leaves nothing.
            lemma_trim_start_skips(whole, whole.len() as int);
            assert(whole.skip(whole.len() as int) =~= whole.subrange(0, 0));
        } else {
            lemma_trim_start_skips(whole, start as int);
            let tail = whole.skip(start as int);
            lemma_trim_end_takes(tail, end - start);
            assert(tail.take(end - start) =~= whole.subrange(start as int, end as int));
        }
    }
    text.substring_char(start, end)
}

/// Tells whether two texts hold the same characters.
pub fn same_text(a: &str, b: &str) -> (same: bool)
    ensures
        same == (a@ == b@),
{
    let x = a.as_bytes();
    let y = b.as_bytes();
    proof {
        encode_utf8_decode_utf8(a@);
        encode_utf8_decode_utf8(b@);
    }
    if x.len() != y.len() {
        return false;
    }
    let mut i: usize = 0;
    while i < x.len()
        invariant
            i <= x.len(),
            x.len() == y.len(),
            x@ == a.spec_bytes(),
            y@ == b.spec_bytes(),
            forall|j: int| 0 <= j < i ==> x@[j] == y@[j],
        decreases x.len() - i,
    {
        if x[i] != y[i] {
            return false;
        }
        i = i + 1;
    }
    assert(x@ =~= y@);
    true
}

} // verus!
