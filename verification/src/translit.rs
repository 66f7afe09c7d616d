//! The fixed table that maps accented Latin letters to plain ASCII letters.

use vstd::prelude::*;

verus! {

/// The ASCII letter that stands for an accented Latin letter, if the table
/// has one. The table covers the accented vowels of Latin-1, `ç`, `ñ`, `ý`,
/// `ÿ` and `ß`, in both cases where the letter has two.
pub open spec fn transliteration(c: char) -> Option<char> {
    if ('à' <= c && c <= 'å') || ('À' <= c && c <= 'Å') {
        Some('a')
    } else if c == 'ç' || c == 'Ç' {
        Some('c')
    } else if ('è' <= c && c <= 'ë') || ('È' <= c && c <= 'Ë') {
        Some('e')
    } else if ('ì' <= c && c <= 'ï') || ('Ì' <= c && c <= 'Ï') {
        Some('i')
    } else if c == 'ñ' || c == 'Ñ' {
        Some('n')
    } else if ('ò' <= c && c <= 'ö') || ('Ò' <= c && c <= 'Ö') {
        Some('o')
    } else if ('ù' <= c && c <= 'ü') || ('Ù' <= c && c <= 'Ü') {
        Some('u')
    } else if c == 'ý' || c == 'ÿ' || c == 'Ý' {
        Some('y')
    } else if c == 'ß' {
        Some('s')
    } else {
        None
    }
}

/// Looks `c` up in the transliteration table.
pub fn transliterate_char(c: char) -> (plain: Option<char>)
    ensures
        plain == transliteration(c),
{
    match c {
        'à'..='å' | 'À'..='Å' => Some('a'),
        'ç' | 'Ç' => Some('c'),
        'è'..='ë' | 'È'..='Ë' => Some('e'),
        'ì'..='ï' | 'Ì'..='Ï' => Some('i'),
        'ñ' | 'Ñ' => Some('n'),
        'ò'..='ö' | 'Ò'..='Ö' => Some('o'),
        'ù'..='ü' | 'Ù'..='Ü' => Some('u'),
        'ý' | 'ÿ' | 'Ý' => Some('y'),
        'ß' => Some('s'),
        _ => None,
    }
}

/// Every letter that the table yields is a lower-case ASCII letter.
pub proof fn lemma_transliteration_is_ascii(c: char)
    ensures
        transliteration(c) matches Some(p) ==> 'a' <= p && p <= 'z',
{
}

} // verus!
