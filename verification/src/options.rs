//! The options that steer the slug pipeline.

use vstd::prelude::*;

verus! {

/// How a slug is built.
///
/// `max_length`, when present, bounds the number of characters (code points)
/// of the finished slug; it does not count bytes.
#[derive(Debug, Clone, Copy)]
pub struct SlugOptions {
    /// The character put between consecutive words.
    pub separator: char,
    /// The largest number of characters the slug may have, if bounded.
    pub max_length: Option<usize>,
    /// Whether the joined text is lower-cased.
    pub lowercase: bool,
    /// Whether common English stop words are left out.
    pub remove_stopwords: bool,
    /// Whether only ASCII letters and digits may appear in a word.
    pub ascii_only: bool,
}

/// The options used when the caller gives none: `-` as separator, no length
/// bound, lower-casing on, stop words kept, all scripts allowed.
pub open spec fn default_options() -> SlugOptions {
    SlugOptions {
        separator: '-',
        max_length: None,
        lowercase: true,
        remove_stopwords: false,
        ascii_only: false,
    }
}

/// The bound that a signed count stands for: a positive count is the bound,
/// anything else means unbounded.
pub open spec fn bound_of(max_length: i32) -> Option<usize> {
    if max_length > 0 {
        Some(max_length as usize)
    } else {
        None
    }
}

impl Default for SlugOptions {
    fn default() -> (options: Self)
        ensures
            options == default_options(),
    {
        SlugOptions {
            separator: '-',
            max_length: None,
            lowercase: true,
            remove_stopwords: false,
            ascii_only: false,
        }
    }
}

impl SlugOptions {
    /// Builds options from primitive values: the separator is the character
    /// whose code is the given byte, and a `max_length` that is not positive
    /// means unbounded.
    pub fn from_raw(
        separator: u8,
        max_length: i32,
        lowercase: bool,
        remove_stopwords: bool,
        ascii_only: bool,
    ) -> (options: Self)
        ensures
            options == (SlugOptions {
                separator: separator as char,
                max_length: bound_of(max_length),
                lowercase,
                remove_stopwords,
                ascii_only,
            }),
    {
        let bound = if max_length > 0 {
            Some(max_length as usize)
        } else {
            None
        };
        SlugOptions {
            separator: separator as char,
            max_length: bound,
            lowercase,
            remove_stopwords,
            ascii_only,
        }
    }
}

} // verus!
