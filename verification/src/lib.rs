//! Turns free text into URL-safe slugs.
//!
//! The pipeline is: Unicode normalisation, word segmentation, per-word
//! filtering, joining, casing and length truncation. Every step has a
//! contract over the text as a sequence of characters.

pub mod chars;
pub mod guarantees;
pub mod options;
pub mod slug;
pub mod stopwords;
pub mod text;
pub mod translit;
pub mod truncate;
pub mod unicode;
pub mod words;

pub use options::SlugOptions;
pub use slug::slugify;
pub use translit::transliterate_char;
