use slugify::{slugify, SlugOptions};

fn all_option_sets() -> Vec<SlugOptions> {
    let mut sets = Vec::new();
    for separator in ['-', '_', ' ', 'a'] {
        for max_length in [None, Some(0), Some(3), Some(100)] {
            for flags in 0..8u8 {
                sets.push(SlugOptions {
                    separator,
                    max_length,
                    lowercase: flags & 1 != 0,
                    remove_stopwords: flags & 2 != 0,
                    ascii_only: flags & 4 != 0,
                });
            }
        }
    }
    sets
}

#[test]
fn blank_input_gives_empty_slug_for_any_options() {
    for options in all_option_sets() {
        assert_eq!(slugify("", &options), "");
        assert_eq!(slugify(" ", &options), "");
        assert_eq!(slugify(" \t\r\n ", &options), "");
        assert_eq!(slugify("\u{a0}\u{2003}\u{3000}", &options), "");
    }
}

#[test]
fn decomposed_input_is_composed_before_filtering() {
    let options = SlugOptions::default();
    assert_eq!(slugify("Cafe\u{301}", &options), "caf\u{e9}");
    assert_eq!(slugify("Cafe\u{301}", &options), slugify("Caf\u{e9}", &options));

    let ascii = SlugOptions { ascii_only: true, ..Default::default() };
    assert_eq!(slugify("Cafe\u{301}", &ascii), "cafe");
}

#[test]
fn letters_of_other_scripts_are_kept_by_default() {
    let options = SlugOptions::default();
    assert_eq!(slugify("Привет мир", &options), "привет-мир");
}

#[test]
fn ascii_only_drops_letters_that_have_no_transliteration() {
    let ascii = SlugOptions { ascii_only: true, ..Default::default() };
    assert_eq!(slugify("Привет мир", &ascii), "");
    assert_eq!(slugify("æther Øre þing", &ascii), "ther-re-ing");
    assert_eq!(slugify("Straße", &ascii), "strase");
}

#[test]
fn word_that_loses_every_character_adds_no_separator() {
    let ascii = SlugOptions { ascii_only: true, ..Default::default() };
    assert_eq!(slugify("abc кот def", &ascii), "abc-def");
    assert_eq!(slugify("кот abc", &ascii), "abc");
    assert_eq!(slugify("abc кот", &ascii), "abc");
}

#[test]
fn punctuation_inside_a_word_is_dropped() {
    let options = SlugOptions::default();
    assert_eq!(slugify("can't stop 32.3", &options), "cant-stop-323");
}

#[test]
fn case_is_kept_when_lowercase_is_off() {
    let options = SlugOptions { lowercase: false, ..Default::default() };
    assert_eq!(slugify("Hello World", &options), "Hello-World");
}

#[test]
fn stopwords_match_in_any_case() {
    let options = SlugOptions { remove_stopwords: true, ..Default::default() };
    assert_eq!(slugify("THE Quick AND the Dead", &options), "quick-dead");

    let keep_case = SlugOptions { remove_stopwords: true, lowercase: false, ..Default::default() };
    assert_eq!(slugify("THE Quick AND the Dead", &keep_case), "Quick-Dead");
}

#[test]
fn text_of_stopwords_only_gives_empty_slug() {
    let options = SlugOptions { remove_stopwords: true, ..Default::default() };
    assert_eq!(slugify("the and of", &options), "");
}

#[test]
fn stopwords_stay_unless_removal_is_asked_for() {
    let options = SlugOptions::default();
    assert_eq!(slugify("The quick brown fox", &options), "the-quick-brown-fox");
}

#[test]
fn bound_counts_characters_not_bytes() {
    let four = SlugOptions { max_length: Some(4), ..Default::default() };
    assert_eq!(slugify("Café münü", &four), "café");

    let six = SlugOptions { max_length: Some(6), ..Default::default() };
    assert_eq!(slugify("Café münü", &six), "café-m");
}

#[test]
fn cut_right_after_a_separator_removes_it() {
    let five = SlugOptions { max_length: Some(5), ..Default::default() };
    assert_eq!(slugify("Café münü", &five), "café");
}

#[test]
fn bound_that_the_slug_meets_cuts_nothing() {
    let exact = SlugOptions { max_length: Some(11), ..Default::default() };
    assert_eq!(slugify("Hello World", &exact), "hello-world");

    let roomy = SlugOptions { max_length: Some(500), ..Default::default() };
    assert_eq!(slugify("Hello World", &roomy), "hello-world");
}

#[test]
fn bound_of_zero_gives_empty_slug() {
    let zero = SlugOptions { max_length: Some(0), ..Default::default() };
    assert_eq!(slugify("Hello World", &zero), "");
}

#[test]
fn separator_that_is_a_letter_is_only_stripped_after_a_cut() {
    let fits = SlugOptions { separator: 'a', max_length: Some(100), ..Default::default() };
    assert_eq!(slugify("banana split", &fits), "bananaasplit");
    assert_eq!(slugify("banana", &fits), "banana");

    let cut = SlugOptions { separator: 'a', max_length: Some(4), ..Default::default() };
    assert_eq!(slugify("banana", &cut), "ban");
}

#[test]
fn slug_that_meets_the_bound_exactly_keeps_its_last_character() {
    let options = SlugOptions { separator: 'é', max_length: Some(4), ..Default::default() };
    assert_eq!(slugify("café", &options), "café");
}

#[test]
fn lowercasing_can_leave_a_combining_mark() {
    let options = SlugOptions::default();
    let once = slugify("\u{130}", &options);
    assert_eq!(once, "i\u{307}");
    assert_eq!(slugify(&once, &options), "i");
}
