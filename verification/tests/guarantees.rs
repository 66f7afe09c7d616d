use slugify::{slugify, SlugOptions};

const SAMPLES: [&str; 8] = [
    "Hello World",
    "Hello, World! @#$%",
    "This is a very long title",
    "Café münü",
    "  leading and trailing  ",
    "Rust 2021: what's new?",
    "日本語 のテキスト",
    "one_two-three.four",
];

#[test]
fn slugifying_a_slug_changes_nothing() {
    let options = SlugOptions::default();
    for sample in SAMPLES {
        let once = slugify(sample, &options);
        assert_eq!(slugify(&once, &options), once);
    }
    assert_eq!(slugify("hello-world", &options), "hello-world");
}

#[test]
fn slug_holds_only_separator_and_letters() {
    let options = SlugOptions::default();
    for sample in SAMPLES {
        let slug = slugify(sample, &options);
        assert!(slug.chars().all(|c| c == '-' || c.is_alphanumeric() || c.is_alphabetic()));
    }
    let ascii = SlugOptions { ascii_only: true, ..Default::default() };
    for sample in SAMPLES {
        let slug = slugify(sample, &ascii);
        assert!(slug.chars().all(|c| c == '-' || c.is_ascii_alphanumeric()));
    }
}

#[test]
fn separators_are_one_less_than_surviving_words() {
    let options = SlugOptions::default();
    let count = |text: &str| slugify(text, &options).chars().filter(|c| *c == '-').count();
    assert_eq!(count("one two three four"), 3);
    assert_eq!(count("one, two; three"), 2);
    assert_eq!(count("single"), 0);
    assert_eq!(count("!!! ???"), 0);
    assert_eq!(count(""), 0);

    let no_stopwords = SlugOptions { remove_stopwords: true, ..Default::default() };
    let slug = slugify("the cat and the hat", &no_stopwords);
    assert_eq!(slug, "cat-hat");
    assert_eq!(slug.chars().filter(|c| *c == '-').count(), 1);
}

#[test]
fn bounded_slug_is_short_and_does_not_end_with_separator() {
    for sample in SAMPLES {
        for bound in 0..40usize {
            let options = SlugOptions { max_length: Some(bound), ..Default::default() };
            let slug = slugify(sample, &options);
            assert!(slug.chars().count() <= bound);
            assert!(!slug.ends_with('-'));
        }
    }
}

#[test]
fn bounded_slug_is_the_start_of_the_unbounded_one() {
    let unbounded = SlugOptions::default();
    for sample in SAMPLES {
        let whole = slugify(sample, &unbounded);
        for bound in 0..40usize {
            let options = SlugOptions { max_length: Some(bound), ..Default::default() };
            let slug = slugify(sample, &options);
            assert!(whole.starts_with(&slug));
        }
    }
}
