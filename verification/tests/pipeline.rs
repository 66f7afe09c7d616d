use slugify::{slugify, SlugOptions};

#[test]
fn test_basic_slugify() {
    let options = SlugOptions::default();
    assert_eq!(slugify("Hello World", &options), "hello-world");
    assert_eq!(slugify("Test 123", &options), "test-123");
}

#[test]
fn test_unicode_handling() {
    let options = SlugOptions::default();
    assert_eq!(slugify("Café münü", &options), "café-münü");

    let ascii_options = SlugOptions { ascii_only: true, ..Default::default() };
    assert_eq!(slugify("Café münü", &ascii_options), "cafe-munu");
}

#[test]
fn test_custom_separator() {
    let options = SlugOptions { separator: '_', ..Default::default() };
    assert_eq!(slugify("Hello World", &options), "hello_world");
}

#[test]
fn test_max_length() {
    let options = SlugOptions { max_length: Some(10), ..Default::default() };
    assert_eq!(slugify("This is a very long title", &options), "this-is-a");
}

#[test]
fn test_stopwords() {
    let options = SlugOptions { remove_stopwords: true, ..Default::default() };
    assert_eq!(slugify("The quick brown fox", &options), "quick-brown-fox");
}

#[test]
fn test_empty_input() {
    let options = SlugOptions::default();
    assert_eq!(slugify("", &options), "");
    assert_eq!(slugify("   ", &options), "");
}

#[test]
fn test_special_characters() {
    let options = SlugOptions::default();
    assert_eq!(slugify("Hello, World! @#$%", &options), "hello-world");
}
