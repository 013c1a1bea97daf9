use articles::article::{default_config, Article};
use articles::slug::slugify;

#[test]
fn hello_world_slug() {
    assert_eq!(slugify("Hello, World"), "hello-world");
}

#[test]
fn slug_lowercases() {
    assert_eq!(slugify("ABC"), "abc");
}

#[test]
fn slug_keeps_other_punctuation() {
    assert_eq!(slugify("A.B's C"), "a.b's-c");
}

#[test]
fn slug_of_empty_title_is_empty() {
    assert_eq!(slugify(""), "");
}

#[test]
fn slug_handles_non_ascii() {
    assert_eq!(slugify("Über Maß"), "über maß".replace(' ', "-"));
}

#[test]
fn serialize_title_matches_slugify() {
    let cfg = default_config().expect("the timezone table knows US/Pacific");
    let a = Article::builder().title(String::from("Hello, World")).build(&cfg);
    assert_eq!(a.serialize_title(), "hello-world");
}

#[test]
fn filename_is_date_then_slug() {
    let cfg = default_config().expect("the timezone table knows US/Pacific");
    let raw = "---\ntitle: Hello, World\ndate: 2024-03-01\n---\nx";
    let a = Article::decode(raw, &cfg).expect("well-formed document");
    assert_eq!(a.filename(), "2024-03-01-hello-world");
}
