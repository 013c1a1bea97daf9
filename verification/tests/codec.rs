use articles::article::{default_config, Article};
use articles::errors::ArticleError;

fn config() -> articles::article::ArticleConfig {
    default_config().expect("the timezone table knows US/Pacific")
}

#[test]
fn decode_full_document() {
    let raw = "---\ntitle: Hello\nauthor: crow\ndate: 2024-03-01\n---\nSome body text.";
    let a = Article::decode(raw, &config()).expect("well-formed document");
    assert_eq!(a.title, "Hello");
    assert_eq!(a.author, "crow");
    assert_eq!(a.date.year, 2024);
    assert_eq!(a.date.month, 3);
    assert_eq!(a.date.day, 1);
    assert_eq!(a.content, "Some body text.");
}

#[test]
fn decode_trims_metadata_and_body() {
    let raw = "---\n\n  title:   Spaced Out  \ndate: 2024-03-01\n---\n\n  body  \n";
    let a = Article::decode(raw, &config()).expect("well-formed document");
    assert_eq!(a.title, "Spaced Out");
    assert_eq!(a.content, "body");
}

#[test]
fn decode_keeps_later_delimiters_in_body() {
    let raw = "---\ntitle: T\ndate: 2024-03-01\n---\nabove\n---\nbelow";
    let a = Article::decode(raw, &config()).expect("well-formed document");
    assert_eq!(a.content, "above\n---\nbelow");
}

#[test]
fn decode_discards_text_before_the_first_delimiter() {
    let raw = "stray preamble---\ntitle: T\ndate: 2024-03-01\n---\nbody";
    let a = Article::decode(raw, &config()).expect("well-formed document");
    assert_eq!(a.title, "T");
    assert_eq!(a.content, "body");
}

#[test]
fn decode_fails_without_delimiters() {
    let r = Article::decode("title: Hello\ndate: 2024-03-01", &config());
    assert!(matches!(r, Err(ArticleError::MalformedDocument)));
}

#[test]
fn decode_fails_with_one_delimiter() {
    let r = Article::decode("---\ntitle: Hello\ndate: 2024-03-01\n", &config());
    assert!(matches!(r, Err(ArticleError::MalformedDocument)));
}

#[test]
fn decode_fails_on_empty_title_value() {
    let r = Article::decode("---\ntitle:\ndate: 2024-03-01\n---\nbody", &config());
    match r {
        Err(ArticleError::MissingField(f)) => assert_eq!(f, "title"),
        other => panic!("expected MissingField(title), got {:?}", other),
    }
}

#[test]
fn decode_fails_without_title() {
    let r = Article::decode("---\ndate: 2024-03-01\n---\nbody", &config());
    match r {
        Err(ArticleError::MissingField(f)) => assert_eq!(f, "title"),
        other => panic!("expected MissingField(title), got {:?}", other),
    }
}

#[test]
fn decode_fails_without_date() {
    let r = Article::decode("---\ntitle: Hello\n---\nbody", &config());
    match r {
        Err(ArticleError::MissingField(f)) => assert_eq!(f, "date"),
        other => panic!("expected MissingField(date), got {:?}", other),
    }
}

#[test]
fn decode_defaults_the_author() {
    let raw = "---\ntitle: Hello\ndate: 2024-03-01\n---\nbody";
    let a = Article::decode(raw, &config()).expect("well-formed document");
    assert_eq!(a.author, "sneakycrow");
}

#[test]
fn decode_fails_on_metadata_without_colon() {
    let r = Article::decode("---\ntitle Hello\ndate: 2024-03-01\n---\nbody", &config());
    assert!(matches!(r, Err(ArticleError::MetadataParse(_))));
}

#[test]
fn decode_fails_on_bad_date_shape() {
    let r = Article::decode("---\ntitle: T\ndate: 2024-3-1\n---\nbody", &config());
    assert!(matches!(r, Err(ArticleError::InvalidDateFormat)));
}

#[test]
fn decode_fails_on_impossible_date() {
    let r = Article::decode("---\ntitle: T\ndate: 2024-02-30\n---\nbody", &config());
    assert!(matches!(r, Err(ArticleError::InvalidDateFormat)));
}

#[test]
fn encode_writes_the_fixed_format() {
    let cfg = config();
    let raw = "---\ntitle: Hello\nauthor: crow\ndate: 2024-03-01\n---\nbody";
    let a = Article::decode(raw, &cfg).expect("well-formed document");
    assert_eq!(a.encode(), "---\ntitle: Hello\nauthor: crow\ndate: 2024-03-01\n---\nbody");
}

#[test]
fn encode_trims_the_body() {
    let cfg = config();
    let a = Article::builder()
        .title(String::from("T"))
        .content(String::from("  padded body \n"))
        .build(&cfg);
    let text = a.encode();
    assert!(text.ends_with("---\npadded body"));
}

#[test]
fn decode_trims_unicode_whitespace() {
    let raw = "---\ntitle: T\ndate: 2024-03-01\n---\n\u{a0}body\u{a0}";
    let a = Article::decode(raw, &config()).expect("well-formed document");
    assert_eq!(a.content, "body");
}

#[test]
fn round_trip_preserves_all_fields() {
    let cfg = config();
    let raw = "---\ntitle: A Day: Notes, etc.\nauthor: crow\ndate: 2024-02-29\n---\nline one\n\nline two";
    let a = Article::decode(raw, &cfg).expect("well-formed document");
    let b = Article::decode(a.encode().as_str(), &cfg).expect("encoded document decodes");
    assert_eq!(a.title, b.title);
    assert_eq!(a.author, b.author);
    assert_eq!(a.date, b.date);
    assert_eq!(a.content, b.content);
}

#[test]
fn builder_fills_defaults() {
    let cfg = config();
    let a = Article::builder().build(&cfg);
    assert_eq!(a.title, "title-me");
    assert_eq!(a.author, "sneakycrow");
    assert_eq!(a.content, "");
    assert!(a.date.month >= 1 && a.date.month <= 12);
}

#[test]
fn builder_keeps_given_fields() {
    let cfg = config();
    let a = Article::builder()
        .maybe_title(Some(String::from("Kept")))
        .content(String::from("words"))
        .build(&cfg);
    assert_eq!(a.title, "Kept");
    assert_eq!(a.content, "words");
}

#[test]
fn builder_maybe_none_falls_back() {
    let cfg = config();
    let a = Article::builder().maybe_title(None).maybe_content(None).build(&cfg);
    assert_eq!(a.title, "title-me");
    assert_eq!(a.content, "");
}
