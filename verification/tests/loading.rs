use articles::article::default_config;
use articles::errors::ArticleError;
use articles::loader::{from_documents, is_source_name, SourceDoc};

fn doc(name: &str, content: &str) -> SourceDoc {
    SourceDoc { name: String::from(name), content: String::from(content) }
}

const GOOD: &str = "---\ntitle: Good\ndate: 2024-03-01\n---\nfine";
const BAD: &str = "no delimiters here";

#[test]
fn loads_every_eligible_document_in_order() {
    let cfg = default_config().expect("the timezone table knows US/Pacific");
    let docs = vec![
        doc("a.md", GOOD),
        doc("notes.txt", BAD),
        doc("b.md", "---\ntitle: Second\ndate: 2024-03-02\n---\nalso fine"),
    ];
    let arts = from_documents(&docs, &cfg).expect("both .md files decode");
    assert_eq!(arts.len(), 2);
    assert_eq!(arts[0].title, "Good");
    assert_eq!(arts[1].title, "Second");
}

#[test]
fn one_bad_document_aborts_the_whole_load() {
    let cfg = default_config().expect("the timezone table knows US/Pacific");
    let docs = vec![doc("a.md", GOOD), doc("b.md", BAD)];
    let r = from_documents(&docs, &cfg);
    assert!(matches!(r, Err(ArticleError::MalformedDocument)));
}

#[test]
fn the_first_failure_is_reported() {
    let cfg = default_config().expect("the timezone table knows US/Pacific");
    let docs = vec![
        doc("a.md", "---\ntitle: T\ndate: nonsense-date\n---\nx"),
        doc("b.md", BAD),
    ];
    let r = from_documents(&docs, &cfg);
    assert!(matches!(r, Err(ArticleError::InvalidDateFormat)));
}

#[test]
fn ineligible_files_are_ignored() {
    let cfg = default_config().expect("the timezone table knows US/Pacific");
    let docs = vec![doc("readme.txt", BAD), doc("image.png", BAD)];
    let arts = from_documents(&docs, &cfg).expect("nothing eligible, nothing fails");
    assert_eq!(arts.len(), 0);
}

#[test]
fn source_names_end_in_md() {
    assert!(is_source_name("post.md"));
    assert!(is_source_name("a.md"));
    assert!(!is_source_name("post.txt"));
    assert!(!is_source_name("md"));
    assert!(!is_source_name(""));
}
