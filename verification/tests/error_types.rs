use articles::errors::{ArticleError, SneakyContextError, WebError};

#[test]
fn messages_carry_the_payload() {
    let e = ArticleError::MissingField(String::from("title"));
    assert_eq!(e.message(), "title");
    let p = ArticleError::MetadataParse(String::from("metadata line without a colon"));
    assert_eq!(p.message(), "metadata line without a colon");
    let io = ArticleError::IO(String::from("disk gone"));
    assert_eq!(io.message(), "disk gone");
}

#[test]
fn unit_errors_have_descriptions() {
    assert!(!ArticleError::MalformedDocument.message().is_empty());
    assert!(!ArticleError::InvalidDateFormat.message().is_empty());
    assert!(!ArticleError::AmbiguousLocalTime.message().is_empty());
    assert!(!ArticleError::OutputAlreadyExists.message().is_empty());
    assert!(!ArticleError::TemplateFailure.message().is_empty());
}

#[test]
fn wrapper_errors_carry_their_cause() {
    let w = WebError::ArticlesLoad(ArticleError::MalformedDocument);
    assert!(matches!(w, WebError::ArticlesLoad(ArticleError::MalformedDocument)));
    let c = SneakyContextError::Toml(String::from("bad key"));
    assert!(matches!(c, SneakyContextError::Toml(_)));
}
