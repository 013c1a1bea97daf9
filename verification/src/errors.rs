//! Typed errors surfaced by the document codec, the date normalizer, the
//! directory loader and the site builder.

use vstd::prelude::*;

verus! {

/// Everything that can go wrong while decoding, validating, rendering or
/// saving an article.
#[derive(Debug, Clone, PartialEq, Eq)]
pub enum ArticleError {
    /// The raw document did not split into delimiter / metadata / body.
    MalformedDocument,
    /// The metadata block is not a well-formed key-value mapping.
    MetadataParse(String),
    /// The metadata mapping could not be serialized.
    MetadataSerialize(String),
    /// A required metadata field is absent.
    MissingField(String),
    /// The date field does not match the calendar-date pattern `YYYY-MM-DD`.
    InvalidDateFormat,
    /// Local midnight of the date is ambiguous or nonexistent in the
    /// reference timezone.
    AmbiguousLocalTime,
    /// The source directory does not exist or is not a directory.
    DirectoryNotFound,
    /// The destination directory for a saved article is invalid.
    OutputDirectoryInvalid,
    /// The destination file for a saved article already exists.
    OutputAlreadyExists,
    /// The body text could not be rendered to markup.
    ContentRenderFailure,
    /// The template engine rejected a template or its context.
    TemplateFailure,
    /// A filesystem operation failed.
    IO(String),
}

/// Errors raised while assembling the site-wide context.
#[derive(Debug, Clone, PartialEq, Eq)]
pub enum SneakyContextError {
    /// The configuration file is not a valid key-value document.
    Toml(String),
    /// A filesystem operation failed.
    IO(String),
}

/// Errors raised by the web-facing layer.
#[derive(Debug, Clone, PartialEq, Eq)]
pub enum WebError {
    /// Loading the article collection failed.
    ArticlesLoad(ArticleError),
    /// A filesystem or network operation failed.
    IO(String),
}

impl ArticleError {
    /// A short human-readable description of the error.
    pub fn message(&self) -> (r: String)
        ensures
            (match self {
                ArticleError::MetadataParse(m) => r@ == m@,
                ArticleError::MetadataSerialize(m) => r@ == m@,
                ArticleError::MissingField(f) => r@ == f@,
                ArticleError::IO(m) => r@ == m@,
                _ => r@.len() > 0,
            }),
    {
        proof {
            reveal_strlit("document does not split into delimiter, metadata and body");
            reveal_strlit("date does not match YYYY-MM-DD");
            reveal_strlit("local midnight is ambiguous or nonexistent in the reference timezone");
            reveal_strlit("directory not found");
            reveal_strlit("output directory is invalid");
            reveal_strlit("output file already exists");
            reveal_strlit("could not render the article body");
            reveal_strlit("could not render a page template");
        }
        match self {
            ArticleError::MalformedDocument => String::from_str(
                "document does not split into delimiter, metadata and body",
            ),
            ArticleError::MetadataParse(r) => r.clone(),
            ArticleError::MetadataSerialize(r) => r.clone(),
            ArticleError::MissingField(f) => f.clone(),
            ArticleError::InvalidDateFormat => String::from_str(
                "date does not match YYYY-MM-DD",
            ),
            ArticleError::AmbiguousLocalTime => String::from_str(
                "local midnight is ambiguous or nonexistent in the reference timezone",
            ),
            ArticleError::DirectoryNotFound => String::from_str("directory not found"),
            ArticleError::OutputDirectoryInvalid => String::from_str(
                "output directory is invalid",
            ),
            ArticleError::OutputAlreadyExists => String::from_str(
                "output file already exists",
            ),
            ArticleError::ContentRenderFailure => String::from_str(
                "could not render the article body",
            ),
            ArticleError::TemplateFailure => String::from_str(
                "could not render a page template",
            ),
            ArticleError::IO(r) => r.clone(),
        }
    }
}

} // verus!
