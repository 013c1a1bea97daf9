//! The article entity and its document codec. A source document is three
//! segments separated by a three-character delimiter: a discarded preamble,
//! a `key: value` metadata block, and the body. Decoding validates the
//! metadata (`title` and `date` required, `author` defaulted) and anchors
//! the date in the reference timezone; encoding writes the same format
//! back, so the two are mutual near-inverses.

use crate::date::{
    spec_format_date, spec_normalize, spec_parse_date, ArticleDate, DateView, ReferenceZone,
};
use crate::errors::ArticleError;
use crate::meta::{spec_lookup, spec_parse_block};
use crate::slug::spec_slugify;
use crate::text::{spec_find_delim, spec_trim};
use vstd::prelude::*;

verus! {

/// The ghost value of an [`Article`].
#[verifier::ext_equal]
pub struct ArticleView {
    pub title: Seq<char>,
    pub author: Seq<char>,
    pub date: DateView,
    pub content: Seq<char>,
}

/// A validated article: display title, resolved author, publication date
/// anchored to the reference timezone, and trimmed body content.
#[derive(Debug, Clone)]
pub struct Article {
    pub title: String,
    pub author: String,
    pub date: ArticleDate,
    pub content: String,
}

impl View for Article {
    type V = ArticleView;

    open spec fn view(&self) -> ArticleView {
        ArticleView {
            title: self.title@,
            author: self.author@,
            date: self.date@,
            content: self.content@,
        }
    }
}

/// Defaults and the reference timezone, passed explicitly so that tests can
/// override them without shared state.
pub struct ArticleConfig {
    pub default_title: String,
    pub default_author: String,
    pub timezone: ReferenceZone,
}

impl ArticleConfig {
    /// The configured reference timezone is a known zone.
    pub open spec fn wf(&self) -> bool {
        self.timezone.wf()
    }
}

/// The stock configuration: placeholder title, site author, Pacific time.
/// Returns nothing only if the timezone table lacks the Pacific zone.
pub fn default_config() -> (r: Option<ArticleConfig>)
    ensures
        (r is Some) == crate::date::spec_zone_known("US/Pacific"@),
        (r matches Some(c) ==> c.wf() && c.default_title@ == "title-me"@ && c.default_author@
            == "sneakycrow"@ && c.timezone.name@ == "US/Pacific"@),
{
    let zone = match ReferenceZone::new(String::from_str("US/Pacific")) {
        Some(z) => z,
        None => {
            return None;
        },
    };
    Some(
        ArticleConfig {
            default_title: String::from_str("title-me"),
            default_author: String::from_str("sneakycrow"),
            timezone: zone,
        },
    )
}

/// The abstract reasons a document fails to decode.
pub enum DecodeErr {
    /// Fewer than two delimiter occurrences.
    Malformed,
    /// A non-blank metadata line without a colon.
    MetaParse,
    /// No `title` key in the metadata block.
    MissingTitle,
    /// No `date` key in the metadata block.
    MissingDate,
    /// The `date` value does not name a calendar date as `YYYY-MM-DD`.
    BadDateFormat,
    /// Local midnight of the date is skipped or repeated in the reference
    /// timezone.
    AmbiguousMidnight,
}

/// The error value owed for each abstract failure reason.
pub open spec fn err_matches(e: ArticleError, k: DecodeErr) -> bool {
    match k {
        DecodeErr::Malformed => e == ArticleError::MalformedDocument,
        DecodeErr::MetaParse => (e matches ArticleError::MetadataParse(m) && m@
            == "metadata line without a colon"@),
        DecodeErr::MissingTitle => (e matches ArticleError::MissingField(f) && f@ == "title"@),
        DecodeErr::MissingDate => (e matches ArticleError::MissingField(f) && f@ == "date"@),
        DecodeErr::BadDateFormat => e == ArticleError::InvalidDateFormat,
        DecodeErr::AmbiguousMidnight => e == ArticleError::AmbiguousLocalTime,
    }
}

/// The decoding of a raw document: split at the first two delimiter
/// occurrences, parse the trimmed middle segment as a metadata mapping,
/// extract `title` (required), `author` (defaulted) and `date` (required,
/// normalized against the reference zone), and trim the final segment into
/// the body. Everything before the first delimiter is discarded.
pub open spec fn spec_decode(s: Seq<char>, default_author: Seq<char>, zone: Seq<char>) -> Result<
    ArticleView,
    DecodeErr,
> {
    match spec_find_delim(s, 0) {
        None => Err(DecodeErr::Malformed),
        Some(i) => match spec_find_delim(s, i + 3) {
            None => Err(DecodeErr::Malformed),
            Some(j) => {
                let metadata = spec_trim(s.subrange(i + 3, j));
                let body = spec_trim(s.subrange(j + 3, s.len() as int));
                match spec_parse_block(metadata) {
                    None => Err(DecodeErr::MetaParse),
                    Some(pairs) => match spec_lookup(pairs, "title"@) {
                        None => Err(DecodeErr::MissingTitle),
                        Some(title) => if title.len() == 0 {
                            // an empty value does not name the article
                            Err(DecodeErr::MissingTitle)
                        } else {
                            let author = match spec_lookup(pairs, "author"@) {
                                None => default_author,
                                Some(a) => a,
                            };
                            match spec_lookup(pairs, "date"@) {
                                None => Err(DecodeErr::MissingDate),
                                Some(ds) => match spec_normalize(ds, zone) {
                                    Err(e) => if e == ArticleError::AmbiguousLocalTime {
                                        Err(DecodeErr::AmbiguousMidnight)
                                    } else {
                                        Err(DecodeErr::BadDateFormat)
                                    },
                                    Ok(date) => Ok(
                                        ArticleView { title, author, date, content: body },
                                    ),
                                },
                            }
                        },
                    },

                }
            },
        },
    }
}

/// The encoding of an article: delimiter, the three metadata lines, the
/// delimiter again, then the body with its surrounding whitespace trimmed.
pub open spec fn spec_encode(v: ArticleView) -> Seq<char> {
    "---\ntitle: "@ + v.title + "\nauthor: "@ + v.author + "\ndate: "@ + spec_format_date(v.date)
        + "\n---\n"@ + spec_trim(v.content)
}

/// The canonical identifier of an article: its date as `YYYY-MM-DD`, a
/// hyphen, and the slug of its title. A pure function of date and title.
pub open spec fn spec_filename(v: ArticleView) -> Seq<char> {
    spec_format_date(v.date) + seq!['-'] + spec_slugify(v.title)
}

/// What `markdown_ppp` renders the body to: an HTML fragment, or nothing if
/// the body does not parse as Markdown.
pub uninterp spec fn md_html_of(content: Seq<char>) -> Option<Seq<char>>;

/// Relies on `markdown_ppp::parser::parse_markdown` (default state) and
/// `markdown_ppp::html_printer::render_html` (default configuration): the
/// parse either fails or yields an AST that renders to HTML, and both steps
/// depend on the body text alone.
#[verifier::external_body]
fn render_markdown(content: &str) -> (r: Option<String>)
    ensures
        (match r {
            Some(h) => md_html_of(content@) == Some(h@),
            None => md_html_of(content@) is None,
        }),
{
    let state = markdown_ppp::parser::MarkdownParserState::default();
    match markdown_ppp::parser::parse_markdown(state, content) {
        Ok(doc) => Some(
            markdown_ppp::html_printer::render_html(
                &doc,
                markdown_ppp::html_printer::config::Config::default(),
            ),
        ),
        Err(_) => None,
    }
}

impl Article {
    /// The article's date exists in the calendar.
    pub open spec fn wf(&self) -> bool {
        self.date.wf()
    }

    /// Starts a fluent builder for a new article.
    pub fn builder() -> (r: crate::builder::ArticleBuilder)
        ensures
            r.title is None,
            r.content is None,
            r.date is None,
            r.author is None,
    {
        crate::builder::ArticleBuilder::new()
    }

    /// Decodes a raw document into an article, resolving the `author`
    /// fallback and the reference timezone from `config`.
    pub fn decode(raw: &str, config: &ArticleConfig) -> (r: Result<Article, ArticleError>)
        requires
            config.wf(),
        ensures
            (match spec_decode(raw@, config.default_author@, config.timezone.name@) {
                Ok(v) => r matches Ok(a) && a@ == v && a.wf(),
                Err(k) => r matches Err(e) && err_matches(e, k),
            }),
    {
        let n = raw.unicode_len();
        let first = match crate::text::find_delim(raw, 0) {
            None => {
                return Err(ArticleError::MalformedDocument);
            },
            Some(i) => i,
        };
        let second = match crate::text::find_delim(raw, first + 3) {
            None => {
                return Err(ArticleError::MalformedDocument);
            },
            Some(j) => j,
        };
        let meta_raw = raw.substring_char(first + 3, second);
        let body_raw = raw.substring_char(second + 3, n);
        let metadata = crate::text::trim(meta_raw);
        let body = crate::text::trim(body_raw);
        let pairs = match crate::meta::parse_block(metadata.as_str()) {
            None => {
                return Err(
                    ArticleError::MetadataParse(
                        String::from_str("metadata line without a colon"),
                    ),
                );
            },
            Some(p) => p,
        };
        let title = match crate::meta::lookup(&pairs, "title") {
            None => {
                return Err(ArticleError::MissingField(String::from_str("title")));
            },
            Some(t) => t,
        };
        if title.as_str().is_empty() {
            return Err(ArticleError::MissingField(String::from_str("title")));
        }
        let author = match crate::meta::lookup(&pairs, "author") {
            None => config.default_author.clone(),
            Some(a) => a,
        };
        let date_str = match crate::meta::lookup(&pairs, "date") {
            None => {
                return Err(ArticleError::MissingField(String::from_str("date")));
            },
            Some(d) => d,
        };
        let date = match crate::date::normalize(date_str.as_str(), &config.timezone) {
            Err(e) => {
                return Err(e);
            },
            Ok(d) => d,
        };
        let a = Article { title, author, date, content: body };
        proof {
            let v = spec_decode(raw@, config.default_author@, config.timezone.name@)->Ok_0;
            assert(a@ =~= v);
        }
        Ok(a)
    }

    /// Encodes the article back into the document format.
    pub fn encode(&self) -> (r: String)
        requires
            self.wf(),
        ensures
            r@ == spec_encode(self@),
    {
        let mut out = String::from_str("---\ntitle: ");
        out.append(self.title.as_str());
        out.append("\nauthor: ");
        out.append(self.author.as_str());
        out.append("\ndate: ");
        let date = self.date.format();
        out.append(date.as_str());
        out.append("\n---\n");
        let body = crate::text::trim(self.content.as_str());
        out.append(body.as_str());
        proof {
            assert(out@ =~= spec_encode(self@));
        }
        out
    }

    /// Derives the canonical filesystem-safe token from the title.
    pub fn serialize_title(&self) -> (r: String)
        ensures
            r@ == spec_slugify(self.title@),
    {
        crate::slug::slugify(self.title.as_str())
    }

    /// The canonical identifier `{YYYY-MM-DD}-{slug}`.
    pub fn filename(&self) -> (r: String)
        requires
            self.wf(),
        ensures
            r@ == spec_filename(self@),
    {
        let mut out = self.date.format();
        proof {
            reveal_strlit("-");
            assert("-"@ =~= seq!['-']);
        }
        out.append("-");
        let slug = self.serialize_title();
        out.append(slug.as_str());
        proof {
            assert(out@ =~= spec_filename(self@));
        }
        out
    }

    /// Renders the body to HTML through the external content renderer.
    pub fn render_html(&self) -> (r: Result<String, ArticleError>)
        ensures
            (match r {
                Ok(h) => md_html_of(self.content@) == Some(h@),
                Err(e) => md_html_of(self.content@) is None && e
                    == ArticleError::ContentRenderFailure,
            }),
    {
        match render_markdown(self.content.as_str()) {
            Some(h) => Ok(h),
            None => Err(ArticleError::ContentRenderFailure),
        }
    }

    /// The article's publication year.
    pub fn year(&self) -> (r: i32)
        ensures
            r as int == self@.date.y,
    {
        self.date.year
    }

    /// The article's publication month.
    pub fn month(&self) -> (r: u32)
        ensures
            r as int == self@.date.m,
    {
        self.date.month
    }

    /// The article's publication day of month.
    pub fn day(&self) -> (r: u32)
        ensures
            r as int == self@.date.d,
    {
        self.date.day
    }

    /// The article's display title.
    pub fn title(&self) -> (r: &str)
        ensures
            r@ == self@.title,
    {
        self.title.as_str()
    }
}

} // verus!
