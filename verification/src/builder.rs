//! The fluent article builder: the authoring path. Every field is optional;
//! `build` is total and fills unset fields with the configured defaults,
//! today's date in the reference timezone standing in for an unset date.

use crate::article::{Article, ArticleConfig};
use crate::date::ArticleDate;
use vstd::prelude::*;

verus! {

/// Accumulates the optional fields of a new article.
pub struct ArticleBuilder {
    pub title: Option<String>,
    pub content: Option<String>,
    pub date: Option<ArticleDate>,
    pub author: Option<String>,
}

impl Default for ArticleBuilder {
    /// An empty builder: every field unset.
    fn default() -> (r: Self)
        ensures
            r.title is None,
            r.content is None,
            r.date is None,
            r.author is None,
    {
        ArticleBuilder { title: None, content: None, date: None, author: None }
    }
}

impl ArticleBuilder {
    /// An empty builder: every field unset.
    pub fn new() -> (r: Self)
        ensures
            r.title is None,
            r.content is None,
            r.date is None,
            r.author is None,
    {
        ArticleBuilder { title: None, content: None, date: None, author: None }
    }

    /// Adds a title to the article.
    pub fn title(self, title: String) -> (r: Self)
        ensures
            r.title == Some(title),
            r.content == self.content,
            r.date == self.date,
            r.author == self.author,
    {
        ArticleBuilder { title: Some(title), ..self }
    }

    /// Adds an optional title to the article.
    pub fn maybe_title(self, title: Option<String>) -> (r: Self)
        ensures
            r.title == title,
            r.content == self.content,
            r.date == self.date,
            r.author == self.author,
    {
        ArticleBuilder { title, ..self }
    }

    /// Adds content to the article.
    pub fn content(self, content: String) -> (r: Self)
        ensures
            r.content == Some(content),
            r.title == self.title,
            r.date == self.date,
            r.author == self.author,
    {
        ArticleBuilder { content: Some(content), ..self }
    }

    /// Adds optional content to the article.
    pub fn maybe_content(self, content: Option<String>) -> (r: Self)
        ensures
            r.content == content,
            r.title == self.title,
            r.date == self.date,
            r.author == self.author,
    {
        ArticleBuilder { content, ..self }
    }

    /// Builds the article. Total: an unset title becomes the configured
    /// placeholder, unset content the empty body, an unset author the
    /// configured identity, and an unset date today's date in the reference
    /// timezone.
    pub fn build(self, config: &ArticleConfig) -> (a: Article)
        requires
            config.wf(),
            (self.date matches Some(d) ==> d.wf()),
        ensures
            a.wf(),
            (match self.title {
                Some(t) => a.title@ == t@,
                None => a.title@ == config.default_title@,
            }),
            (match self.content {
                Some(c) => a.content@ == c@,
                None => a.content@ == Seq::<char>::empty(),
            }),
            (match self.author {
                Some(w) => a.author@ == w@,
                None => a.author@ == config.default_author@,
            }),
            (self.date matches Some(d) ==> a.date == d),
    {
        let title = match self.title {
            Some(t) => t,
            None => config.default_title.clone(),
        };
        let content = match self.content {
            Some(c) => c,
            None => String::new(),
        };
        let author = match self.author {
            Some(w) => w,
            None => config.default_author.clone(),
        };
        let date = match self.date {
            Some(d) => d,
            None => {
                let (y, m, d) = crate::date::today_in_zone(config.timezone.name.as_str());
                match ArticleDate::new(y, m, d) {
                    Some(today) => today,
                    // the clock returned something outside the calendar the
                    // codec can write; fall back to the epoch date
                    None => ArticleDate { year: 1970, month: 1, day: 1 },
                }
            },
        };
        Article { title, author, date, content }
    }
}

} // verus!
