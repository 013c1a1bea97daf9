//! The site builder: turns a sequence of articles into the pages of a static
//! output tree — one page per article under its canonical identifier, a root
//! index page, and an aggregate listing page written last. Page contexts are
//! serialized to JSON text by verified code; the external template engine
//! turns a template string and that context into HTML.

use crate::article::{md_html_of, spec_encode, spec_filename, Article, ArticleView};
use crate::errors::ArticleError;
use crate::text::{digit_char, spec_dec2, spec_dec4, str_eq};
use vstd::prelude::*;

verus! {

// ---------------------------------------------------------------------------
// JSON text
// ---------------------------------------------------------------------------
/// The hexadecimal digit character for `n`.
pub open spec fn hex_char(n: int) -> char {
    if n < 10 {
        digit_char(n)
    } else {
        ((87 + n) as u8) as char
    }
}

/// The JSON escape of one character inside a string literal.
pub open spec fn json_escape_char(c: char) -> Seq<char> {
    if c == '"' {
        seq!['\\', '"']
    } else if c == '\\' {
        seq!['\\', '\\']
    } else if c as int >= 32 {
        seq![c]
    } else if c == '\n' {
        seq!['\\', 'n']
    } else if c == '\r' {
        seq!['\\', 'r']
    } else if c == '\t' {
        seq!['\\', 't']
    } else {
        seq!['\\', 'u', '0', '0', hex_char(c as int / 16), hex_char(c as int % 16)]
    }
}

/// The JSON escape of a whole string body.
pub open spec fn spec_json_escape(s: Seq<char>) -> Seq<char>
    decreases s.len(),
{
    if s.len() == 0 {
        Seq::empty()
    } else {
        json_escape_char(s[0]) + spec_json_escape(s.drop_first())
    }
}

/// A JSON string literal denoting `s`.
pub open spec fn spec_json_string(s: Seq<char>) -> Seq<char> {
    seq!['"'] + spec_json_escape(s) + seq!['"']
}

/// Appends the JSON escape of the character at position `i` of `s`.
fn push_escaped(out: &mut String, s: &str, i: usize)
    requires
        i < s@.len(),
        s@.len() <= usize::MAX,
    ensures
        final(out)@ == old(out)@ + json_escape_char(s@[i as int]),
{
    let c = s.get_char(i);
    if c == '"' {
        proof {
            reveal_strlit("\\\"");
        }
        out.append("\\\"");
        assert(out@ =~= old(out)@ + json_escape_char(c));
    } else if c == '\\' {
        proof {
            reveal_strlit("\\\\");
        }
        out.append("\\\\");
        assert(out@ =~= old(out)@ + json_escape_char(c));
    } else if c >= ' ' {
        let one = s.substring_char(i, i + 1);
        out.append(one);
        assert(out@ =~= old(out)@ + json_escape_char(c));
    } else if c == '\n' {
        proof {
            reveal_strlit("\\n");
        }
        out.append("\\n");
        assert(out@ =~= old(out)@ + json_escape_char(c));
    } else if c == '\r' {
        proof {
            reveal_strlit("\\r");
        }
        out.append("\\r");
        assert(out@ =~= old(out)@ + json_escape_char(c));
    } else if c == '\t' {
        proof {
            reveal_strlit("\\t");
        }
        out.append("\\t");
        assert(out@ =~= old(out)@ + json_escape_char(c));
    } else {
        proof {
            reveal_strlit("\\u00");
            reveal_strlit("0123456789abcdef");
        }
        out.append("\\u00");
        let v = c as u32;
        let digits = "0123456789abcdef";
        let hi = digits.substring_char((v / 16) as usize, (v / 16 + 1) as usize);
        out.append(hi);
        let lo = digits.substring_char((v % 16) as usize, (v % 16 + 1) as usize);
        out.append(lo);
        proof {
            assert(forall|k: int| 0 <= k < 16 ==> "0123456789abcdef"@[k] == hex_char(k));
            assert(out@ =~= old(out)@ + json_escape_char(c));
        }
    }
}

/// Appends the JSON string literal denoting `s`.
fn push_json_string(out: &mut String, s: &str)
    ensures
        final(out)@ == old(out)@ + spec_json_string(s@),
{
    proof {
        reveal_strlit("\"");
    }
    out.append("\"");
    let n = s.unicode_len();
    let mut i: usize = 0;
    proof {
        assert(s@.subrange(0, n as int) =~= s@);
        assert(out@ =~= old(out)@ + seq!['"'] + spec_json_escape(
            Seq::<char>::empty(),
        ).take(0));
    }
    while i < n
        invariant
            0 <= i <= n,
            n == s@.len(),
            out@ == old(out)@ + seq!['"'] + spec_json_escape(s@.take(i as int)),
        decreases n - i,
    {
        push_escaped(out, s, i);
        proof {
            lemma_json_escape_snoc(s@, i as int);
        }
        i = i + 1;
    }
    proof {
        assert(s@.take(n as int) =~= s@);
    }
    out.append("\"");
    proof {
        assert(out@ =~= old(out)@ + spec_json_string(s@));
    }
}

/// Escaping one more character extends the escaped prefix.
proof fn lemma_json_escape_snoc(s: Seq<char>, i: int)
    requires
        0 <= i < s.len(),
    ensures
        spec_json_escape(s.take(i + 1)) == spec_json_escape(s.take(i)) + json_escape_char(s[i]),
    decreases i,
{
    if i == 0 {
        assert(s.take(0) =~= Seq::<char>::empty());
        assert(spec_json_escape(Seq::<char>::empty()) == Seq::<char>::empty());
        assert(s.take(1).drop_first() =~= Seq::<char>::empty());
        assert(s.take(1)[0] == s[0]);
        assert(spec_json_escape(s.take(1)) =~= spec_json_escape(s.take(0)) + json_escape_char(
            s[0],
        ));
    } else {
        let t = s.drop_first();
        assert(s.take(i + 1).drop_first() =~= t.take(i));
        assert(s.take(i).drop_first() =~= t.take(i - 1));
        assert(t[i - 1] == s[i]);
        lemma_json_escape_snoc(t, i - 1);
        assert(spec_json_escape(s.take(i + 1)) == json_escape_char(s[0]) + spec_json_escape(
            t.take(i),
        ));
        assert(spec_json_escape(s.take(i)) == json_escape_char(s[0]) + spec_json_escape(
            t.take(i - 1),
        ));
        assert(json_escape_char(s[0]) + (spec_json_escape(t.take(i - 1)) + json_escape_char(
            s[i],
        )) =~= (json_escape_char(s[0]) + spec_json_escape(t.take(i - 1))) + json_escape_char(
            s[i],
        ));
    }
}

// ---------------------------------------------------------------------------
// page contexts
// ---------------------------------------------------------------------------
/// The context of the root index page.
pub open spec fn spec_index_ctx() -> Seq<char> {
    "{\"parent\": \"base\"}"@
}

/// The context of one article page: title, author, date, rendered body, and
/// the layout reference.
pub open spec fn spec_post_ctx(
    title: Seq<char>,
    author: Seq<char>,
    date: Seq<char>,
    body: Seq<char>,
) -> Seq<char> {
    "{\"title\": "@ + spec_json_string(title) + ", \"author\": "@ + spec_json_string(author)
        + ", \"date\": "@ + spec_json_string(date) + ", \"content\": "@ + spec_json_string(body)
        + ", \"parent\": \"base\"}"@
}

/// One entry of the listing page: an article's title and its public URL.
pub open spec fn spec_listing_entry(title: Seq<char>, url: Seq<char>) -> Seq<char> {
    "{\"title\": "@ + spec_json_string(title) + ", \"url\": "@ + spec_json_string(url) + "}"@
}

/// The listing entries joined into a JSON array body.
pub open spec fn spec_join_entries(items: Seq<(Seq<char>, Seq<char>)>) -> Seq<char>
    decreases items.len(),
{
    if items.len() == 0 {
        Seq::empty()
    } else if items.len() == 1 {
        spec_listing_entry(items[0].0, items[0].1)
    } else {
        spec_listing_entry(items[0].0, items[0].1) + ", "@ + spec_join_entries(items.drop_first())
    }
}

/// The context of the listing page: every article's title and URL, and the
/// layout reference.
pub open spec fn spec_listing_ctx(items: Seq<(Seq<char>, Seq<char>)>) -> Seq<char> {
    "{\"posts\": ["@ + spec_join_entries(items) + "], \"parent\": \"base\"}"@
}

/// Writes the context of one article page.
fn post_ctx(title: &str, author: &str, date: &str, body: &str) -> (r: String)
    ensures
        r@ == spec_post_ctx(title@, author@, date@, body@),
{
    let mut out = String::from_str("{\"title\": ");
    push_json_string(&mut out, title);
    out.append(", \"author\": ");
    push_json_string(&mut out, author);
    out.append(", \"date\": ");
    push_json_string(&mut out, date);
    out.append(", \"content\": ");
    push_json_string(&mut out, body);
    out.append(", \"parent\": \"base\"}");
    proof {
        assert(out@ =~= spec_post_ctx(title@, author@, date@, body@));
    }
    out
}

/// Writes the listing entries from position `i` on, separated by commas.
fn join_entries(items: &Vec<(String, String)>, i: usize) -> (r: String)
    requires
        i <= items.len(),
    ensures
        r@ == spec_join_entries(items.deep_view().subrange(i as int, items.deep_view().len() as int)),
    decreases items.len() - i,
{
    let ghost all = items.deep_view();
    let ghost rest = all.subrange(i as int, all.len() as int);
    proof {
        assert(all.len() == items@.len());
    }
    if i == items.len() {
        proof {
            assert(rest =~= Seq::<(Seq<char>, Seq<char>)>::empty());
        }
        String::new()
    } else {
        proof {
            assert(all[i as int] == items@[i as int].deep_view());
            assert(rest[0] == all[i as int]);
            assert(rest.drop_first() =~= all.subrange(i + 1, all.len() as int));
        }
        let mut out = String::from_str("{\"title\": ");
        push_json_string(&mut out, items[i].0.as_str());
        out.append(", \"url\": ");
        push_json_string(&mut out, items[i].1.as_str());
        out.append("}");
        proof {
            assert(out@ =~= spec_listing_entry(items@[i as int].0@, items@[i as int].1@));
        }
        if i + 1 == items.len() {
            proof {
                assert(rest.len() == 1);
            }
            out
        } else {
            out.append(", ");
            let tail = join_entries(items, i + 1);
            out.append(tail.as_str());
            proof {
                assert(out@ =~= spec_join_entries(rest));
            }
            out
        }
    }
}

/// Writes the context of the listing page.
fn listing_ctx(items: &Vec<(String, String)>) -> (r: String)
    ensures
        r@ == spec_listing_ctx(items.deep_view()),
{
    let mut out = String::from_str("{\"posts\": [");
    let joined = join_entries(items, 0);
    out.append(joined.as_str());
    out.append("], \"parent\": \"base\"}");
    proof {
        assert(items.deep_view().subrange(0, items.deep_view().len() as int) =~= items.deep_view());
        assert(out@ =~= spec_listing_ctx(items.deep_view()));
    }
    out
}

// ---------------------------------------------------------------------------
// the template engine
// ---------------------------------------------------------------------------
/// What the template engine renders: HTML from a template string and a JSON
/// context, or nothing if either is rejected.
pub uninterp spec fn tpl_html_of(tpl: Seq<char>, ctx: Seq<char>) -> Option<Seq<char>>;

/// Relies on `serde_json::from_str` to read the context object and on
/// `handlebars::Handlebars::render_template` over a fresh registry: parsing
/// and one-shot rendering are pure functions of the two texts.
#[verifier::external_body]
fn render_template(tpl: &str, ctx_json: &str) -> (r: Option<String>)
    ensures
        (match r {
            Some(h) => tpl_html_of(tpl@, ctx_json@) == Some(h@),
            None => tpl_html_of(tpl@, ctx_json@) is None,
        }),
{
    let data: serde_json::Value = match serde_json::from_str(ctx_json) {
        Ok(v) => v,
        Err(_) => {
            return None;
        },
    };
    handlebars::Handlebars::new().render_template(tpl, &data).ok()
}

// ---------------------------------------------------------------------------
// pages
// ---------------------------------------------------------------------------
/// One file of the build output: where it goes and what it holds.
pub struct Page {
    pub path: String,
    pub content: String,
}

impl View for Page {
    type V = (Seq<char>, Seq<char>);

    open spec fn view(&self) -> (Seq<char>, Seq<char>) {
        (self.path@, self.content@)
    }
}

/// The template strings of the site: the root index page, the listing page,
/// and the article page.
pub struct SiteTemplates {
    pub index: String,
    pub listing: String,
    pub post: String,
}

/// The output path of one article's page.
pub open spec fn spec_page_path(v: ArticleView) -> Seq<char> {
    "blog/"@ + spec_filename(v) + ".html"@
}

/// The public URL of an article:
/// `/blog/{YYYY}/{MM}/{DD}/{slug}`, the numbers zero-padded as in the
/// canonical identifier.
pub open spec fn spec_blog_url(v: ArticleView) -> Seq<char> {
    "/blog/"@ + spec_dec4(v.date.y) + seq!['/'] + spec_dec2(v.date.m) + seq!['/'] + spec_dec2(
        v.date.d,
    ) + seq!['/'] + crate::slug::spec_slugify(v.title)
}

/// Derives the public URL of an article.
pub fn blog_url(a: &Article) -> (r: String)
    requires
        a.wf(),
    ensures
        r@ == spec_blog_url(a@),
{
    let mut out = String::from_str("/blog/");
    proof {
        reveal_strlit("/");
        assert("/"@ =~= seq!['/']);
    }
    let y = a.date.year as u32;
    crate::text::push_digit(&mut out, y / 1000);
    crate::text::push_digit(&mut out, (y / 100) % 10);
    crate::text::push_digit(&mut out, (y / 10) % 10);
    crate::text::push_digit(&mut out, y % 10);
    out.append("/");
    crate::text::push_digit(&mut out, a.date.month / 10);
    crate::text::push_digit(&mut out, a.date.month % 10);
    out.append("/");
    crate::text::push_digit(&mut out, a.date.day / 10);
    crate::text::push_digit(&mut out, a.date.day % 10);
    out.append("/");
    let slug = a.serialize_title();
    out.append(slug.as_str());
    proof {
        assert(out@ =~= spec_blog_url(a@));
    }
    out
}

/// The page built for one article: its body rendered to HTML, the page
/// template applied to the article's context, the result placed under the
/// canonical path.
pub open spec fn spec_post_page(v: ArticleView, post_tpl: Seq<char>) -> Result<
    (Seq<char>, Seq<char>),
    ArticleError,
> {
    match md_html_of(v.content) {
        None => Err(ArticleError::ContentRenderFailure),
        Some(body) => match tpl_html_of(
            post_tpl,
            spec_post_ctx(v.title, v.author, crate::date::spec_format_date(v.date), body),
        ) {
            None => Err(ArticleError::TemplateFailure),
            Some(html) => Ok((spec_page_path(v), html)),
        },
    }
}

/// The article pages in order, or the first article's failure.
pub open spec fn spec_post_pages(arts: Seq<ArticleView>, post_tpl: Seq<char>) -> Result<
    Seq<(Seq<char>, Seq<char>)>,
    ArticleError,
>
    decreases arts.len(),
{
    if arts.len() == 0 {
        Ok(Seq::empty())
    } else {
        match spec_post_page(arts[0], post_tpl) {
            Err(e) => Err(e),
            Ok(p) => match spec_post_pages(arts.drop_first(), post_tpl) {
                Err(e) => Err(e),
                Ok(rest) => Ok(seq![p] + rest),
            },
        }
    }
}

/// Every article's listing entry, in order.
pub open spec fn spec_entries(arts: Seq<ArticleView>) -> Seq<(Seq<char>, Seq<char>)> {
    Seq::new(arts.len(), |i: int| (arts[i].title, spec_blog_url(arts[i])))
}

/// The whole build: the root index page, one page per article, and the
/// aggregate listing page last; or the first failure, article pages decided
/// before the index and listing templates.
pub open spec fn spec_build_pages(
    arts: Seq<ArticleView>,
    index_tpl: Seq<char>,
    listing_tpl: Seq<char>,
    post_tpl: Seq<char>,
) -> Result<Seq<(Seq<char>, Seq<char>)>, ArticleError> {
    match spec_post_pages(arts, post_tpl) {
        Err(e) => Err(e),
        Ok(pp) => match tpl_html_of(index_tpl, spec_index_ctx()) {
            None => Err(ArticleError::TemplateFailure),
            Some(ih) => match tpl_html_of(listing_tpl, spec_listing_ctx(spec_entries(arts))) {
                None => Err(ArticleError::TemplateFailure),
                Some(lh) => Ok(
                    seq![("index.html"@, ih)] + pp + seq![("blog/index.html"@, lh)],
                ),
            },
        },
    }
}

/// Builds the pages of the whole site from the loaded articles and the three
/// templates. Deterministic in its inputs: the result is fixed by the
/// articles and the template texts alone.
pub fn build_pages(articles: &Vec<Article>, templates: &SiteTemplates) -> (r: Result<
    Vec<Page>,
    ArticleError,
>)
    requires
        forall|i: int| 0 <= i < articles@.len() ==> (#[trigger] articles@[i]).wf(),
    ensures
        (match spec_build_pages(
            Seq::new(articles@.len(), |i: int| articles@[i]@),
            templates.index@,
            templates.listing@,
            templates.post@,
        ) {
            Ok(ps) => r matches Ok(pages) && pages@.len() == ps.len() && (forall|i: int|
                0 <= i < ps.len() ==> (#[trigger] pages@[i])@ == ps[i]),
            Err(e) => r == Err::<Vec<Page>, ArticleError>(e),
        }),
{
    let ghost avs = Seq::new(articles@.len(), |i: int| articles@[i]@);
    let mut posts: Vec<Page> = Vec::new();
    let mut entries: Vec<(String, String)> = Vec::new();
    let mut i: usize = 0;
    proof {
        assert(avs.subrange(0, avs.len() as int) =~= avs);
    }
    while i < articles.len()
        invariant
            0 <= i <= articles.len(),
            avs == Seq::new(articles@.len(), |k: int| articles@[k]@),
            avs.len() == articles.len(),
            forall|k: int| 0 <= k < articles@.len() ==> (#[trigger] articles@[k]).wf(),
            posts@.len() == i,
            entries@.len() == i,
            entries.deep_view() =~= spec_entries(avs.take(i as int)),
            ({
                let tail = spec_post_pages(avs.subrange(i as int, avs.len() as int),
                    templates.post@);
                let whole = spec_post_pages(avs, templates.post@);
                match tail {
                    Err(e) => whole == Err::<Seq<(Seq<char>, Seq<char>)>, ArticleError>(e),
                    Ok(rest) => whole == Ok::<Seq<(Seq<char>, Seq<char>)>, ArticleError>(
                        Seq::new(posts@.len(), |k: int| posts@[k]@) + rest,
                    ),
                }
            }),
        decreases articles.len() - i,
    {
        let ghost rest = avs.subrange(i as int, avs.len() as int);
        proof {
            assert(rest[0] == avs[i as int]);
            assert(avs[i as int] == articles@[i as int]@);
            assert(rest.drop_first() =~= avs.subrange(i + 1, avs.len() as int));
        }
        let a = &articles[i];
        let body = match a.render_html() {
            Err(e) => {
                return Err(e);
            },
            Ok(b) => b,
        };
        let date_str = a.date.format();
        let ctx = post_ctx(a.title.as_str(), a.author.as_str(), date_str.as_str(), body.as_str());
        let html = match render_template(templates.post.as_str(), ctx.as_str()) {
            None => {
                return Err(ArticleError::TemplateFailure);
            },
            Some(h) => h,
        };
        let mut path = String::from_str("blog/");
        let id = a.filename();
        path.append(id.as_str());
        path.append(".html");
        proof {
            assert(path@ =~= spec_page_path(avs[i as int]));
        }
        let ghost before = Seq::new(posts@.len(), |k: int| posts@[k]@);
        let ghost pv = (path@, html@);
        posts.push(Page { path, content: html });
        let url = blog_url(a);
        let title = a.title.clone();
        let ghost before_e = entries.deep_view();
        let ghost ev = (title@, url@);
        entries.push((title, url));
        proof {
            assert(Seq::new(posts@.len(), |k: int| posts@[k]@) =~= before + seq![pv]);
            assert(pv == spec_post_page(avs[i as int], templates.post@)->Ok_0);
            let tail2 = spec_post_pages(avs.subrange(i + 1, avs.len() as int), templates.post@);
            if tail2 is Ok {
                assert((before + seq![pv]) + tail2->Ok_0 =~= before + (seq![pv] + tail2->Ok_0));
            }
            assert(entries.deep_view() =~= before_e + seq![ev]);
            assert(ev == (avs[i as int].title, spec_blog_url(avs[i as int])));
            assert(spec_entries(avs.take(i + 1)) =~= spec_entries(avs.take(i as int)) + seq![ev]);
            assert(entries.deep_view() =~= spec_entries(avs.take(i + 1)));
        }
        i = i + 1;
    }
    proof {
        assert(avs.subrange(avs.len() as int, avs.len() as int) =~= Seq::<ArticleView>::empty());
        assert(Seq::new(posts@.len(), |k: int| posts@[k]@) + Seq::<(Seq<char>, Seq<char>)>::empty()
            =~= Seq::new(posts@.len(), |k: int| posts@[k]@));
        assert(avs.take(avs.len() as int) =~= avs);
    }
    let index_html = match render_template(
        templates.index.as_str(),
        "{\"parent\": \"base\"}",
    ) {
        None => {
            return Err(ArticleError::TemplateFailure);
        },
        Some(h) => h,
    };
    let lctx = listing_ctx(&entries);
    let listing_html = match render_template(templates.listing.as_str(), lctx.as_str()) {
        None => {
            return Err(ArticleError::TemplateFailure);
        },
        Some(h) => h,
    };
    let mut pages: Vec<Page> = Vec::new();
    pages.push(Page { path: String::from_str("index.html"), content: index_html });
    let mut k: usize = 0;
    let n_posts = posts.len();
    while k < n_posts
        invariant
            0 <= k <= n_posts,
            n_posts == posts@.len(),
            pages@.len() == k + 1,
            forall|t: int| 0 <= t < posts@.len() ==> (#[trigger] posts@[t])@ == spec_post_pages(
                avs,
                templates.post@,
            )->Ok_0[t],
            (spec_post_pages(avs, templates.post@) is Ok),
            posts@.len() == spec_post_pages(avs, templates.post@)->Ok_0.len(),
            pages@[0]@ == ("index.html"@, spec_build_pages(avs, templates.index@,
                templates.listing@, templates.post@)->Ok_0[0].1),
            pages@[0]@.0 == "index.html"@,
            forall|t: int| 1 <= t < pages@.len() ==> (#[trigger] pages@[t])@ == posts@[t - 1]@,
        decreases n_posts - k,
    {
        let p = Page { path: posts[k].path.clone(), content: posts[k].content.clone() };
        pages.push(p);
        k = k + 1;
    }
    pages.push(Page { path: String::from_str("blog/index.html"), content: listing_html });
    proof {
        let ps = spec_build_pages(avs, templates.index@, templates.listing@,
            templates.post@)->Ok_0;
        let pp = spec_post_pages(avs, templates.post@)->Ok_0;
        assert(ps =~= seq![("index.html"@, tpl_html_of(templates.index@,
            spec_index_ctx())->Some_0)] + pp + seq![("blog/index.html"@, tpl_html_of(
            templates.listing@, spec_listing_ctx(spec_entries(avs)))->Some_0)]);
        assert forall|t: int| 0 <= t < ps.len() implies (#[trigger] pages@[t])@ == ps[t] by {
            if t == 0 {
            } else if t <= pp.len() {
                assert(pages@[t]@ == posts@[t - 1]@);
            }
        }
    }
    Ok(pages)
}

// ---------------------------------------------------------------------------
// finding an article by its canonical identifier
// ---------------------------------------------------------------------------
/// Finds the first article whose canonical identifier is `name`.
pub fn find_by_filename(articles: &Vec<Article>, name: &str) -> (r: Option<usize>)
    requires
        forall|i: int| 0 <= i < articles@.len() ==> (#[trigger] articles@[i]).wf(),
    ensures
        (match r {
            Some(i) => i < articles@.len() && spec_filename(articles@[i as int]@) == name@
                && (forall|k: int|
                0 <= k < i ==> spec_filename(#[trigger] articles@[k]@) != name@),
            None => forall|k: int|
                0 <= k < articles@.len() ==> spec_filename(#[trigger] articles@[k]@) != name@,
        }),
{
    let mut i: usize = 0;
    while i < articles.len()
        invariant
            0 <= i <= articles.len(),
            forall|k: int| 0 <= k < articles@.len() ==> (#[trigger] articles@[k]).wf(),
            forall|k: int| 0 <= k < i ==> spec_filename(#[trigger] articles@[k]@) != name@,
        decreases articles.len() - i,
    {
        let id = articles[i].filename();
        if str_eq(id.as_str(), name) {
            return Some(i);
        }
        i = i + 1;
    }
    None
}

// ---------------------------------------------------------------------------
// saving a new article
// ---------------------------------------------------------------------------
/// The source file name a saved article is written under.
pub open spec fn spec_save_name(v: ArticleView) -> Seq<char> {
    spec_filename(v) + ".md"@
}

/// Decides a save: where the article's source file goes and what it holds,
/// or the error owed. A save never overwrites: an existing destination file
/// fails it, and so does a missing destination directory.
pub fn plan_save(article: &Article, dir_exists: bool, dest_exists: bool) -> (r: Result<
    (String, String),
    ArticleError,
>)
    requires
        article.wf(),
    ensures
        !dir_exists ==> r == Err::<(String, String), ArticleError>(
            ArticleError::OutputDirectoryInvalid,
        ),
        dir_exists && dest_exists ==> r == Err::<(String, String), ArticleError>(
            ArticleError::OutputAlreadyExists,
        ),
        dir_exists && !dest_exists ==> (r matches Ok(p) && p.0@ == spec_save_name(article@)
            && p.1@ == spec_encode(article@)),
{
    if !dir_exists {
        return Err(ArticleError::OutputDirectoryInvalid);
    }
    if dest_exists {
        return Err(ArticleError::OutputAlreadyExists);
    }
    let mut name = article.filename();
    name.append(".md");
    proof {
        assert(name@ =~= spec_save_name(article@));
    }
    let text = article.encode();
    Ok((name, text))
}

/// A name is among a directory's file names.
pub open spec fn spec_contains(names: Seq<Seq<char>>, name: Seq<char>) -> bool {
    exists|i: int| 0 <= i < names.len() && names[i] == name
}

/// The model of a destination directory of article source files: the files
/// it holds, each a name with its text.
pub struct PostsDir {
    pub files: Vec<(String, String)>,
}

impl PostsDir {
    /// The names of the files the directory holds.
    pub open spec fn names(&self) -> Seq<Seq<char>> {
        Seq::new(self.files@.len(), |i: int| self.files@[i].0@)
    }

    /// An empty directory.
    pub fn new() -> (r: PostsDir)
        ensures
            r.names() =~= Seq::<Seq<char>>::empty(),
    {
        PostsDir { files: Vec::new() }
    }

    /// Whether the directory holds a file of this name.
    pub fn contains_name(&self, name: &str) -> (r: bool)
        ensures
            r == spec_contains(self.names(), name@),
    {
        let mut i: usize = 0;
        while i < self.files.len()
            invariant
                0 <= i <= self.files@.len(),
                forall|k: int| 0 <= k < i ==> self.names()[k] != name@,
            decreases self.files@.len() - i,
        {
            if str_eq(self.files[i].0.as_str(), name) {
                assert(self.names()[i as int] == name@);
                return true;
            }
            i = i + 1;
        }
        false
    }

    /// The "save new article" operation: appends the encoded article under
    /// its canonical source name, leaving every pre-existing file untouched —
    /// unless a file of that name already exists, in which case nothing
    /// changes and the save fails.
    pub fn save_article(&mut self, article: &Article) -> (r: Result<String, ArticleError>)
        requires
            article.wf(),
        ensures
            spec_contains(old(self).names(), spec_save_name(article@)) ==> r == Err::<
                String,
                ArticleError,
            >(ArticleError::OutputAlreadyExists) && final(self).files@ == old(self).files@,
            !spec_contains(old(self).names(), spec_save_name(article@)) ==> (r matches Ok(name)
                && name@ == spec_save_name(article@) && final(self).names() =~= old(self).names()
                + seq![spec_save_name(article@)] && final(self).files@.len() == old(
                self,
            ).files@.len() + 1 && final(self).files@.subrange(0, old(self).files@.len() as int)
                == old(self).files@ && final(self).files@.last().0@ == spec_save_name(article@)
                && final(self).files@.last().1@ == spec_encode(article@)),
    {
        let mut name = article.filename();
        name.append(".md");
        proof {
            assert(name@ =~= spec_save_name(article@));
        }
        if self.contains_name(name.as_str()) {
            return Err(ArticleError::OutputAlreadyExists);
        }
        let text = article.encode();
        let out = name.clone();
        self.files.push((name, text));
        proof {
            assert(final(self).names() =~= old(self).names() + seq![spec_save_name(article@)]);
            assert(final(self).files@.subrange(0, old(self).files@.len() as int) =~= old(
                self,
            ).files@);
        }
        Ok(out)
    }
}

// ---------------------------------------------------------------------------
// laws
// ---------------------------------------------------------------------------
/// Building is idempotent: the pages are a function of the articles and the
/// template texts alone, so two builds over the same unchanged inputs — as
/// `build_pages`'s contract pins both runs to `spec_build_pages` — produce
/// identical output, byte for byte.
pub proof fn lemma_build_idempotent(
    arts: Seq<ArticleView>,
    index_tpl: Seq<char>,
    listing_tpl: Seq<char>,
    post_tpl: Seq<char>,
    r1: Result<Seq<(Seq<char>, Seq<char>)>, ArticleError>,
    r2: Result<Seq<(Seq<char>, Seq<char>)>, ArticleError>,
)
    requires
        r1 == spec_build_pages(arts, index_tpl, listing_tpl, post_tpl),
        r2 == spec_build_pages(arts, index_tpl, listing_tpl, post_tpl),
    ensures
        r1 == r2,
{
}

/// Two articles with the same title and the same date target the same source
/// file, so once the first save has added that file to the directory, saving
/// the second finds its destination taken — and `save_article`'s contract
/// then owes `OutputAlreadyExists`.
pub proof fn lemma_second_save_collides(names: Seq<Seq<char>>, v1: ArticleView, v2: ArticleView)
    requires
        v1.title == v2.title,
        v1.date == v2.date,
    ensures
        spec_save_name(v1) == spec_save_name(v2),
        spec_contains(names + seq![spec_save_name(v1)], spec_save_name(v2)),
{
    let all = names + seq![spec_save_name(v1)];
    assert(all[names.len() as int] == spec_save_name(v2));
}

} // verus!
