use articles::article::{default_config, Article, ArticleConfig};
use articles::errors::ArticleError;
use articles::site::{blog_url, build_pages, find_by_filename, plan_save, PostsDir, SiteTemplates};

fn config() -> ArticleConfig {
    default_config().expect("the timezone table knows US/Pacific")
}

fn sample(title: &str, date: &str, body: &str) -> Article {
    let raw = format!("---\ntitle: {}\ndate: {}\n---\n{}", title, date, body);
    Article::decode(raw.as_str(), &config()).expect("well-formed document")
}

fn templates() -> SiteTemplates {
    SiteTemplates {
        index: String::from("home of {{parent}}"),
        listing: String::from("{{#each posts}}{{title}} -> {{url}};{{/each}}"),
        post: String::from("<main><h1>{{title}}</h1>{{{content}}}</main>"),
    }
}

#[test]
fn renders_markdown_to_html() {
    let a = sample("T", "2024-03-01", "# Heading\n\nwords");
    let html = a.render_html().expect("plain markdown renders");
    assert!(html.contains("<h1"));
    assert!(html.contains("words"));
    assert_ne!(html, a.content);
}

#[test]
fn builds_index_posts_and_listing() {
    let arts = vec![
        sample("First Post", "2024-03-01", "alpha"),
        sample("Second, Post", "2024-03-02", "beta"),
    ];
    let pages = build_pages(&arts, &templates()).expect("templates render");
    assert_eq!(pages.len(), 4);
    assert_eq!(pages[0].path, "index.html");
    assert_eq!(pages[0].content, "home of base");
    assert_eq!(pages[1].path, "blog/2024-03-01-first-post.html");
    assert!(pages[1].content.contains("<h1>First Post</h1>"));
    assert!(pages[1].content.contains("alpha"));
    assert_eq!(pages[2].path, "blog/2024-03-02-second-post.html");
    assert_eq!(pages[3].path, "blog/index.html");
    assert_eq!(
        pages[3].content,
        "First Post -> /blog/2024/03/01/first-post;Second, Post -> /blog/2024/03/02/second-post;",
    );
}

#[test]
fn building_twice_is_byte_identical() {
    let arts = vec![
        sample("One", "2024-03-01", "# a\n\n- x\n- y"),
        sample("Two", "2024-03-02", "plain"),
    ];
    let first = build_pages(&arts, &templates()).expect("templates render");
    let second = build_pages(&arts, &templates()).expect("templates render");
    assert_eq!(first.len(), second.len());
    for (p, q) in first.iter().zip(second.iter()) {
        assert_eq!(p.path, q.path);
        assert_eq!(p.content, q.content);
    }
}

#[test]
fn a_broken_template_fails_the_build() {
    let arts = vec![sample("T", "2024-03-01", "x")];
    let mut t = templates();
    t.post = String::from("{{#if}}");
    let r = build_pages(&arts, &t);
    assert!(matches!(r, Err(ArticleError::TemplateFailure)));
}

#[test]
fn deeply_nested_markdown_fails_to_render() {
    let body = format!("{} x", ">".repeat(40));
    let a = sample("T", "2024-03-01", body.as_str());
    let r = a.render_html();
    assert!(matches!(r, Err(ArticleError::ContentRenderFailure)));
}

#[test]
fn urls_use_zero_padded_numbers() {
    let a = sample("Hello, World", "2024-03-01", "x");
    assert_eq!(blog_url(&a), "/blog/2024/03/01/hello-world");
}

#[test]
fn finds_an_article_by_its_identifier() {
    let arts = vec![
        sample("One", "2024-03-01", "x"),
        sample("Two", "2024-03-02", "y"),
    ];
    assert_eq!(find_by_filename(&arts, "2024-03-02-two"), Some(1));
    assert_eq!(find_by_filename(&arts, "2024-03-03-two"), None);
}

#[test]
fn plan_save_rejects_missing_directory() {
    let a = sample("T", "2024-03-01", "x");
    let r = plan_save(&a, false, false);
    assert!(matches!(r, Err(ArticleError::OutputDirectoryInvalid)));
}

#[test]
fn plan_save_never_overwrites() {
    let a = sample("T", "2024-03-01", "x");
    let r = plan_save(&a, true, true);
    assert!(matches!(r, Err(ArticleError::OutputAlreadyExists)));
}

#[test]
fn plan_save_names_and_encodes() {
    let a = sample("Hello, World", "2024-03-01", "x");
    let (name, text) = plan_save(&a, true, false).expect("fresh destination");
    assert_eq!(name, "2024-03-01-hello-world.md");
    assert_eq!(text, a.encode());
}

#[test]
fn second_save_with_same_title_and_date_fails() {
    let cfg = config();
    let mut dir = PostsDir::new();
    let a1 = Article::builder()
        .title(String::from("Same Title"))
        .content(String::from("first"))
        .build(&cfg);
    let mut a2 = Article::builder()
        .title(String::from("Same Title"))
        .content(String::from("second"))
        .build(&cfg);
    a2.date = a1.date;
    let saved = dir.save_article(&a1).expect("empty directory accepts the first save");
    assert!(saved.ends_with(".md"));
    let r = dir.save_article(&a2);
    assert!(matches!(r, Err(ArticleError::OutputAlreadyExists)));
    assert_eq!(dir.files.len(), 1);
    assert_eq!(dir.files[0].1, a1.encode());
}
