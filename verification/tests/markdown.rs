use zine::code_blocks::Fenced;
use zine::data::ZineData;
use zine::date::Date;
use zine::entity::{Author, MarkdownConfig, MetaArticle, Site, Theme};
use zine::markdown::render::{MarkdownRender, Tag, Visiting};
use zine::markdown::ZineMarkdownVisitor;

fn named_author(id: &str, name: &str, avatar: Option<&str>) -> Author {
    Author {
        id: id.to_string(),
        name: Some(name.to_string()),
        avatar: avatar.map(|a| a.to_string()),
        bio: None,
        editor: false,
        team: false,
    }
}

fn meta(slug: &str, path: Option<&str>, title: &str, cover: Option<&str>) -> MetaArticle {
    MetaArticle {
        file: format!("{slug}.md"),
        slug: slug.to_string(),
        path: path.map(|p| p.to_string()),
        title: title.to_string(),
        author: None,
        cover: cover.map(|c| c.to_string()),
        pub_date: Date { year: 2022, month: 1, day: 1 },
    }
}

fn sample_data() -> ZineData {
    let mut data = ZineData::default();
    data.set_authors(vec![
        named_author("alice", "Alice", Some("/alice.png")),
        named_author("ALICE", "Second", None),
        named_author("bob", "Bob", None),
    ])
    .set_articles(vec![
        ("issue-1".to_string(), meta("first", None, "First", Some("/cover.png"))),
        ("issue-1".to_string(), meta("second", Some("/custom/path"), "Second", None)),
    ])
    .set_topics(vec!["Rust".to_string(), "go".to_string()]);
    data
}

#[test]
fn data_defaults_are_empty() {
    let data = ZineData::default();
    assert!(data.get_authors().is_empty());
    assert_eq!(data.get_site().url, "http://localhost");
    assert_eq!(data.get_theme().primary_color, "#2563eb");
    assert!(!data.is_valid_topic("rust"));
}

#[test]
fn data_reads_back_what_was_set() {
    let mut data = sample_data();
    let mut site = Site::default();
    site.name = "My zine".to_string();
    let mut theme = Theme::default();
    theme.main_color = "#000000".to_string();
    data.set_site(site).set_theme(theme);
    assert_eq!(data.get_site().name, "My zine");
    assert_eq!(data.get_theme().main_color, "#000000");
    let ids: Vec<&str> = data.get_authors().iter().map(|a| a.id.as_str()).collect();
    assert_eq!(ids, vec!["alice", "ALICE", "bob"]);
}

#[test]
fn author_lookup_ignores_case_and_takes_the_first() {
    let data = sample_data();
    assert_eq!(data.get_author_by_id("Alice").map(|a| a.name.as_deref()), Some(Some("Alice")));
    assert_eq!(data.get_author_by_id("BOB").map(|a| a.id.as_str()), Some("bob"));
    assert!(data.get_author_by_id("carol").is_none());
}

#[test]
fn article_lookup_by_path_or_slug() {
    let data = sample_data();
    assert_eq!(data.get_article_by_path("/issue-1/first").map(|m| m.title), Some("First".to_string()));
    assert_eq!(data.get_article_by_path("/custom/path").map(|m| m.title), Some("Second".to_string()));
    assert_eq!(data.get_article_by_path("/issue-1/second").map(|m| m.title), Some("Second".to_string()));
    assert!(data.get_article_by_path("/issue-2/first").is_none());
}

#[test]
fn topics_are_valid_ignoring_case() {
    let data = sample_data();
    assert!(data.is_valid_topic("rust"));
    assert!(data.is_valid_topic("GO"));
    assert!(!data.is_valid_topic("java"));
}

#[test]
fn inline_code_renders_author_links() {
    let data = sample_data();
    let html = ZineMarkdownVisitor.visit_code(&data, "@alice").unwrap();
    assert_eq!(
        html,
        "<a class=\"author-code\" href=\"/@alice\">\n<img src=\"/alice.png\" alt=\"avatar\" loading=\"lazy\">\n<span>Alice</span>\n</a>\n"
    );
    let html = ZineMarkdownVisitor.visit_code(&data, "@Bob").unwrap();
    assert_eq!(html, "<a class=\"author-code\" href=\"/@bob\">\n<span>Bob</span>\n</a>\n");
    assert!(ZineMarkdownVisitor.visit_code(&data, "@carol").is_none());
}

#[test]
fn inline_code_renders_article_links() {
    let data = sample_data();
    let html = ZineMarkdownVisitor.visit_code(&data, "/issue-1/first").unwrap();
    assert_eq!(
        html,
        "<a class=\"inline-link\"\n                    href=\"/issue-1/first\"\n                    data-title=\"First\"\n                    data-url=\"/issue-1/first\"\n                    data-image=\"/cover.png\">\n                    First\n            </a>\n"
    );
    assert!(ZineMarkdownVisitor.visit_code(&data, "/nowhere").is_none());
}

#[test]
fn inline_code_renders_topic_links() {
    let data = sample_data();
    assert_eq!(
        ZineMarkdownVisitor.visit_code(&data, "#rust").unwrap(),
        "<a href=\"/topic/rust\">#rust</a>"
    );
    assert!(ZineMarkdownVisitor.visit_code(&data, "#java").is_none());
    assert!(ZineMarkdownVisitor.visit_code(&data, "plain").is_none());
    assert!(ZineMarkdownVisitor.visit_code(&data, "").is_none());
}

fn is_ignore<E>(v: &Visiting<E>) -> bool {
    matches!(v, Visiting::Ignore)
}

fn is_not_changed<E>(v: &Visiting<E>) -> bool {
    matches!(v, Visiting::NotChanged)
}

#[test]
fn headings_build_the_table_of_contents() {
    let config = MarkdownConfig::default();
    let data = sample_data();
    let mut render: MarkdownRender<u32> = MarkdownRender::new(&config);

    assert!(is_ignore(&render.visit_start_tag(Tag::Heading { level: 2, id: None }, 1)));
    assert!(is_ignore(&render.visit_text("Hello World", 2)));
    assert!(is_ignore(&render.visit_code(&data, "code", 3)));
    match render.visit_end_tag(Tag::Heading { level: 2, id: None }, 4) {
        Visiting::Heading { level, id, events } => {
            assert_eq!(level, 2);
            assert_eq!(id, "hello-worldcode");
            assert_eq!(events, vec![2, 3]);
        },
        _ => panic!("a heading was expected"),
    }

    assert!(is_ignore(&render.visit_start_tag(Tag::Heading { level: 4, id: Some("given".to_string()) }, 5)));
    assert!(is_ignore(&render.visit_start_tag(Tag::Other, 6)));
    assert!(is_ignore(&render.visit_text("Deep", 7)));
    assert!(is_ignore(&render.visit_end_tag(Tag::Other, 8)));
    match render.visit_end_tag(Tag::Heading { level: 4, id: None }, 9) {
        Visiting::Heading { level, id, events } => {
            assert_eq!(level, 4);
            assert_eq!(id, "given");
            assert_eq!(events, vec![6, 7, 8]);
        },
        _ => panic!("a heading was expected"),
    }

    assert!(is_ignore(&render.visit_start_tag(Tag::Heading { level: 1, id: None }, 10)));
    assert!(is_ignore(&render.visit_text("Top", 11)));
    assert!(matches!(render.visit_end_tag(Tag::Heading { level: 1, id: None }, 12), Visiting::Heading { .. }));

    render.rebuild_toc_depth();
    let toc: Vec<(usize, usize, Option<String>, String)> =
        render.toc.iter().map(|h| (h.depth, h.level, h.id.clone(), h.title.clone())).collect();
    assert_eq!(
        toc,
        vec![
            (2, 2, Some("hello-worldcode".to_string()), "Hello Worldcode".to_string()),
            (3, 4, Some("given".to_string()), "Deep".to_string()),
            (1, 1, Some("top".to_string()), "Top".to_string()),
        ]
    );
    assert_eq!(render.levels, vec![1, 2, 4]);
}

#[test]
fn images_are_loaded_lazily() {
    let config = MarkdownConfig::default();
    let mut render: MarkdownRender<u32> = MarkdownRender::new(&config);
    assert!(is_ignore(&render.visit_start_tag(Tag::Image { src: "/a.png".to_string(), title: "T".to_string() }, 1)));
    assert!(is_ignore(&render.visit_text("An image", 2)));
    match render.visit_end_tag(Tag::Image { src: "/a.png".to_string(), title: "T".to_string() }, 3) {
        Visiting::Html(h) => assert_eq!(h, "<img src=\"/a.png\" alt=\"An image\" title=\"T\" loading=\"lazy\">"),
        _ => panic!("html was expected"),
    }
    assert!(!render.processing_image);
    match render.visit_end_tag(Tag::Image { src: "/b.png".to_string(), title: String::new() }, 4) {
        Visiting::Html(h) => assert_eq!(h, "<img src=\"/b.png\" alt=\"\" title=\"\" loading=\"lazy\">"),
        _ => panic!("html was expected"),
    }
}

#[test]
fn code_blocks_are_highlighted_or_rendered() {
    let mut config = MarkdownConfig::default();
    let data = sample_data();
    {
        let mut render: MarkdownRender<u32> = MarkdownRender::new(&config);
        assert!(is_ignore(&render.visit_start_tag(Tag::FencedCodeBlock("rust".to_string()), 1)));
        assert!(render.fence_is_valid());
        match render.visit_text("fn main() {}", 2) {
            Visiting::Highlight { lang, text } => {
                assert_eq!(lang, "rust");
                assert_eq!(text, "fn main() {}");
            },
            _ => panic!("a highlight was expected"),
        }
        assert!(is_ignore(&render.visit_end_tag(Tag::FencedCodeBlock("rust".to_string()), 3)));
        assert!(is_not_changed(&render.visit_text("after", 4)));

        assert!(is_ignore(&render.visit_start_tag(Tag::FencedCodeBlock("callout, theme: red".to_string()), 5)));
        match render.visit_text("Note", 6) {
            Visiting::CustomBlock { fenced, text } => {
                assert_eq!(fenced, Fenced::parse("callout, theme: red").unwrap());
                assert_eq!(text, "Note");
            },
            _ => panic!("a custom block was expected"),
        }
        assert!(is_ignore(&render.visit_end_tag(Tag::IndentedCodeBlock, 7)));
        assert!(render.code_block_fenced.is_none());

        assert!(is_ignore(&render.visit_start_tag(Tag::FencedCodeBlock(",bad".to_string()), 8)));
        assert!(!render.fence_is_valid());
        assert!(is_not_changed(&render.visit_code(&data, "#rust", 9)));
        assert!(matches!(render.visit_code(&data, "@bob", 10), Visiting::Html(_)));
        assert!(is_not_changed(&render.visit_start_tag(Tag::Other, 11)));
    }
    config.highlight_code = false;
    let mut render: MarkdownRender<u32> = MarkdownRender::new(&config);
    render.visit_start_tag(Tag::FencedCodeBlock("rust".to_string()), 1);
    match render.visit_text("x < y", 2) {
        Visiting::Html(h) => assert_eq!(h, "<pre>x < y</pre>"),
        _ => panic!("html was expected"),
    }
}

#[test]
fn rendered_custom_blocks_fall_back_to_the_event() {
    assert!(matches!(Visiting::<u32>::from_rendered(Some("<p>x</p>".to_string())), Visiting::Html(h) if h == "<p>x</p>"));
    assert!(is_not_changed(&Visiting::<u32>::from_rendered(None)));
}
