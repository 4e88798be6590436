use zine::date::Date;
use zine::entity::{Article, Author, AuthorId, Issue, List, MetaArticle, Page, Topic};
use zine::helpers::{capitalize, split_styles};
use zine::meta::Meta;
use zine::options::OptionMap;

fn article(slug: &str, path: Option<&str>) -> Article {
    Article {
        meta: MetaArticle {
            file: "1-first.md".to_string(),
            slug: slug.to_string(),
            path: path.map(|p| p.to_string()),
            title: "First".to_string(),
            author: None,
            cover: None,
            pub_date: Date { year: 2022, month: 5, day: 6 },
        },
        markdown: "Hello Zine".to_string(),
        topics: vec![],
        featured: false,
        publish: true,
        canonical: None,
        i18n: vec![],
    }
}

#[test]
fn test_author_name() {
    let one: String = serde_json::from_str("\"Alice\"").unwrap();
    let single = AuthorId::One(one);
    assert!(single.is_author("Alice"));
    assert!(!single.is_author("Bob"));
    let names: Vec<String> = serde_json::from_str("[\"Alice\",\"Bob\"]").unwrap();
    assert!(matches!(
        AuthorId::from_names(names),
        AuthorId::List(names) if names == vec![String::from("Alice"), String::from("Bob")],
    ));
    let names: Vec<String> = serde_json::from_str("[\"Alice\",\"Bob\", \"Alice\"]").unwrap();
    assert!(matches!(
        AuthorId::from_names(names),
        AuthorId::List(names) if names == vec![String::from("Alice"), String::from("Bob")],
    ));
    let names: Vec<String> = serde_json::from_str("[]").unwrap();
    assert!(matches!(AuthorId::from_names(names), AuthorId::List(names) if names.is_empty()));

    let a = AuthorId::One(String::from("John"));
    assert!(a.is_author("John"));
    assert!(!a.is_author("Alice"));
    // An `AuthorId` is written as its one name or as its list of names.
    if let AuthorId::One(name) = &a {
        assert_eq!("\"John\"", serde_json::to_string(name).unwrap());
    }

    let a = AuthorId::List(vec![String::from("Alice"), String::from("Bob")]);
    assert!(a.is_author("Alice"));
    assert!(!a.is_author("John"));
    if let AuthorId::List(names) = &a {
        assert_eq!("[\"Alice\",\"Bob\"]", serde_json::to_string(names).unwrap());
    }
}

#[test]
fn author_ids_ignore_ascii_case() {
    assert!(AuthorId::One("John".to_string()).is_author("jOHN"));
    assert!(AuthorId::List(vec!["a".to_string(), "Bob".to_string()]).is_author("BOB"));
    assert!(!AuthorId::List(vec![]).is_author("bob"));
}

#[test]
fn test_parse_page_title() {
    for markdown in [
        "  # Title\n    aaa",
        "# Title\n    aaa",
        "## Title\n    aaa",
        "\n\n    # Title\n    aaa",
        "\n    # Title\n    aaa",
        "\n    # Title\n    ## Subtitle\n    aaa",
    ] {
        let page = Page { markdown: markdown.to_owned(), file_path: String::new() };
        assert_eq!("Title", page.title());
    }
}

#[test]
fn page_slug_and_meta() {
    let page = Page { markdown: "# About us\nWe write.".to_string(), file_path: "team/about.md".to_string() };
    assert_eq!(page.slug(), "team/about");
    let meta = page.page_meta();
    assert_eq!(meta.title, "About us");
    assert_eq!(meta.description, "We write.");
    assert_eq!(meta.url.as_deref(), Some("team/about"));
    assert!(meta.image.is_none());
}

#[test]
fn topic_and_author_pages() {
    let topic = Topic { id: "WebAssembly".to_string(), name: None, description: Some("Wasm".to_string()) };
    assert_eq!(topic.dir(), "webassembly");
    let meta = topic.page_meta();
    assert_eq!(meta.title, "WebAssembly");
    assert_eq!(meta.description, "Wasm");
    assert_eq!(meta.url.as_deref(), Some("/topic/webassembly"));

    let mut topic = Topic { id: "rust".to_string(), name: None, description: None };
    topic.parse();
    assert_eq!(topic.name.as_deref(), Some("Rust"));
    assert_eq!(topic.page_meta().description, "");

    let author = Author {
        id: "Alice".to_string(),
        name: None,
        avatar: None,
        bio: Some("I **write** code.".to_string()),
        editor: true,
        team: false,
    };
    assert_eq!(author.slug(), "@alice");
    let meta = author.page_meta();
    assert_eq!(meta.title, "Alice");
    assert_eq!(meta.description, "I write code.");
    assert_eq!(meta.url.as_deref(), Some("@alice"));
    assert_eq!(author.duplicate(), author);
}

#[test]
fn article_pages() {
    let a = article("first", None);
    assert_eq!(a.page_url("issue-1"), "issue-1/first");
    let meta = a.page_meta("issue-1");
    assert_eq!(meta.title, "First");
    assert_eq!(meta.description, "Hello Zine");
    assert_eq!(meta.url.as_deref(), Some("issue-1/first"));
    let b = article("first", Some("/about/first"));
    assert_eq!(b.page_url("issue-1"), "about/first");
}

#[test]
fn article_prepare_fills_defaults() {
    let mut a = article("", Some("custom"));
    a.prepare(&Some("/static/cover.svg".to_string()));
    assert_eq!(a.meta.slug, "");
    assert_eq!(a.meta.path.as_deref(), Some("/custom"));
    assert_eq!(a.meta.cover.as_deref(), Some("/static/cover.svg"));

    let mut b = article("", None);
    b.meta.cover = Some("/mine.png".to_string());
    b.prepare(&None);
    assert_eq!(b.meta.slug, "1-first");
    assert_eq!(b.meta.cover.as_deref(), Some("/mine.png"));
}

#[test]
fn article_publish_date_is_required() {
    let mut a = article("first", None);
    assert!(a.check_pub_date().is_ok());
    a.meta.pub_date = MetaArticle::default_pub_date();
    assert!(a.meta.is_default_pub_date());
    assert_eq!(a.check_pub_date().unwrap_err(), "`pub_date` is required for article `First`");
}

#[test]
fn issue_builder_defaults() {
    let mut issue = Issue::new();
    assert_eq!(issue.title, "Issue");
    assert!(issue.publish);
    issue.set_issue_number(1).set_title("Some Magical Title");
    assert_eq!(issue.title, "Some Magical Title");
    assert_eq!(issue.number, 1);
    assert_eq!(issue.dir, "some-magical-title");
    issue.add_article(article("first", None));
    issue.finalize();
    assert_eq!(issue.dir, "some-magical-title-1");
    assert_eq!(issue.articles.len(), 1);
}

#[test]
fn issue_page_meta_uses_the_intro() {
    let mut issue = Issue::new();
    issue.slug = "issue-3".to_string();
    issue.intro = Some("# Intro\nThe third one.".to_string());
    let meta = issue.page_meta();
    assert_eq!(meta.title, "Issue");
    assert_eq!(meta.description, "The third one.");
    assert_eq!(meta.url.as_deref(), Some("issue-3"));
}

#[test]
fn lists_count_articles() {
    let author = Author { id: "a".to_string(), name: None, avatar: None, bio: None, editor: false, team: false };
    let mut list = List::author_list();
    assert_eq!(list.name, "authors");
    list.push_author(&author, 3);
    assert_eq!(list.entities.len(), 1);
    assert_eq!(list.entities[0].article_count, 3);
    let topics = List::topic_list();
    assert_eq!(topics.template, "topic-list.jinja");
    assert_eq!(topics.fluent_key, "topic-list");
}

#[test]
fn capitalize_first_letter_only() {
    assert_eq!(capitalize("hello WORLD"), "Hello world");
    assert_eq!(capitalize(""), "");
    assert_eq!(capitalize("ärger"), "Ärger");
}

#[test]
fn split_styles_doc_example() {
    let pair = split_styles("color: #abcdef; font-size: 14px; background-image: url('/test.png');");
    assert_eq!(pair.get("color").unwrap(), "#abcdef");
    assert_eq!(pair.get("font-size").unwrap(), "14px");
    assert_eq!(pair.get("background-image").unwrap(), "url('/test.png')");
    assert_eq!(pair.get("width"), None);

    let pair = split_styles("invalid");
    assert!(pair.is_empty());
}

#[test]
fn options_merge_by_key() {
    let mut m = OptionMap::new();
    m.insert("a".to_string(), "1".to_string());
    m.insert("b".to_string(), "2".to_string());
    m.insert("a".to_string(), "3".to_string());
    assert_eq!(m.get("a").unwrap(), "3");
    assert_eq!(
        m.merged_entries(),
        vec![("a".to_string(), "3".to_string()), ("b".to_string(), "2".to_string())]
    );
}

#[test]
fn meta_fill_and_truncate() {
    let mut meta = Meta {
        title: "t".repeat(250),
        description: "d".repeat(10),
        url: None,
        image: None,
    };
    assert!(meta.is_filled());
    meta.truncate();
    assert_eq!(meta.title.len(), 200);
    assert_eq!(meta.description.len(), 10);
    meta.description.clear();
    assert!(!meta.is_filled());
}

#[test]
fn seasons_describe_and_sort() {
    use_season();
}

fn use_season() {
    let mut late = article("late", None);
    late.meta.pub_date = Date { year: 2023, month: 1, day: 1 };
    let early = article("early", None);
    let mut season = zine::entity::Season {
        slug: "s1".to_string(),
        number: 1,
        title: "Season 1".to_string(),
        intro: Some(format!("**Bold** intro {}", "x".repeat(300))),
        cover: None,
        path: "season-1".to_string(),
        articles: vec![late, early],
    };
    season.sort_articles();
    assert_eq!(season.articles[0].meta.slug, "early");
    let (prev, next) = season.sibling_articles(0);
    assert!(prev.is_none());
    assert_eq!(next.map(|a| a.meta.slug.as_str()), Some("late"));
    let description = season.description();
    assert!(description.starts_with("Bold intro x"));
    assert_eq!(description.chars().count(), 200 - 4);
    assert_eq!(season.page_meta().url.as_deref(), Some("s1"));
    season.intro = None;
    assert_eq!(season.description(), "");
}

#[test]
fn issue_default_is_new() {
    let issue = Issue::default();
    assert_eq!(issue.title, "Issue");
    assert_eq!(issue.number, 0);
    assert!(issue.publish);
    assert!(issue.slug.is_empty() && issue.dir.is_empty() && issue.articles.is_empty());
}

#[test]
fn option_maps_equal_by_their_options() {
    let mut a = OptionMap::new();
    a.insert("x".to_string(), "1".to_string());
    a.insert("y".to_string(), "2".to_string());
    let mut b = OptionMap::new();
    b.insert("y".to_string(), "2".to_string());
    b.insert("x".to_string(), "0".to_string());
    b.insert("x".to_string(), "1".to_string());
    assert_eq!(a, b);
    b.insert("x".to_string(), "3".to_string());
    assert_ne!(a, b);
    let mut c = a.clone();
    c.insert("z".to_string(), "4".to_string());
    assert_ne!(a, c);
    assert_ne!(c, a);
}

#[test]
fn capitalize_ascii_keeps_length() {
    assert_eq!(capitalize("hELLO world"), "Hello world");
    assert_eq!(capitalize("x"), "X");
    assert_eq!(capitalize("1abc"), "1abc");
    assert_eq!(capitalize(""), "");
}
