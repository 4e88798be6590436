use zine::date::Date;
use zine::entity::zine::issue_dir;
use zine::entity::{Article, Author, AuthorId, Issue, MarkdownConfig, MetaArticle, Page, Site, Theme, Topic, Zine};
use zine::mode::Mode;

fn date(year: i32, month: u8, day: u8) -> Date {
    Date { year, month, day }
}

fn article(slug: &str, pub_date: Date, author: Option<AuthorId>, topics: &[&str], featured: bool) -> Article {
    Article {
        meta: MetaArticle {
            file: format!("{slug}.md"),
            slug: slug.to_string(),
            path: None,
            title: format!("Title of {slug}"),
            author,
            cover: None,
            pub_date,
        },
        markdown: format!("Body of {slug}"),
        topics: topics.iter().map(|t| t.to_string()).collect(),
        featured,
        publish: true,
        canonical: None,
        i18n: Vec::new(),
    }
}

fn issue(slug: &str, number: u32, articles: Vec<Article>) -> Issue {
    let mut issue = Issue::new();
    issue.slug = slug.to_string();
    issue.number = number;
    issue.title = format!("Issue {number}");
    issue.articles = articles;
    issue
}

fn author(name: Option<&str>, avatar: Option<&str>) -> Author {
    Author {
        id: String::new(),
        name: name.map(|n| n.to_string()),
        avatar: avatar.map(|a| a.to_string()),
        bio: None,
        editor: false,
        team: false,
    }
}

fn sample_zine() -> Zine {
    let mut a1 = article("a1", date(2022, 1, 2), Some(AuthorId::One("Alice".to_string())), &["rust"], false);
    let mut tr = article("a1-zh", date(2022, 1, 5), Some(AuthorId::One("alice".to_string())), &["rust"], false);
    tr.meta.title = "Translated".to_string();
    a1.i18n.push(("zh".to_string(), tr));
    let mut a2 = article(
        "a2",
        date(2022, 3, 1),
        Some(AuthorId::List(vec!["bob".to_string(), "ALICE".to_string()])),
        &["go"],
        true,
    );
    a2.meta.path = Some("/custom".to_string());
    let mut hidden = article("hidden", date(2022, 4, 1), Some(AuthorId::One("alice".to_string())), &["rust"], true);
    hidden.publish = false;
    let mut first = issue("issue-1", 1, vec![a1, a2, hidden]);
    first.intro = Some("The intro".to_string());
    first.pub_date = Some(date(2022, 2, 1));
    Zine {
        site: Site::default(),
        theme: Theme::default(),
        authors: vec![
            ("alice".to_string(), author(Some("Alice"), None)),
            ("bob".to_string(), author(Some("Bob"), None)),
        ],
        issues: vec![first],
        topics: vec![("rust".to_string(), Topic { id: "rust".to_string(), name: None, description: None })],
        pages: vec![Page { markdown: "# About".to_string(), file_path: "about.md".to_string() }],
        markdown_config: MarkdownConfig::default(),
    }
}

#[test]
fn sitemap_lists_every_page() {
    let zine = sample_zine();
    let entries = zine.sitemap_entries(Mode::Build);
    assert_eq!(
        entries,
        vec![
            "http://localhost/",
            "http://localhost/issue-1/",
            "http://localhost/issue-1/a1",
            "http://localhost/issue-1/a1-zh",
            "http://localhost/custom",
            "http://localhost/authors/",
            "http://localhost/@alice/",
            "http://localhost/@bob/",
            "http://localhost/topics/",
            "http://localhost/topic/rust/",
            "http://localhost/about/",
        ]
    );
}

#[test]
fn sitemap_in_serve_mode_includes_unpublished_articles() {
    let zine = sample_zine();
    let entries = zine.sitemap_entries(Mode::Serve);
    assert!(entries.contains(&"http://localhost/issue-1/hidden".to_string()));
}

#[test]
fn feed_is_latest_first_and_limited() {
    let zine = sample_zine();
    let entries = zine.latest_feed_entries(2, Mode::Build);
    assert_eq!(entries.len(), 2);
    assert_eq!(entries[0].title, "Title of a2");
    assert_eq!(entries[0].url, "http://localhost/custom");
    assert_eq!(entries[1].title, "Issue 1");
    assert_eq!(entries[1].url, "http://localhost/issue-1");
    assert_eq!(entries[1].content, "The intro");
    assert!(entries[1].author.is_none());

    let all = zine.latest_feed_entries(20, Mode::Build);
    assert_eq!(all.len(), 3);
    assert_eq!(all[2].title, "Title of a1");
    assert_eq!(all[2].url, "http://localhost/issue-1/a1");
}

#[test]
fn feed_puts_undated_entries_last() {
    let mut zine = sample_zine();
    zine.issues[0].pub_date = None;
    let all = zine.latest_feed_entries(20, Mode::Build);
    assert_eq!(all.len(), 3);
    assert_eq!(all[2].title, "Issue 1");
    assert!(all[2].date.is_none());
}

#[test]
fn articles_by_author_include_translations_latest_first() {
    let zine = sample_zine();
    let refs = zine.get_articles_by_author("alice", Mode::Build);
    let slugs: Vec<&str> = refs.iter().map(|r| r.article.slug.as_str()).collect();
    assert_eq!(slugs, vec!["a2", "a1-zh", "a1"]);
    assert_eq!(refs[0].issue_slug, "issue-1");
    assert_eq!(refs[0].issue_title, "Issue 1");

    let refs = zine.get_articles_by_author("bob", Mode::Build);
    assert_eq!(refs.len(), 1);
    assert!(zine.get_articles_by_author("carol", Mode::Build).is_empty());

    let refs = zine.get_articles_by_author("alice", Mode::Serve);
    assert_eq!(refs[0].article.slug, "hidden");
}

#[test]
fn articles_by_topic_match_exactly() {
    let zine = sample_zine();
    let refs = zine.get_articles_by_topic("rust", Mode::Build);
    let slugs: Vec<&str> = refs.iter().map(|r| r.article.slug.as_str()).collect();
    assert_eq!(slugs, vec!["a1"]);
    assert!(zine.get_articles_by_topic("Rust", Mode::Build).is_empty());
}

#[test]
fn all_articles_pairs_issue_slug_and_meta() {
    let zine = sample_zine();
    let all = zine.all_articles(Mode::Build);
    assert_eq!(all.len(), 2);
    assert_eq!(all[0].0, "issue-1");
    assert_eq!(all[0].1.slug, "a1");
    assert_eq!(all[1].1.path.as_deref(), Some("/custom"));
}

#[test]
fn home_issues_show_featured_articles() {
    let mut zine = sample_zine();
    zine.issues.push(issue("draft", 2, vec![]));
    zine.issues[1].publish = false;
    let home = zine.home_issues(Mode::Build);
    assert_eq!(home.len(), 1);
    assert_eq!(home[0].slug, "issue-1");
    assert_eq!(home[0].number, 1);
    let featured: Vec<&str> = home[0].articles.iter().map(|a| a.meta.slug.as_str()).collect();
    assert_eq!(featured, vec!["a2"]);
    assert_eq!(zine.home_issues(Mode::Serve).len(), 2);
}

#[test]
fn get_issue_by_number_finds_the_issue() {
    let zine = sample_zine();
    assert_eq!(zine.get_issue_by_number(1).map(|i| i.slug.as_str()), Some("issue-1"));
    assert!(zine.get_issue_by_number(7).is_none());
}

#[test]
fn authors_are_prepared_with_fallbacks() {
    let mut zine = sample_zine();
    zine.theme.default_avatar = Some("/static/zine.png".to_string());
    zine.authors = vec![
        ("alice".to_string(), author(None, None)),
        ("bob".to_string(), author(Some("Bobby"), Some(""))),
        ("carol".to_string(), author(None, Some("/carol.png"))),
    ];
    zine.prepare_authors();
    let a = &zine.authors[0].1;
    assert_eq!(a.id, "alice");
    assert_eq!(a.name.as_deref(), Some("Alice"));
    assert_eq!(a.avatar.as_deref(), Some("/static/zine.png"));
    let b = &zine.authors[1].1;
    assert_eq!(b.id, "bob");
    assert_eq!(b.name.as_deref(), Some("Bobby"));
    assert_eq!(b.avatar.as_deref(), Some("/static/zine.png"));
    let c = &zine.authors[2].1;
    assert_eq!(c.avatar.as_deref(), Some("/carol.png"));

    let copies = zine.authors();
    assert_eq!(copies.len(), 3);
    assert_eq!(copies[2].name.as_deref(), Some("Carol"));
}

#[test]
fn topics_are_prepared_with_fallbacks() {
    let mut zine = sample_zine();
    zine.topics = vec![
        ("go".to_string(), Topic { id: String::new(), name: Some("Golang".to_string()), description: None }),
        ("rust".to_string(), Topic { id: String::new(), name: None, description: None }),
    ];
    assert!(zine.has_ordered_keys());
    zine.prepare_topics();
    assert!(zine.has_ordered_keys());
    assert_eq!(zine.topics[1].1.id, "rust");
    assert_eq!(zine.topics[1].1.name.as_deref(), Some("Rust"));
    assert_eq!(zine.topics[0].1.name.as_deref(), Some("Golang"));
    assert_eq!(zine.topic_ids(), vec!["go".to_string(), "rust".to_string()]);
}

#[test]
fn issues_are_sorted_by_number() {
    let mut zine = sample_zine();
    zine.issues = vec![issue("c", 3, vec![]), issue("a", 1, vec![]), issue("b", 2, vec![])];
    zine.sort_issues();
    let numbers: Vec<u32> = zine.issues.iter().map(|i| i.number).collect();
    assert_eq!(numbers, vec![1, 2, 3]);
}

#[test]
fn issue_dir_is_relative_to_content() {
    let parts = |v: &[&str]| v.iter().map(|s| s.to_string()).collect::<Vec<String>>();
    assert_eq!(issue_dir(&parts(&["/", "home", "site", "content", "issue-1", "zine.toml"])), "issue-1");
    assert_eq!(issue_dir(&parts(&["/", "site", "content", "2023", "issue-2", "zine.toml"])), "2023/issue-2");
    assert_eq!(issue_dir(&parts(&["content", "zine.toml"])), "");
}

#[test]
fn lists_count_published_articles() {
    let mut zine = sample_zine();
    zine.prepare_authors();
    let authors = zine.authors();
    let list = zine.author_list(&authors, Mode::Build);
    assert_eq!(list.name, "authors");
    assert_eq!(list.entities.len(), 2);
    assert_eq!(list.entities[0].article_count, 3);
    assert_eq!(list.entities[1].entity.id, "bob");
    assert_eq!(list.entities[1].article_count, 1);
    let list = zine.author_list(&authors, Mode::Serve);
    assert_eq!(list.entities[0].article_count, 4);

    let topics = zine.topic_list(Mode::Build);
    assert_eq!(topics.entities.len(), 1);
    assert_eq!(topics.entities[0].entity.id, "rust");
    assert_eq!(topics.entities[0].article_count, 1);
}
