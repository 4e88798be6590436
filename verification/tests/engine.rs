use zine::cmd::{git_user_name, NewAction, NewCmd};
use zine::context::{JsonNumber, JsonValue, ValueRender, ValueTruthy};
use zine::engine::{choose_bases, live_reload, rewrite_bases, BaseUrlError, ZineGenerator};
use zine::entity::Theme;
use zine::i18n::{fluent_source, get_locale_name, FluentSource};
use zine::lint::{classify, lint_report, UrlCondition};
use zine::mode::Mode;
use zine::parser::Parser;
use zine::serve::{fallback_route, FallbackRoute};

#[test]
fn bases_are_only_chosen_in_build_mode() {
    assert!(matches!(rewrite_bases(Mode::Serve, "not a url", Some("nor this")), Ok(None)));
    assert!(matches!(choose_bases(Mode::Unknown, "x", None, None, false), Ok(None)));
}

#[test]
fn site_url_is_used_only_with_a_path() {
    let b = rewrite_bases(Mode::Build, "https://github.com", Some("https://cdn.net")).unwrap().unwrap();
    assert_eq!(b.site_url, None);
    assert_eq!(b.cdn_url.as_deref(), Some("https://cdn.net"));

    let b = rewrite_bases(Mode::Build, "https://example.github.io/blog", None).unwrap().unwrap();
    assert_eq!(b.site_url.as_deref(), Some("https://example.github.io/blog"));
    assert_eq!(b.cdn_url, None);
}

#[test]
fn invalid_urls_are_errors() {
    assert_eq!(
        rewrite_bases(Mode::Build, "https://github.com", Some("bad url")).err(),
        Some(BaseUrlError::InvalidCdnUrl)
    );
    assert_eq!(rewrite_bases(Mode::Build, "bad url", None).err(), Some(BaseUrlError::InvalidSiteUrl));
    assert_eq!(BaseUrlError::InvalidCdnUrl.message(), "Invalid cdn url.");
    assert_eq!(BaseUrlError::InvalidSiteUrl.message(), "Invalid site url.");
    let b = choose_bases(Mode::Build, "https://a.io/x", Some("/x"), Some("c"), true).unwrap().unwrap();
    assert_eq!(b.site_url.as_deref(), Some("https://a.io/x"));
    assert_eq!(b.cdn_url.as_deref(), Some("c"));
}

#[test]
fn live_reload_only_when_serving() {
    assert!(live_reload(Mode::Serve));
    assert!(!live_reload(Mode::Build));
}

#[test]
fn theme_templates_are_added_by_name() {
    let mut theme = Theme::default();
    assert!(ZineGenerator.extra_templates(&theme).is_empty());
    theme.head_template = Some("<head/>".to_string());
    theme.article_extend_template = Some("<comments/>".to_string());
    let t = ZineGenerator.extra_templates(&theme);
    assert_eq!(t.len(), 2);
    assert_eq!(t[0], ("head_template.jinja", &"<head/>".to_string()));
    assert_eq!(t[1], ("article_extend_template.jinja", &"<comments/>".to_string()));
}

#[test]
fn statuses_are_classified() {
    assert_eq!(classify(200), UrlCondition::Normal);
    assert_eq!(classify(404), UrlCondition::NotFound);
    assert_eq!(classify(301), UrlCondition::Redirected);
    assert_eq!(classify(399), UrlCondition::Redirected);
    assert_eq!(classify(500), UrlCondition::ServerError);
    assert_eq!(classify(503), UrlCondition::ServerError);
    assert_eq!(classify(403), UrlCondition::Normal);
    assert_eq!(classify(600), UrlCondition::Normal);
}

#[test]
fn lint_report_groups_urls() {
    let results = vec![
        ("https://a".to_string(), UrlCondition::NotFound),
        ("https://b".to_string(), UrlCondition::Normal),
        ("https://c".to_string(), UrlCondition::ServerError),
        ("https://d".to_string(), UrlCondition::NotFound),
    ];
    assert_eq!(
        lint_report(&results),
        vec![
            "\nThe following URLs are 404:",
            "- https://a",
            "- https://d",
            "\nThe following URLs have a server error:",
            "- https://c",
        ]
    );
    assert!(lint_report(&vec![]).is_empty());
}

#[test]
fn values_print_for_templates() {
    let v = JsonValue::Array(vec![
        JsonValue::Number(JsonNumber::Int(-42)),
        JsonValue::Number(JsonNumber::UInt(18446744073709551615)),
        JsonValue::Bool(true),
        JsonValue::Null,
        JsonValue::String("s".to_string()),
        JsonValue::Object(vec![]),
        JsonValue::Array(vec![JsonValue::Number(JsonNumber::Int(0))]),
        JsonValue::Number(JsonNumber::Float { text: "1.5".to_string(), nonzero: true }),
    ]);
    assert_eq!(v.render(), "[-42, 18446744073709551615, true, , s, [object], [0], 1.5]");
    assert_eq!(JsonValue::Number(JsonNumber::Int(i64::MIN)).render(), "-9223372036854775808");
    assert_eq!(JsonValue::Array(vec![]).render(), "[]");
}

#[test]
fn values_are_truthy() {
    assert!(!JsonValue::Null.is_truthy());
    assert!(!JsonValue::Number(JsonNumber::Int(0)).is_truthy());
    assert!(JsonValue::Number(JsonNumber::Int(-1)).is_truthy());
    assert!(JsonValue::Number(JsonNumber::UInt(1)).is_truthy());
    assert!(!JsonValue::Number(JsonNumber::Float { text: "0".to_string(), nonzero: false }).is_truthy());
    assert!(!JsonValue::String(String::new()).is_truthy());
    assert!(JsonValue::String("x".to_string()).is_truthy());
    assert!(!JsonValue::Array(vec![]).is_truthy());
    assert!(JsonValue::Object(vec![("k".to_string(), JsonValue::Null)]).is_truthy());
    assert!(!JsonValue::Bool(false).is_truthy());
}

#[test]
fn new_command_actions() {
    assert_eq!(NewCmd.action(true, false), NewAction::Issue);
    assert_eq!(NewCmd.action(true, true), NewAction::Issue);
    assert_eq!(NewCmd.action(false, true), NewAction::Article);
    assert_eq!(NewCmd.action(false, false), NewAction::Project);
}

#[test]
fn git_user_names_use_underscores() {
    assert_eq!(git_user_name(Some("Jane Q Doe")), "Jane_Q_Doe");
    assert_eq!(git_user_name(Some("solo")), "solo");
    assert_eq!(git_user_name(None), "");
}

#[test]
fn locales_have_names_and_sources() {
    assert_eq!(get_locale_name("en"), Some("English"));
    assert_eq!(get_locale_name("zh_TW"), Some("繁體中文"));
    assert_eq!(get_locale_name("de"), None);
    assert_eq!(fluent_source("en"), FluentSource::English);
    assert_eq!(fluent_source("zh"), FluentSource::Chinese);
    assert_eq!(fluent_source("fr"), FluentSource::File("locales/fr.ftl".to_string()));
}

#[test]
fn parser_keeps_its_path() {
    assert_eq!(Parser::new("my-zine").path, "my-zine");
}

#[test]
fn featured_articles_of_template_arguments() {
    let article = |featured: Option<bool>| {
        let mut entries = vec![("title".to_string(), JsonValue::String("t".to_string()))];
        if let Some(f) = featured {
            entries.push(("featured".to_string(), JsonValue::Bool(f)));
        }
        JsonValue::Object(entries)
    };
    let articles = JsonValue::Array(vec![article(Some(true)), article(Some(false)), article(None), article(Some(true))]);
    let featured = zine::context::featured(Some(&articles));
    assert_eq!(featured.len(), 2);
    assert!(zine::context::featured(None).is_empty());
    assert!(zine::context::featured(Some(&JsonValue::Null)).is_empty());
    let odd = JsonValue::Array(vec![JsonValue::Object(vec![(
        "featured".to_string(),
        JsonValue::String("true".to_string()),
    )])]);
    assert!(zine::context::featured(Some(&odd)).is_empty());
}

#[test]
fn fallback_routes() {
    assert_eq!(fallback_route(true, "/live_reload", true), FallbackRoute::LiveReload);
    assert_eq!(fallback_route(true, "/live_reload", false), FallbackRoute::NotWebsocket);
    assert_eq!(fallback_route(false, "/live_reload", true), FallbackRoute::NotFound);
    assert_eq!(fallback_route(true, "/missing", true), FallbackRoute::NotFound);
}

#[test]
fn root_config_errors() {
    use_errors();
}

fn use_errors() {
    let e = zine::error::ZineError::for_root_toml(true, "expected `=`".to_string());
    assert_eq!(e.message(), "Invalid format of root `zine.toml`: expected `=`");
    let e = zine::error::ZineError::for_root_toml(false, "expected `=`".to_string());
    assert_eq!(e, zine::error::ZineError::NotRootTomlFile);
    assert_eq!(e.message(), "Not a root `zine.toml`, maybe it a `zine.toml` for issue?");
    assert_eq!(
        zine::error::ZineError::ParseAuthorIdError("x".to_string()).message(),
        "Invalid Author Id String x"
    );
}
