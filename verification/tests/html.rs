use zine::html::{rewrite_attribute, rewrite_background, rewrite_style, rewrite_url};

const SITE_URL: &str = "https://github.com";
const CDN_URL: &str = "https://cdn-example.net";

#[test]
fn root_paths_are_rewritten_to_the_site() {
    for path in ["/", "/hello", "/hello/world", "/hello.css", "/hello.png", "/hello.js", "/hello.html"] {
        assert_eq!(
            rewrite_url(path, Some(SITE_URL), Some(CDN_URL)),
            Some(format!("{}{}", SITE_URL, path))
        );
    }
}

#[test]
fn absolute_urls_are_not_rewritten() {
    for path in ["/", "/hello", "/hello/world", "/hello.png"] {
        let whole = format!("{}{}", SITE_URL, path);
        assert_eq!(rewrite_url(&whole, Some(SITE_URL), Some(CDN_URL)), None);
        let cdn = format!("{}{}", CDN_URL, path);
        assert_eq!(rewrite_url(&cdn, Some(SITE_URL), Some(CDN_URL)), None);
    }
}

#[test]
fn relative_paths_are_not_rewritten() {
    for path in ["hello", "hello.css", "static/hello.png", "static/placeholder.svg"] {
        assert_eq!(rewrite_url(path, Some(SITE_URL), Some(CDN_URL)), None);
    }
}

#[test]
fn static_paths_go_to_the_cdn() {
    for path in ["/static/hello.css", "/static/hello.png", "/static/placeholder.svg"] {
        assert_eq!(
            rewrite_url(path, Some(SITE_URL), Some(CDN_URL)),
            Some(format!("{}{}", CDN_URL, &path[7..]))
        );
    }
    // Without a CDN, a static path is a root path of the site.
    assert_eq!(
        rewrite_url("/static/a.png", Some(SITE_URL), None),
        Some(format!("{}/static/a.png", SITE_URL))
    );
    assert_eq!(rewrite_url("/static/a.png", None, None), None);
    assert_eq!(rewrite_url("/a.png", None, Some(CDN_URL)), None);
}

#[test]
fn background_images_are_rewritten() {
    assert_eq!(
        rewrite_background("url('/test.png')", Some(SITE_URL), Some(CDN_URL)),
        Some(format!("url('{}/test.png')", SITE_URL))
    );
    assert_eq!(
        rewrite_background("url('/static/test.png')", Some(SITE_URL), Some(CDN_URL)),
        Some(format!("url('{}/test.png')", CDN_URL))
    );
    assert_eq!(rewrite_background("url('/static/test.png')", Some(SITE_URL), None), None);
    assert_eq!(rewrite_background("url('/test.png')", None, Some(CDN_URL)), None);
    assert_eq!(rewrite_background("url('test.png')", Some(SITE_URL), Some(CDN_URL)), None);
}

#[test]
fn test_rewrite_background_image_url_style() {
    let style = "background-image: url('/test.png');";
    assert_eq!(
        rewrite_style(style, Some(SITE_URL), Some(CDN_URL)),
        Some(style.replace("/test.png", &format!("{}/test.png", SITE_URL)))
    );
}

#[test]
fn test_rewrite_cdn_background_image_url_style() {
    let style = "background-image: url('/static/test.png');";
    assert_eq!(
        rewrite_style(style, Some(SITE_URL), Some(CDN_URL)),
        Some(style.replace("/static/test.png", &format!("{}/test.png", CDN_URL)))
    );
}

#[test]
fn styles_keep_each_property_once() {
    assert_eq!(
        rewrite_style("color: red; background-image: url('/a.png'); color: blue", Some(SITE_URL), None),
        Some(format!("color: blue;background-image: url('{}/a.png');", SITE_URL))
    );
    assert_eq!(rewrite_style("color: red", Some(SITE_URL), Some(CDN_URL)), None);
    assert_eq!(rewrite_style("background-image: none", Some(SITE_URL), Some(CDN_URL)), None);
}

fn rewrite(html: &str) -> String {
    String::from_utf8_lossy(&zine::html::rewrite_html_base_url(html.as_bytes(), Some(SITE_URL), Some(CDN_URL)).unwrap())
        .to_string()
}

#[test]
fn test_rewrite_background_image_url() {
    let html = r#"<body><div class="bg-primary text-main" style="background-image: url('/test.png');"></div></body>"#;
    assert_eq!(rewrite(html), html.replace("/test.png", &format!("{}/test.png", SITE_URL)));
}

#[test]
fn test_rewrite_cdn_background_image_url() {
    let html = r#"<body><div class="bg-primary text-main" style="background-image: url('/static/test.png');"></div></body>"#;
    assert_eq!(rewrite(html), html.replace("/static/test.png", &format!("{}/test.png", CDN_URL)));
}

const ROOT_CASES: [(&str, &str); 9] = [
    ("<a href=\"{}\"></a>", "/"),
    ("<a href=\"{}\"></a>", "/hello"),
    ("<a href=\"{}\"></a>", "/hello/world"),
    ("<link rel=\"stylesheet\" href=\"{}\" />", "/hello.css"),
    ("<img src=\"{}\" />", "/hello.png"),
    ("<script src=\"{}\" />", "/hello.js"),
    ("<audio src=\"{}\" />", "/hello.mp3"),
    ("<video src=\"{}\" />", "/hello.mp4"),
    ("<iframe src=\"{}\"></iframe>", "/hello.html"),
];

#[test]
fn test_rewrite_html_base_url() {
    for (html, path) in ROOT_CASES {
        assert_eq!(rewrite(&html.replace("{}", path)), html.replace("{}", &format!("{}{}", SITE_URL, path)));
    }
}

#[test]
fn test_not_rewrite_html_base_url() {
    for (html, path) in [
        ("<a href=\"{}\"></a>", "/"),
        ("<a href=\"{}\"></a>", "/hello"),
        ("<a href=\"{}\"></a>", "/hello/world"),
        ("<link rel=\"stylesheet\" src=\"{}\"/>", "/hello.css"),
        ("<img src=\"{}\"/>", "/hello.png"),
        ("<script src=\"{}\"/>", "/hello.js"),
        ("<audio src=\"{}\"/>", "/hello.mp3"),
        ("<video src=\"{}\"/>", "/hello.mp4"),
        ("<iframe src=\"{}\"></iframe>", "/hello.html"),
    ] {
        let whole_url = format!("{}{}", SITE_URL, path);
        assert_eq!(rewrite(&html.replace("{}", &whole_url)), html.replace("{}", &whole_url));
    }
}

#[test]
fn test_not_rewrite_html_base_url_relative_path() {
    for (html, path) in [
        ("<a href=\"{}\"></a>", "hello"),
        ("<link rel=\"stylesheet\" src=\"{}\"/>", "hello.css"),
        ("<img src=\"{}\"/>", "hello.png"),
        ("<script src=\"{}\"/>", "hello.js"),
        ("<audio src=\"{}\"/>", "hello.mp3"),
        ("<video src=\"{}\"/>", "hello.mp4"),
        ("<iframe src=\"{}\"></iframe>", "hello.html"),
    ] {
        assert_eq!(rewrite(&html.replace("{}", path)), html.replace("{}", path));
    }
}

#[test]
fn test_rewrite_html_cdn_url() {
    for (html, path) in [
        ("<link rel=\"stylesheet\" href=\"{}\" />", "/static/hello.css"),
        ("<img src=\"{}\" />", "/static/hello.png"),
        ("<script src=\"{}\" />", "/static/hello.js"),
        ("<audio src=\"{}\" />", "/static/hello.mp3"),
        ("<video src=\"{}\" />", "/static/hello.mp4"),
        ("<meta content=\"{}\" />", "/static/placeholder.svg"),
    ] {
        assert_eq!(rewrite(&html.replace("{}", path)), html.replace("{}", &format!("{}{}", CDN_URL, &path[7..])));
    }
}

#[test]
fn test_not_rewrite_html_cdn_url() {
    for (html, path) in [
        ("<link rel=\"stylesheet\" src=\"{}\"/>", "/static/hello.css"),
        ("<img src=\"{}\"/>", "/static/hello.png"),
        ("<script src=\"{}\"/>", "/static/hello.js"),
        ("<audio src=\"{}\"/>", "/static/hello.mp3"),
        ("<video src=\"{}\"/>", "/static/hello.mp4"),
        ("<meta content=\"{}\" />", "/static/placeholder.svg"),
    ] {
        let whole_url = format!("{}{}", CDN_URL, path);
        assert_eq!(rewrite(&html.replace("{}", &whole_url)), html.replace("{}", &whole_url));
    }
}

#[test]
fn test_not_rewrite_html_cdn_url_relative_path() {
    for (html, path) in [
        ("<link rel=\"stylesheet\" src=\"{}\"/>", "static/hello.css"),
        ("<img src=\"{}\"/>", "static/hello.png"),
        ("<script src=\"{}\"/>", "static/hello.js"),
        ("<audio src=\"{}\"/>", "static/hello.mp3"),
        ("<video src=\"{}\"/>", "static/hello.mp4"),
        ("<meta content=\"{}\" />", "static/placeholder.svg"),
    ] {
        assert_eq!(rewrite(&html.replace("{}", path)), html.replace("{}", path));
    }
}

#[test]
fn rewrite_attribute_picks_style_or_url() {
    assert_eq!(rewrite_attribute(false, "/a", Some(SITE_URL), Some(CDN_URL)), Some(format!("{}/a", SITE_URL)));
    let style = "background-image: url('/static/a.png')";
    assert_eq!(
        rewrite_attribute(true, style, Some(SITE_URL), Some(CDN_URL)),
        rewrite_style(style, Some(SITE_URL), Some(CDN_URL))
    );
    assert_eq!(rewrite_attribute(true, "/a", Some(SITE_URL), Some(CDN_URL)), None);
}

#[test]
fn rewrite_page_with_every_kind_of_url() {
    let html = [
        r#"<head><meta content="/static/cover.png"><link rel="stylesheet" href="/static/app.css"></head>"#,
        r#"<body><div class="bg-primary text-main" style="background-image: url('/bg.png');">"#,
        r#"<a href="/issue-1/">x</a><img src="/static/a.png"><a href="https://example.com/">y</a></div></body>"#,
    ]
    .join("");
    let expected = [
        r#"<head><meta content="CDN/cover.png"><link rel="stylesheet" href="CDN/app.css"></head>"#,
        r#"<body><div class="bg-primary text-main" style="background-image: url('SITE/bg.png');">"#,
        r#"<a href="SITE/issue-1/">x</a><img src="CDN/a.png"><a href="https://example.com/">y</a></div></body>"#,
    ]
    .join("")
    .replace("CDN", CDN_URL)
    .replace("SITE", SITE_URL);
    assert_eq!(rewrite(&html), expected);
}

#[test]
fn page_without_base_urls_is_unchanged() {
    let html = r#"<html><head><meta content="/static/a.png"></head><body><div class="bg-primary text-main" style="background-image: url('/bg.png');"><a href="/x">x</a><img src="/static/b.png"></div></body></html>"#;
    let out = zine::html::rewrite_html_base_url(html.as_bytes(), None, None).unwrap();
    assert_eq!(out, html.as_bytes());
}
