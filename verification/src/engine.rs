//! Decisions of the page renderer: where the urls of a page are rewritten to,
//! and what the templates are given.
use vstd::prelude::*;
use crate::entity::Theme;
use crate::html::opt_str;
use crate::mode::Mode;
use crate::text::{str_eq, string_from};

verus! {

/// What `hyper::Uri` parsing gives as the path of `url`; `None` when `url` is
/// not a valid uri.
pub uninterp spec fn spec_uri_path(url: Seq<char>) -> Option<Seq<char>>;

/// Parses `url` as a `hyper::Uri` and gives its path, `None` when the parse
/// fails; the result is named `spec_uri_path` of the input, nothing more is
/// claimed of it.
#[verifier::external_body]
fn uri_path(url: &str) -> (r: Option<String>)
    ensures
        match r {
            Some(p) => spec_uri_path(url@) == Some(p@),
            None => spec_uri_path(url@) is None,
        },
{
    match url.parse::<hyper::Uri>() {
        Ok(uri) => Some(uri.path().to_string()),
        Err(_) => None,
    }
}

/// The bases that the root-relative urls of a page are rewritten to.
pub struct RewriteBases {
    /// The site url, when it has a path of its own.
    pub site_url: Option<String>,
    pub cdn_url: Option<String>,
}

/// Why the urls of a page cannot be rewritten.
#[derive(Debug, Clone, Copy, PartialEq, Eq, Structural)]
pub enum BaseUrlError {
    InvalidCdnUrl,
    InvalidSiteUrl,
}

impl BaseUrlError {
    /// The message of the error.
    pub fn message(&self) -> (r: &'static str)
        ensures
            r@ == match self {
                BaseUrlError::InvalidCdnUrl => "Invalid cdn url."@,
                BaseUrlError::InvalidSiteUrl => "Invalid site url."@,
            },
    {
        match self {
            BaseUrlError::InvalidCdnUrl => "Invalid cdn url.",
            BaseUrlError::InvalidSiteUrl => "Invalid site url.",
        }
    }
}

/// The bases of a page rendered in `mode`, given the path of the site url
/// (`None` when it is no valid uri) and whether the CDN url is a valid uri:
/// none outside build mode; in build mode the CDN url, and the site url when
/// its path is not `/`.
pub open spec fn bases(
    mode: Mode,
    site_url: Seq<char>,
    site_path: Option<Seq<char>>,
    cdn_url: Option<Seq<char>>,
    cdn_valid: bool,
) -> Result<Option<(Option<Seq<char>>, Option<Seq<char>>)>, BaseUrlError> {
    if mode != Mode::Build {
        Ok(None)
    } else if cdn_url is Some && !cdn_valid {
        Err(BaseUrlError::InvalidCdnUrl)
    } else {
        match site_path {
            None => Err(BaseUrlError::InvalidSiteUrl),
            Some(p) => Ok(Some((if p != "/"@ { Some(site_url) } else { None }, cdn_url))),
        }
    }
}

/// The view of rewrite bases.
pub open spec fn bases_view(b: RewriteBases) -> (Option<Seq<char>>, Option<Seq<char>>) {
    (
        match b.site_url {
            Some(s) => Some(s@),
            None => None,
        },
        match b.cdn_url {
            Some(s) => Some(s@),
            None => None,
        },
    )
}

/// Whether `r` is what `bases` states.
pub open spec fn bases_result(
    r: Result<Option<RewriteBases>, BaseUrlError>,
    s: Result<Option<(Option<Seq<char>>, Option<Seq<char>>)>, BaseUrlError>,
) -> bool {
    match r {
        Ok(Some(b)) => s == Ok::<Option<(Option<Seq<char>>, Option<Seq<char>>)>, BaseUrlError>(
            Some(bases_view(b)),
        ),
        Ok(None) => s == Ok::<Option<(Option<Seq<char>>, Option<Seq<char>>)>, BaseUrlError>(None),
        Err(e) => s == Err::<Option<(Option<Seq<char>>, Option<Seq<char>>)>, BaseUrlError>(e),
    }
}

/// The bases of a page rendered in `mode`, given the path of the site url and
/// whether the CDN url is a valid uri.
pub fn choose_bases(
    mode: Mode,
    site_url: &str,
    site_path: Option<&str>,
    cdn_url: Option<&str>,
    cdn_valid: bool,
) -> (r: Result<Option<RewriteBases>, BaseUrlError>)
    ensures
        bases_result(r, bases(mode, site_url@, opt_str(site_path), opt_str(cdn_url), cdn_valid)),
{
    if mode != Mode::Build {
        return Ok(None);
    }
    if cdn_url.is_some() && !cdn_valid {
        return Err(BaseUrlError::InvalidCdnUrl);
    }
    match site_path {
        None => Err(BaseUrlError::InvalidSiteUrl),
        Some(p) => {
            let site = if str_eq(p, "/") {
                None
            } else {
                Some(string_from(site_url))
            };
            let cdn = match cdn_url {
                Some(c) => Some(string_from(c)),
                None => None,
            };
            Ok(Some(RewriteBases { site_url: site, cdn_url: cdn }))
        },
    }
}

/// The bases that the root-relative urls of a page rendered in `mode` are
/// rewritten to, the urls parsed as uris.
pub fn rewrite_bases(mode: Mode, site_url: &str, cdn_url: Option<&str>) -> (r: Result<
    Option<RewriteBases>,
    BaseUrlError,
>)
    ensures
        mode != Mode::Build ==> r matches Ok(None),
        mode == Mode::Build ==> bases_result(
            r,
            bases(
                mode,
                site_url@,
                spec_uri_path(site_url@),
                opt_str(cdn_url),
                match cdn_url {
                    Some(c) => spec_uri_path(c@) is Some,
                    None => true,
                },
            ),
        ),
{
    if mode != Mode::Build {
        return Ok(None);
    }
    let cdn_valid = match cdn_url {
        Some(c) => uri_path(c).is_some(),
        None => true,
    };
    let site_path = uri_path(site_url);
    let p = match &site_path {
        Some(s) => Some(s.as_str()),
        None => None,
    };
    choose_bases(mode, site_url, p, cdn_url, cdn_valid)
}

/// The generator of a magazine site.
#[derive(Debug, Clone, Copy)]
pub struct ZineGenerator;

/// The number of entries of the feed.
pub const FEED_ENTRIES: usize = 20;

impl ZineGenerator {
    /// The templates that the theme adds, by name: the head, footer and
    /// article extension templates that it gives.
    pub fn extra_templates<'t>(&self, theme: &'t Theme) -> (r: Vec<(&'static str, &'t String)>)
        ensures
            r@.map_values(|p: (&'static str, &String)| (p.0@, *p.1)) == extra_templates_of(theme),
    {
        let mut r: Vec<(&'static str, &'t String)> = Vec::new();
        match &theme.head_template {
            Some(t) => r.push(("head_template.jinja", t)),
            None => {},
        }
        match &theme.footer_template {
            Some(t) => r.push(("footer_template.jinja", t)),
            None => {},
        }
        match &theme.article_extend_template {
            Some(t) => r.push(("article_extend_template.jinja", t)),
            None => {},
        }
        assert(r@.map_values(|p: (&'static str, &String)| (p.0@, *p.1)) =~= extra_templates_of(theme));
        r
    }
}

/// The named templates that a theme adds.
pub open spec fn extra_templates_of(theme: &Theme) -> Seq<(Seq<char>, String)> {
    (match theme.head_template {
        Some(t) => seq![("head_template.jinja"@, t)],
        None => Seq::empty(),
    }) + (match theme.footer_template {
        Some(t) => seq![("footer_template.jinja"@, t)],
        None => Seq::empty(),
    }) + (match theme.article_extend_template {
        Some(t) => seq![("article_extend_template.jinja"@, t)],
        None => Seq::empty(),
    })
}

/// The engine that builds the magazine in `source` into `dest`.
#[derive(Debug)]
pub struct ZineEngine {
    pub source: String,
    pub dest: String,
}

/// Whether pages are served with live reload: in serve mode.
pub fn live_reload(mode: Mode) -> (r: bool)
    ensures
        r == (mode == Mode::Serve),
{
    mode == Mode::Serve
}

} // verus!
