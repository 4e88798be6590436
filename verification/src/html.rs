//! How root-relative urls of a rendered page are rewritten to the site url
//! or the CDN url.
use std::borrow::Cow;
use lol_html::html_content::Element;
use lol_html::{ElementContentHandlers, HandlerResult, HtmlRewriter, Selector, Settings};
use vstd::prelude::*;
use crate::helpers::split_styles;
use crate::options::{merged, option_pairs, pairs_map};
use crate::text::{chars_of, split, starts_with, str_starts_with, string_from, string_of, sub_vec};

verus! {

/// The url that replaces the attribute value `attr`, if any: a `/static`
/// path goes to the CDN, another root path to the site.
pub open spec fn rewritten_url(attr: Seq<char>, site: Option<Seq<char>>, cdn: Option<Seq<char>>) -> Option<Seq<char>> {
    if starts_with(attr, "/static"@) && cdn is Some {
        Some(cdn->0 + attr.skip(7))
    } else if starts_with(attr, "/"@) && site is Some {
        Some(site->0 + attr)
    } else {
        None
    }
}

/// The `background-image` value that replaces `value`, if any.
pub open spec fn rewritten_background(value: Seq<char>, site: Option<Seq<char>>, cdn: Option<Seq<char>>) -> Option<Seq<char>> {
    if starts_with(value, "url('/static"@) {
        match cdn {
            Some(c) => Some("url('"@ + c + value.skip(12)),
            None => None,
        }
    } else if starts_with(value, "url('/"@) {
        match site {
            Some(u) => Some("url('"@ + u + "/"@ + value.skip(6)),
            None => None,
        }
    } else {
        None
    }
}

/// Style properties written back as `key: value;` text.
pub open spec fn style_text(es: Seq<(Seq<char>, Seq<char>)>) -> Seq<char>
    decreases es.len(),
{
    if es.len() == 0 {
        Seq::empty()
    } else {
        style_text(es.drop_last()) + es.last().0 + ": "@ + es.last().1 + ";"@
    }
}

/// The style that replaces `style`, if any: the same properties, each once,
/// with the `background-image` url rewritten.
pub open spec fn rewritten_style(style: Seq<char>, site: Option<Seq<char>>, cdn: Option<Seq<char>>) -> Option<Seq<char>> {
    let es = option_pairs(split(style, ';'), false);
    let m = pairs_map(split(style, ';'), false);
    if m.contains_key("background-image"@) {
        match rewritten_background(m["background-image"@], site, cdn) {
            Some(v) => Some(style_text(merged(es.push(("background-image"@, v))))),
            None => None,
        }
    } else {
        None
    }
}

/// A url that does not start at the root, relative or absolute, is never
/// rewritten.
pub proof fn lemma_relative_url_kept(attr: Seq<char>, site: Option<Seq<char>>, cdn: Option<Seq<char>>)
    requires
        !starts_with(attr, "/"@),
    ensures
        rewritten_url(attr, site, cdn) is None,
{
    reveal_strlit("/");
    reveal_strlit("/static");
    assert("/"@ =~= seq!['/']);
    assert("/static"@ =~= seq!['/', 's', 't', 'a', 't', 'i', 'c']);
    if starts_with(attr, "/static"@) {
        assert(attr.subrange(0, 7)[0] == attr[0]);
        assert(attr.subrange(0, 1) =~= "/"@);
    }
}

/// A url is rewritten to the CDN or the site url followed by the rest of it.
pub proof fn lemma_rewritten_url_suffix(attr: Seq<char>, site: Option<Seq<char>>, cdn: Option<Seq<char>>)
    ensures
        rewritten_url(attr, site, cdn) matches Some(u) ==> (cdn matches Some(c) && u == c + attr.skip(7))
            || (site matches Some(s) && u == s + attr),
{
}

/// The view of an optional text.
pub open spec fn opt_str(o: Option<&str>) -> Option<Seq<char>> {
    match o {
        Some(s) => Some(s@),
        None => None,
    }
}

/// The text of `s` from the character `from` on.
fn tail_from(s: &str, from: usize) -> (r: String)
    requires
        from <= s@.len(),
    ensures
        r@ == s@.skip(from as int),
{
    let v = chars_of(s);
    let t = sub_vec(&v, from, v.len());
    assert(t@ =~= s@.skip(from as int));
    string_of(t.as_slice())
}

/// The url that replaces the attribute value `attr`, if any.
pub fn rewrite_url(attr: &str, site_url: Option<&str>, cdn_url: Option<&str>) -> (r: Option<String>)
    ensures
        match r {
            Some(u) => rewritten_url(attr@, opt_str(site_url), opt_str(cdn_url)) == Some(u@),
            None => rewritten_url(attr@, opt_str(site_url), opt_str(cdn_url)) is None,
        },
{
    if str_starts_with(attr, "/static") {
        match cdn_url {
            Some(cdn) => {
                proof {
                    reveal_strlit("/static");
                }
                let mut u = string_from(cdn);
                let rest = tail_from(attr, 7);
                u.append(rest.as_str());
                return Some(u);
            },
            None => {},
        }
    }
    if str_starts_with(attr, "/") {
        match site_url {
            Some(site) => {
                let mut u = string_from(site);
                u.append(attr);
                return Some(u);
            },
            None => {},
        }
    }
    None
}

/// The `background-image` value that replaces `value`, if any.
pub fn rewrite_background(value: &str, site_url: Option<&str>, cdn_url: Option<&str>) -> (r: Option<String>)
    ensures
        match r {
            Some(u) => rewritten_background(value@, opt_str(site_url), opt_str(cdn_url)) == Some(u@),
            None => rewritten_background(value@, opt_str(site_url), opt_str(cdn_url)) is None,
        },
{
    if str_starts_with(value, "url('/static") {
        proof {
            reveal_strlit("url('/static");
        }
        match cdn_url {
            Some(cdn) => {
                let mut u = string_from("url('");
                u.append(cdn);
                let rest = tail_from(value, 12);
                u.append(rest.as_str());
                Some(u)
            },
            None => None,
        }
    } else if str_starts_with(value, "url('/") {
        proof {
            reveal_strlit("url('/");
        }
        match site_url {
            Some(site) => {
                let mut u = string_from("url('");
                u.append(site);
                u.append("/");
                let rest = tail_from(value, 6);
                u.append(rest.as_str());
                Some(u)
            },
            None => None,
        }
    } else {
        None
    }
}

/// The style that replaces `style`, if any: the same properties, each once,
/// with the `background-image` url rewritten.
pub fn rewrite_style(style: &str, site_url: Option<&str>, cdn_url: Option<&str>) -> (r: Option<String>)
    ensures
        match r {
            Some(s) => rewritten_style(style@, opt_str(site_url), opt_str(cdn_url)) == Some(s@),
            None => rewritten_style(style@, opt_str(site_url), opt_str(cdn_url)) is None,
        },
{
    let mut pairs = split_styles(style);
    let bg = match pairs.get("background-image") {
        Some(v) => v.clone(),
        None => {
            return None;
        },
    };
    let new_value = match rewrite_background(bg.as_str(), site_url, cdn_url) {
        Some(n) => n,
        None => {
            return None;
        },
    };
    let ghost nv = new_value@;
    pairs.insert(string_from("background-image"), new_value);
    let es = pairs.merged_entries();
    let ghost ev = es@.map_values(|e: (String, String)| (e.0@, e.1@));
    let mut out = String::new();
    let mut i: usize = 0;
    assert(ev.take(0) =~= Seq::<(Seq<char>, Seq<char>)>::empty());
    while i < es.len()
        invariant
            i <= es.len(),
            ev == es@.map_values(|e: (String, String)| (e.0@, e.1@)),
            out@ == style_text(ev.take(i as int)),
        decreases es.len() - i,
    {
        assert(ev.take(i + 1).drop_last() =~= ev.take(i as int));
        assert(ev.take(i + 1).last() == (es@[i as int].0@, es@[i as int].1@));
        out.append(es[i].0.as_str());
        out.append(": ");
        out.append(es[i].1.as_str());
        out.append(";");
        i = i + 1;
    }
    assert(ev.take(i as int) =~= ev);
    Some(out)
}


/// The new value of an attribute whose value is `value`, if any: a style
/// when `style` holds, a url otherwise.
pub open spec fn rewritten_attribute(style: bool, value: Seq<char>, site: Option<Seq<char>>, cdn: Option<Seq<char>>) -> Option<Seq<char>> {
    if style {
        rewritten_style(value, site, cdn)
    } else {
        rewritten_url(value, site, cdn)
    }
}

/// The new value of an attribute whose value is `value`, if any.
pub fn rewrite_attribute(style: bool, value: &str, site_url: Option<&str>, cdn_url: Option<&str>) -> (r: Option<String>)
    ensures
        match r {
            Some(v) => rewritten_attribute(style, value@, opt_str(site_url), opt_str(cdn_url)) == Some(v@),
            None => rewritten_attribute(style, value@, opt_str(site_url), opt_str(cdn_url)) is None,
        },
{
    if style {
        rewrite_style(value, site_url, cdn_url)
    } else {
        rewrite_url(value, site_url, cdn_url)
    }
}

/// What `lol_html`'s `HtmlRewriter` gives for `raw_html` with one element
/// handler on the CSS selector `selector`: for each matched element that has
/// the attribute `attr`, the handler sets it to what `rewrite_attribute`
/// gives for its value, when that is something. `None` when the selector
/// does not parse or the rewriter fails.
pub uninterp spec fn spec_rewrite_pass(raw_html: Seq<u8>, selector: Seq<char>, attr: Seq<char>, style: bool, site_url: Option<Seq<char>>, cdn_url: Option<Seq<char>>) -> Option<Seq<u8>>;

/// Runs `lol_html`'s `HtmlRewriter` over `raw_html` with the one handler
/// that `spec_rewrite_pass` describes. The result is named
/// `spec_rewrite_pass` of the inputs. One more fact is claimed: when the
/// handler can change no value, what comes out is the page byte for byte,
/// as `lol_html` emits untouched content as it came in. Success is not
/// claimed: the rewriter may fail on its memory limit or on markup it
/// cannot place.
#[verifier::external_body]
fn lol_pass(raw_html: &[u8], selector: &str, attr: &str, style: bool, site_url: Option<&str>, cdn_url: Option<&str>) -> (r: Option<Vec<u8>>)
    ensures
        match r {
            Some(v) => spec_rewrite_pass(raw_html@, selector@, attr@, style, opt_str(site_url), opt_str(cdn_url)) == Some(v@),
            None => spec_rewrite_pass(raw_html@, selector@, attr@, style, opt_str(site_url), opt_str(cdn_url)) is None,
        },
        (forall|v: Seq<char>| #[trigger] rewritten_attribute(style, v, opt_str(site_url), opt_str(cdn_url)) is None)
            ==> (r matches Some(out) ==> out@ == raw_html@),
{
    let handler = move |el: &mut Element| -> HandlerResult {
        if let Some(v) = el.get_attribute(attr).and_then(|a| rewrite_attribute(style, &a, site_url, cdn_url)) {
            el.set_attribute(attr, &v)?;
        }
        Ok(())
    };
    let on = Cow::Owned(selector.parse::<Selector>().ok()?);
    let settings = Settings::new().append_element_content_handler((on, ElementContentHandlers::default().element(handler)));
    let mut out = Vec::new();
    let mut w = HtmlRewriter::new(settings, |c: &[u8]| out.extend_from_slice(c));
    w.write(raw_html).and_then(|_| w.end()).ok()?;
    Some(out)
}

/// With neither a site url nor a CDN url, no attribute gets a new value.
pub proof fn lemma_no_base_no_rewrite(style: bool, value: Seq<char>)
    ensures
        rewritten_attribute(style, value, None, None) is None,
{
}

/// The page `raw_html` after the four rewriting passes, `None` when one of
/// them fails: the `href` of links and stylesheets, the `src` of scripts,
/// frames, images, audio and video, the style of the page background, and
/// the `content` of meta tags. Each pass touches one attribute of its own
/// elements, and no element matches two of the selectors.
pub open spec fn rewritten_html(raw_html: Seq<u8>, site: Option<Seq<char>>, cdn: Option<Seq<char>>) -> Option<Seq<u8>> {
    match spec_rewrite_pass(raw_html, "a[href], link[rel=stylesheet][href]"@, "href"@, false, site, cdn) {
        None => None,
        Some(a) => match spec_rewrite_pass(a, "script[src], iframe[src], img[src], audio[src], video[src]"@, "src"@, false, site, cdn) {
            None => None,
            Some(b) => match spec_rewrite_pass(b, "body>div.bg-primary.text-main"@, "style"@, true, site, cdn) {
                None => None,
                Some(c) => spec_rewrite_pass(c, "meta[content]"@, "content"@, false, site, cdn),
            },
        },
    }
}

/// Rewrites the root-relative urls of the page `raw_html` to the site url and
/// the CDN url; `None` when the page cannot be rewritten.
pub fn rewrite_html_base_url(raw_html: &[u8], site_url: Option<&str>, cdn_url: Option<&str>) -> (r: Option<Vec<u8>>)
    ensures
        r.is_some() == rewritten_html(raw_html@, opt_str(site_url), opt_str(cdn_url)).is_some(),
        r matches Some(v) ==> rewritten_html(raw_html@, opt_str(site_url), opt_str(cdn_url)) == Some(v@),
        site_url is None && cdn_url is None ==> (r matches Some(v) ==> v@ == raw_html@),
{
    proof {
        if site_url is None && cdn_url is None {
            assert forall|style: bool, v: Seq<char>| #[trigger] rewritten_attribute(style, v, opt_str(site_url), opt_str(cdn_url)) is None by {
                lemma_no_base_no_rewrite(style, v);
            }
        }
    }
    let a = match lol_pass(raw_html, "a[href], link[rel=stylesheet][href]", "href", false, site_url, cdn_url) {
        Some(a) => a,
        None => {
            return None;
        },
    };
    let b = match lol_pass(a.as_slice(), "script[src], iframe[src], img[src], audio[src], video[src]", "src", false, site_url, cdn_url) {
        Some(b) => b,
        None => {
            return None;
        },
    };
    let c = match lol_pass(b.as_slice(), "body>div.bg-primary.text-main", "style", true, site_url, cdn_url) {
        Some(c) => c,
        None => {
            return None;
        },
    };
    lol_pass(c.as_slice(), "meta[content]", "content", false, site_url, cdn_url)
}

} // verus!
