//! The url preview block.
use vstd::prelude::*;
use crate::options::OptionMap;
use crate::text::{str_eq, string_from};
use super::CodeBlock;

verus! {

/// What a previewed url shows.
#[derive(Debug, Clone, PartialEq, Eq)]
pub struct UrlPreviewInfo {
    pub title: String,
    pub description: String,
    pub image: Option<String>,
}

/// Whether a url preview shows its image under the `image` option: only the
/// option value `false` hides it.
pub open spec fn show_image_option(opts: Map<Seq<char>, Seq<char>>) -> bool {
    !(opts.contains_key("image"@) && opts["image"@] == "false"@)
}

/// A url preview shows its image unless its options say `image: false`:
/// with no `image` option the image is shown, and any other value shows it.
pub proof fn lemma_image_shown_by_default(opts: Map<Seq<char>, Seq<char>>)
    ensures
        !opts.contains_key("image"@) ==> show_image_option(opts),
        opts.contains_key("image"@) ==> (show_image_option(opts) <==> opts["image"@] != "false"@),
{
}

/// The HTML of a url preview.
pub open spec fn url_preview_html(
    url: Seq<char>,
    title: Seq<char>,
    description: Seq<char>,
    image: Option<Seq<char>>,
) -> Seq<char> {
    "<div class=\"url-preview\">\n"@ + " <div>"@ + title + "</div>\n"@ + " <div>"@ + description
        + "</div>\n"@ + " <a href=\""@ + url + "\">"@ + url + "</a>\n"@ + match image {
        Some(i) => if i.len() > 0 { " <img src=\""@ + i + "\" />\n"@ } else { Seq::empty() },
        None => Seq::empty(),
    } + "</div>\n"@
}

/// The HTML of a failed url preview.
pub open spec fn url_preview_error_html(url: Seq<char>, error: Seq<char>) -> Seq<char> {
    "<div class=\"url-preview\">\n"@ + " <div></div>\n"@ + " <div>Url preview error: "@ + error
        + "</div>\n"@ + " <a href=\""@ + url + "\">"@ + url + "</a>\n"@ + "</div>\n"@
}

/// The preview of a url.
pub struct UrlPreviewBlock {
    pub url: String,
    pub info: UrlPreviewInfo,
    /// Whether the preview image is shown; default to true.
    pub show_image: bool,
}

impl UrlPreviewBlock {
    /// The preview of `url` with `info`.
    pub fn new(options: OptionMap, url: &str, info: UrlPreviewInfo) -> (r: Self)
        ensures
            r.url@ == url@,
            r.info == info,
            r.show_image == show_image_option(options@),
            !options@.contains_key("image"@) ==> r.show_image,
            options@.contains_key("image"@) ==> (r.show_image <==> options@["image"@] != "false"@),
    {
        let show_image = match options.get("image") {
            Some(v) => {
                if str_eq(v.as_str(), "false") {
                    false
                } else {
                    true
                }
            },
            None => true,
        };
        UrlPreviewBlock { url: string_from(url), info, show_image }
    }
}

impl CodeBlock for UrlPreviewBlock {
    fn render(&self) -> (r: String)
        ensures
            r@ == url_preview_html(
                self.url@,
                self.info.title@,
                self.info.description@,
                if self.show_image {
                    match self.info.image {
                        Some(i) => Some(i@),
                        None => None,
                    }
                } else {
                    None
                },
            ),
    {
        let mut html = string_from("<div class=\"url-preview\">\n");
        html.append(" <div>");
        html.append(self.info.title.as_str());
        html.append("</div>\n");
        html.append(" <div>");
        html.append(self.info.description.as_str());
        html.append("</div>\n");
        html.append(" <a href=\"");
        html.append(self.url.as_str());
        html.append("\">");
        html.append(self.url.as_str());
        html.append("</a>\n");
        if self.show_image {
            match &self.info.image {
                Some(image) => {
                    if !image.as_str().is_empty() {
                        html.append(" <img src=\"");
                        html.append(image.as_str());
                        html.append("\" />\n");
                    }
                },
                None => {},
            }
        }
        html.append("</div>\n");
        html
    }
}

/// A url preview that failed, with its url and error message.
pub struct UrlPreviewError(pub String, pub String);

impl CodeBlock for UrlPreviewError {
    fn render(&self) -> (r: String)
        ensures
            r@ == url_preview_error_html(self.0@, self.1@),
    {
        let mut html = string_from("<div class=\"url-preview\">\n");
        html.append(" <div></div>\n");
        html.append(" <div>Url preview error: ");
        html.append(self.1.as_str());
        html.append("</div>\n");
        html.append(" <a href=\"");
        html.append(self.0.as_str());
        html.append("\">");
        html.append(self.0.as_str());
        html.append("</a>\n");
        html.append("</div>\n");
        html
    }
}

} // verus!
