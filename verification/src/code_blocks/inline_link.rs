//! An inline link to an article of the magazine.
use vstd::prelude::*;
use crate::text::string_from;
use super::CodeBlock;

verus! {

/// The HTML of an inline link.
pub open spec fn inline_link_html(title: Seq<char>, url: Seq<char>, image: Seq<char>) -> Seq<char> {
    "<a class=\"inline-link\"\n                    href=\""@ + url
        + "\"\n                    data-title=\""@ + title
        + "\"\n                    data-url=\""@ + url
        + "\"\n                    data-image=\""@ + image
        + "\">\n                    "@ + title
        + "\n            </a>\n"@
}

/// An inline link.
pub struct InlineLink {
    pub title: String,
    pub url: String,
    pub image: Option<String>,
}

impl InlineLink {
    /// An inline link with the given title, url and optional image.
    pub fn new(title: &str, url: &str, image: Option<&String>) -> (r: Self)
        ensures
            r.title@ == title@,
            r.url@ == url@,
            match image {
                Some(i) => r.image is Some && r.image->0@ == i@,
                None => r.image is None,
            },
    {
        InlineLink {
            title: string_from(title),
            url: string_from(url),
            image: match image {
                Some(i) => Some(i.clone()),
                None => None,
            },
        }
    }
}

impl CodeBlock for InlineLink {
    fn render(&self) -> (r: String)
        ensures
            r@ == inline_link_html(
                self.title@,
                self.url@,
                match self.image {
                    Some(i) => i@,
                    None => Seq::empty(),
                },
            ),
    {
        let mut html = string_from("<a class=\"inline-link\"\n                    href=\"");
        html.append(self.url.as_str());
        html.append("\"\n                    data-title=\"");
        html.append(self.title.as_str());
        html.append("\"\n                    data-url=\"");
        html.append(self.url.as_str());
        html.append("\"\n                    data-image=\"");
        match &self.image {
            Some(i) => html.append(i.as_str()),
            None => {},
        }
        html.append("\">\n                    ");
        html.append(self.title.as_str());
        html.append("\n            </a>\n");
        html
    }
}

} // verus!
