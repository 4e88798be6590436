//! Inline code of the markdown that this magazine renders itself: author
//! links `@id`, article links `/path` and topic links `#topic`.
use vstd::prelude::*;
use crate::code_blocks::author::author_code_html;
use crate::code_blocks::highlight::opt_view;
use crate::code_blocks::inline_link::inline_link_html;
use crate::code_blocks::{AuthorCode, CodeBlock, InlineLink};
use crate::data::{article_by_path, author_by_id, valid_topic, ZineData, ZineDataView};
use crate::text::{chars_of, string_from, string_of, sub_vec};

pub mod render;

verus! {

/// The HTML of a topic link.
pub open spec fn topic_link_html(topic: Seq<char>) -> Seq<char> {
    "<a href=\"/topic/"@ + topic + "\">#"@ + topic + "</a>"@
}

/// The HTML that replaces the inline code `code`, if any: the author link of a
/// declared author `@id`, the inline link of an article found at `/path`, the
/// link of a declared topic `#topic`.
pub open spec fn code_html(d: ZineDataView, code: Seq<char>) -> Option<Seq<char>> {
    if code.len() > 0 && code[0] == '@' {
        match author_by_id(d.authors, code.drop_first()) {
            Some(a) => Some(author_code_html(a.id@, opt_view(a.avatar), a.name->0@)),
            None => None,
        }
    } else if code.len() > 0 && code[0] == '/' {
        match article_by_path(d.articles, code) {
            Some(m) => Some(
                inline_link_html(
                    m.title@,
                    code,
                    match m.cover {
                        Some(c) => c@,
                        None => Seq::empty(),
                    },
                ),
            ),
            None => None,
        }
    } else if code.len() > 0 && code[0] == '#' {
        if valid_topic(d.topics, code.drop_first()) {
            Some(topic_link_html(code.drop_first()))
        } else {
            None
        }
    } else {
        None
    }
}

/// Whether the author that `code` names, if any, has a name to show.
pub open spec fn named_author_code(d: ZineDataView, code: Seq<char>) -> bool {
    code.len() > 0 && code[0] == '@' ==> match author_by_id(d.authors, code.drop_first()) {
        Some(a) => a.name is Some,
        None => true,
    }
}

/// The visitor of the inline code of the magazine's markdown.
#[derive(Debug, Clone, Copy)]
pub struct ZineMarkdownVisitor;

impl ZineMarkdownVisitor {
    /// The HTML that replaces the inline code `code`, if any.
    pub fn visit_code(&self, data: &ZineData, code: &str) -> (r: Option<String>)
        requires
            named_author_code(data@, code@),
        ensures
            match r {
                Some(h) => code_html(data@, code@) == Some(h@),
                None => code_html(data@, code@) is None,
            },
    {
        let v = chars_of(code);
        if v.len() == 0 {
            return None;
        }
        if v[0] == '@' {
            let rest = sub_vec(&v, 1, v.len());
            let id = string_of(rest.as_slice());
            assert(id@ =~= code@.drop_first());
            match data.get_author_by_id(id.as_str()) {
                Some(author) => {
                    let html = AuthorCode(author).render();
                    Some(html)
                },
                None => None,
            }
        } else if v[0] == '/' {
            match data.get_article_by_path(code) {
                Some(article) => {
                    let link = InlineLink::new(article.title.as_str(), code, article.cover.as_ref());
                    Some(link.render())
                },
                None => None,
            }
        } else if v[0] == '#' {
            let rest = sub_vec(&v, 1, v.len());
            let topic = string_of(rest.as_slice());
            assert(topic@ =~= code@.drop_first());
            if data.is_valid_topic(topic.as_str()) {
                let mut html = string_from("<a href=\"/topic/");
                html.append(topic.as_str());
                html.append("\">#");
                html.append(topic.as_str());
                html.append("</a>");
                Some(html)
            } else {
                None
            }
        } else {
            None
        }
    }
}

} // verus!
