//! The highlight block.
use vstd::prelude::*;
use crate::options::OptionMap;
use crate::text::string_from;
use super::CodeBlock;

verus! {

/// The value of `key` in `opts`, if set.
pub open spec fn opt_get(opts: Map<Seq<char>, Seq<char>>, key: Seq<char>) -> Option<Seq<char>> {
    if opts.contains_key(key) { Some(opts[key]) } else { None }
}

/// The view of an optional text.
pub open spec fn opt_view(o: Option<String>) -> Option<Seq<char>> {
    match o {
        Some(s) => Some(s@),
        None => None,
    }
}

/// The highlight block.
pub struct HighlightBlock {
    pub bg_color: Option<String>,
    pub outline_color: Option<String>,
    pub content: String,
}

/// The HTML of a highlight block.
pub open spec fn highlight_html() -> Seq<char> {
    "<div class=\"highlight\">\n"@ + " <div></div>\n"@ + "</div>\n"@
}

fn cloned(o: Option<&String>) -> (r: Option<String>)
    ensures
        match o {
            Some(s) => r is Some && r->0@ == s@,
            None => r is None,
        },
{
    match o {
        Some(s) => Some(s.clone()),
        None => None,
    }
}

impl HighlightBlock {
    /// A highlight block with the `bg_color` and `outline_color` options.
    pub fn new(options: &OptionMap, block: &str) -> (r: Self)
        ensures
            opt_view(r.bg_color) == opt_get(options@, "bg_color"@),
            opt_view(r.outline_color) == opt_get(options@, "outline_color"@),
            r.content@ == block@,
    {
        HighlightBlock {
            bg_color: cloned(options.get("bg_color")),
            outline_color: cloned(options.get("outline_color")),
            content: string_from(block),
        }
    }
}

impl CodeBlock for HighlightBlock {
    fn render(&self) -> (r: String)
        ensures
            r@ == highlight_html(),
    {
        let mut html = string_from("<div class=\"highlight\">\n");
        html.append(" <div></div>\n");
        html.append("</div>\n");
        html
    }
}

} // verus!
