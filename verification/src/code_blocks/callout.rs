//! The callout block, highlighting some paragraphs.
use vstd::prelude::*;
use crate::helpers::{spec_to_lowercase, to_lowercase};
use crate::options::OptionMap;
use crate::text::{str_eq, string_from};

verus! {

pub const DEFAULT_BG_COLOR: &'static str = "#e1eaff";

pub const DEFAULT_BORDER_COLOR: &'static str = "#82a7fc";

/// The background and border colors of a callout theme, given by its
/// lower-cased name; an unknown theme is the blue default.
pub open spec fn theme_colors(lower: Seq<char>) -> (Seq<char>, Seq<char>) {
    if lower == "grey"@ || lower == "gray"@ {
        ("#dee0e399"@, "#dee0e3"@)
    } else if lower == "red"@ {
        ("#fde2e2"@, "#f98e8b"@)
    } else if lower == "orange"@ {
        ("#feead2"@, "#ffba6b"@)
    } else if lower == "yellow"@ {
        ("#ffffcc"@, "#fff67a"@)
    } else if lower == "green"@ {
        ("#d9f5d6"@, "#8ee085"@)
    } else if lower == "purple"@ {
        ("#eceafe"@, "#ad82f7"@)
    } else {
        (DEFAULT_BG_COLOR@, DEFAULT_BORDER_COLOR@)
    }
}

/// The colors a callout gets from its options: `bg_color` and `border_color`
/// when given, else those of the `theme` option (compared in lower case), else
/// the defaults.
pub open spec fn callout_colors(opts: Map<Seq<char>, Seq<char>>) -> (Seq<char>, Seq<char>) {
    let theme = if opts.contains_key("theme"@) {
        theme_colors(spec_to_lowercase(opts["theme"@]))
    } else {
        (DEFAULT_BG_COLOR@, DEFAULT_BORDER_COLOR@)
    };
    (
        if opts.contains_key("bg_color"@) { opts["bg_color"@] } else { theme.0 },
        if opts.contains_key("border_color"@) { opts["border_color"@] } else { theme.1 },
    )
}

/// The HTML of a callout around already rendered content.
pub open spec fn callout_html(bg: Seq<char>, border: Seq<char>, inner: Seq<char>) -> Seq<char> {
    "<div class=\"callout\" style=\"background-color: "@ + bg + "; border-color: "@ + border
        + "\">\n"@ + " <div>"@ + inner + "</div>\n"@ + "</div>\n"@
}

/// The callout block.
pub struct CalloutBlock {
    pub bg_color: String,
    pub border_color: String,
    /// The markdown content of the block.
    pub content: String,
}

fn theme_colors_exec(lower: &str) -> (r: (&'static str, &'static str))
    ensures
        (r.0@, r.1@) == theme_colors(lower@),
{
    if str_eq(lower, "grey") || str_eq(lower, "gray") {
        ("#dee0e399", "#dee0e3")
    } else if str_eq(lower, "red") {
        ("#fde2e2", "#f98e8b")
    } else if str_eq(lower, "orange") {
        ("#feead2", "#ffba6b")
    } else if str_eq(lower, "yellow") {
        ("#ffffcc", "#fff67a")
    } else if str_eq(lower, "green") {
        ("#d9f5d6", "#8ee085")
    } else if str_eq(lower, "purple") {
        ("#eceafe", "#ad82f7")
    } else {
        (DEFAULT_BG_COLOR, DEFAULT_BORDER_COLOR)
    }
}

impl CalloutBlock {
    /// A callout with the colors of `options` around the markdown `block`.
    pub fn new(options: OptionMap, block: &str) -> (r: Self)
        ensures
            (r.bg_color@, r.border_color@) == callout_colors(options@),
            r.content@ == block@,
    {
        let (bg_color, border_color) = Self::parse_colors(&options);
        CalloutBlock { bg_color, border_color, content: string_from(block) }
    }

    /// The background and border colors given by `options`.
    pub fn parse_colors(options: &OptionMap) -> (r: (String, String))
        ensures
            (r.0@, r.1@) == callout_colors(options@),
    {
        let theme = match options.get("theme") {
            Some(t) => {
                let lower = to_lowercase(t.as_str());
                theme_colors_exec(lower.as_str())
            },
            None => (DEFAULT_BG_COLOR, DEFAULT_BORDER_COLOR),
        };
        let bg = match options.get("bg_color") {
            Some(c) => c.clone(),
            None => string_from(theme.0),
        };
        let border = match options.get("border_color") {
            Some(c) => c.clone(),
            None => string_from(theme.1),
        };
        (bg, border)
    }

    /// The HTML of this callout around `block_html`, the rendered markdown content.
    pub fn render_with(&self, block_html: &str) -> (r: String)
        ensures
            r@ == callout_html(self.bg_color@, self.border_color@, block_html@),
    {
        let mut html = string_from("<div class=\"callout\" style=\"background-color: ");
        html.append(self.bg_color.as_str());
        html.append("; border-color: ");
        html.append(self.border_color.as_str());
        html.append("\">\n");
        html.append(" <div>");
        html.append(block_html);
        html.append("</div>\n");
        html.append("</div>\n");
        html
    }
}

/// The callout themes and their colors: a `theme` option, in any case,
/// names one of these rows; with no `bg_color` or `border_color` given, the
/// callout takes that row's background and border. Each theme has colors of
/// its own (`grey` and `gray` are one theme), and an unknown theme is blue.
pub proof fn lemma_callout_theme_table(opts: Map<Seq<char>, Seq<char>>)
    requires
        opts.contains_key("theme"@),
        !opts.contains_key("bg_color"@),
        !opts.contains_key("border_color"@),
    ensures
        ({
            let t = spec_to_lowercase(opts["theme"@]);
            let c = callout_colors(opts);
            &&& (t == "grey"@ || t == "gray"@) ==> c == ("#dee0e399"@, "#dee0e3"@)
            &&& t == "red"@ ==> c == ("#fde2e2"@, "#f98e8b"@)
            &&& t == "orange"@ ==> c == ("#feead2"@, "#ffba6b"@)
            &&& t == "yellow"@ ==> c == ("#ffffcc"@, "#fff67a"@)
            &&& t == "green"@ ==> c == ("#d9f5d6"@, "#8ee085"@)
            &&& t == "purple"@ ==> c == ("#eceafe"@, "#ad82f7"@)
            &&& (t != "grey"@ && t != "gray"@ && t != "red"@ && t != "orange"@ && t != "yellow"@ && t != "green"@
                && t != "purple"@) ==> c == ("#e1eaff"@, "#82a7fc"@)
        }),
{
    reveal_strlit("grey");
    reveal_strlit("gray");
    reveal_strlit("red");
    reveal_strlit("orange");
    reveal_strlit("yellow");
    reveal_strlit("green");
    reveal_strlit("purple");
    assert("grey"@[2] != "gray"@[2]);
    assert("orange"@[0] != "yellow"@[0]);
    assert("orange"@[0] != "purple"@[0]);
    assert("yellow"@[0] != "purple"@[0]);
    reveal_strlit("#e1eaff");
    reveal_strlit("#82a7fc");
    let t = spec_to_lowercase(opts["theme"@]);
    assert(callout_colors(opts) == theme_colors(t));
    assert(DEFAULT_BG_COLOR@ == "#e1eaff"@);
    assert(DEFAULT_BORDER_COLOR@ == "#82a7fc"@);
    let c = callout_colors(opts);
    assert((t == "grey"@ || t == "gray"@) ==> c == ("#dee0e399"@, "#dee0e3"@));
    assert(t == "red"@ ==> c == ("#fde2e2"@, "#f98e8b"@));
    assert(t == "orange"@ ==> c == ("#feead2"@, "#ffba6b"@));
    assert(t == "yellow"@ ==> c == ("#ffffcc"@, "#fff67a"@));
    assert("green"@.len() == 5 && "grey"@.len() == 4 && "gray"@.len() == 4 && "red"@.len() == 3);
    assert("orange"@.len() == 6 && "yellow"@.len() == 6);
    assert(t == "green"@ ==> c == ("#d9f5d6"@, "#8ee085"@));
    assert(t == "purple"@ ==> c == ("#eceafe"@, "#ad82f7"@));
}

/// Two callouts whose themes name different rows of the table get different
/// colors.
pub proof fn lemma_callout_themes_distinct(a: Seq<char>, b: Seq<char>)
    requires
        a != b,
        !((a == "grey"@ || a == "gray"@) && (b == "grey"@ || b == "gray"@)),
        a == "grey"@ || a == "gray"@ || a == "red"@ || a == "orange"@ || a == "yellow"@ || a == "green"@ || a == "purple"@,
        b == "grey"@ || b == "gray"@ || b == "red"@ || b == "orange"@ || b == "yellow"@ || b == "green"@ || b == "purple"@,
    ensures
        theme_colors(a).0 != theme_colors(b).0,
        theme_colors(a).1 != theme_colors(b).1,
{
    reveal_strlit("grey");
    reveal_strlit("gray");
    reveal_strlit("red");
    reveal_strlit("orange");
    reveal_strlit("yellow");
    reveal_strlit("green");
    reveal_strlit("purple");
    assert("grey"@[2] != "gray"@[2]);
    assert("orange"@[0] != "yellow"@[0]);
    assert("orange"@[0] != "purple"@[0]);
    assert("yellow"@[0] != "purple"@[0]);
    reveal_strlit("#dee0e399");
    reveal_strlit("#dee0e3");
    reveal_strlit("#fde2e2");
    reveal_strlit("#f98e8b");
    reveal_strlit("#feead2");
    reveal_strlit("#ffba6b");
    reveal_strlit("#ffffcc");
    reveal_strlit("#fff67a");
    reveal_strlit("#d9f5d6");
    reveal_strlit("#8ee085");
    reveal_strlit("#eceafe");
    reveal_strlit("#ad82f7");
    let x = theme_colors(a);
    let y = theme_colors(b);
    if x.0 == y.0 {
        assert(x.0[1] == y.0[1] && x.0[2] == y.0[2]);
    }
    if x.1 == y.1 {
        assert(x.1[1] == y.1[1] && x.1[2] == y.1[2] && x.1[3] == y.1[3]);
    }
}

} // verus!
