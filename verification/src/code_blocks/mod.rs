//! Fenced code blocks with custom rendering.
use vstd::prelude::*;
use crate::options::{pairs_map, parse_pairs, OptionMap};
use crate::text::{split, split_vec, string_from, str_eq, string_of, trim_end_char, trim_end_char_vec, chars_of, lemma_split_nonempty, vviews};

pub mod author;
pub mod callout;
pub mod gallery;
pub mod highlight;
pub mod inline_link;
pub mod quote;
pub mod url_preview;

pub use author::AuthorCode;
pub use callout::CalloutBlock;
pub use gallery::GalleryBlock;
pub use highlight::HighlightBlock;
pub use inline_link::InlineLink;
pub use quote::QuoteBlock;
pub use url_preview::{UrlPreviewBlock, UrlPreviewError, UrlPreviewInfo};

verus! {

/// A code block that renders itself to HTML.
pub trait CodeBlock {
    /// The HTML of this block.
    fn render(&self) -> String;
}

pub const CALLOUT: &'static str = "callout";

pub const QUOTE: &'static str = "quote";

pub const URL_PREVIEW: &'static str = "urlpreview";

/// The names of the code blocks rendered by this library.
pub open spec fn is_custom_name(name: Seq<char>) -> bool {
    name == CALLOUT@ || name == QUOTE@ || name == URL_PREVIEW@
}

/// What the info string of a fenced code block denotes: its name and its options,
/// or the (comma-trimmed) input when it has no name.
pub open spec fn fenced_parse(input: Seq<char>) -> Result<(Seq<char>, Map<Seq<char>, Seq<char>>), Seq<char>> {
    let t = trim_end_char(input, ',');
    if t.len() == 0 {
        Ok((Seq::empty(), Map::empty()))
    } else {
        let ps = split(t, ',');
        if ps[0].len() == 0 {
            Err(t)
        } else {
            Ok((ps[0], pairs_map(ps.drop_first(), true)))
        }
    }
}

/// The info string of a fenced code block: `name, key: value, ...`.
#[derive(Debug, Clone, PartialEq, Eq)]
pub struct Fenced {
    pub name: String,
    pub options: OptionMap,
}

/// A fenced info string that names no block.
#[derive(Debug, Clone, PartialEq, Eq)]
pub enum FencedError {
    Invalid(String),
}

impl FencedError {
    /// The message of this error.
    pub fn message(&self) -> (r: String)
        ensures
            match self {
                FencedError::Invalid(s) => r@ == "Invalid fenced: "@ + s@,
            },
    {
        match self {
            FencedError::Invalid(s) => {
                let mut m = string_from("Invalid fenced: ");
                m.append(s.as_str());
                m
            },
        }
    }
}

impl Fenced {
    /// The fenced info with no name and no options.
    pub fn empty() -> (r: Self)
        ensures
            r.name@ == Seq::<char>::empty(),
            r.options@ == Map::<Seq<char>, Seq<char>>::empty(),
    {
        Fenced { name: String::new(), options: OptionMap::new() }
    }

    /// Whether this block is one that this library renders itself.
    pub fn is_custom_code_block(&self) -> (r: bool)
        ensures
            r == is_custom_name(self.name@),
    {
        let n = self.name.as_str();
        str_eq(n, CALLOUT) || str_eq(n, QUOTE) || str_eq(n, URL_PREVIEW)
    }

    /// Parses the info string of a fenced code block. Trailing commas are ignored;
    /// the text before the first comma is the name, each later comma-separated
    /// piece a `key: value` option (a piece without `:` is skipped, a `-` in a key
    /// becomes `_`). The input fails when its name is empty.
    pub fn parse(input: &str) -> (r: Result<Self, FencedError>)
        ensures
            match r {
                Ok(f) => fenced_parse(input@) == Ok::<_, Seq<char>>((f.name@, f.options@)),
                Err(FencedError::Invalid(s)) => fenced_parse(input@) == Err::<(Seq<char>, Map<Seq<char>, Seq<char>>), _>(s@),
            },
    {
        let v = chars_of(input);
        let t = trim_end_char_vec(&v, ',');
        if t.len() == 0 {
            return Ok(Self::empty());
        }
        let ps = split_vec(&t, ',');
        proof {
            lemma_split_nonempty(t@, ',');
        }
        assert(ps@[0]@ == split(t@, ',')[0]);
        if ps[0].len() == 0 {
            return Err(FencedError::Invalid(string_of(t.as_slice())));
        }
        let options = parse_pairs(&ps, 1, true);
        assert(vviews(ps@).skip(1) =~= split(t@, ',').drop_first());
        Ok(Fenced { name: string_of(ps[0].as_slice()), options })
    }
}

} // verus!
