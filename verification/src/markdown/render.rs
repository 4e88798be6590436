//! The decisions of the markdown renderer: what becomes of each event of the
//! markdown parser, and the table of contents. The events themselves are
//! opaque values `E` of the caller, kept for the headings.
use vstd::prelude::*;
use crate::code_blocks::{fenced_parse, is_custom_name, Fenced};
use crate::data::ZineData;
use crate::entity::MarkdownConfig;
use crate::helpers::{spec_to_lowercase, to_lowercase};
use crate::text::{chars_of, replace_char, replace_char_vec, str_starts_with, string_from, string_of, starts_with};
use super::{code_html, named_author_code, ZineMarkdownVisitor};

verus! {

/// A heading of the markdown, an entry of the table of contents.
pub struct Heading<E> {
    /// The depth relative to the levels in use.
    pub depth: usize,
    /// The heading level: 1 for h1 up to 6 for h6.
    pub level: usize,
    /// The anchor id, given as `{#id}` or derived from the title.
    pub id: Option<String>,
    /// The text of the heading.
    pub title: String,
    /// The events inside the heading.
    pub events: Vec<E>,
}

/// What the renderer reads of a tag.
pub enum Tag {
    /// A fenced code block with its info string.
    FencedCodeBlock(String),
    IndentedCodeBlock,
    Image { src: String, title: String },
    Heading { level: usize, id: Option<String> },
    /// Any other tag.
    Other,
}

/// What becomes of an event.
pub enum Visiting<E> {
    /// This HTML is rendered in place of the event.
    Html(String),
    /// A heading to render from its level, anchor id and inner events.
    Heading { level: usize, id: String, events: Vec<E> },
    /// A code block that this library renders itself (see `from_rendered`).
    CustomBlock { fenced: Fenced, text: String },
    /// A code block to highlight in the language `lang`.
    Highlight { lang: String, text: String },
    /// The event is rendered unchanged.
    NotChanged,
    /// The event is not rendered.
    Ignore,
}

impl<E> Visiting<E> {
    /// What becomes of a custom code block once rendered: its HTML, or the
    /// event unchanged when the block rendered nothing.
    pub fn from_rendered(html: Option<String>) -> (r: Self)
        ensures
            match html {
                Some(h) => r matches Visiting::Html(x) && x == h,
                None => r is NotChanged,
            },
    {
        match html {
            Some(h) => Visiting::Html(h),
            None => Visiting::NotChanged,
        }
    }
}

/// The anchor id derived from a heading title: lower case, spaces as dashes.
pub open spec fn heading_anchor(title: Seq<char>) -> Seq<char> {
    replace_char(spec_to_lowercase(title), ' ', '-')
}

/// The HTML of a markdown image, loaded lazily.
pub open spec fn image_html(src: Seq<char>, alt: Seq<char>, title: Seq<char>) -> Seq<char> {
    "<img src=\""@ + src + "\" alt=\""@ + alt + "\" title=\""@ + title + "\" loading=\"lazy\">"@
}

/// Whether `s` is strictly increasing.
pub open spec fn strictly_increasing(s: Seq<usize>) -> bool {
    forall|i: int, j: int| 0 <= i < j < s.len() ==> s[i] < s[j]
}

/// The markdown renderer's state.
pub struct MarkdownRender<'a, E> {
    pub markdown_config: &'a MarkdownConfig,
    /// The info string of the fenced code block being read.
    pub code_block_fenced: Option<String>,
    /// Whether an image is being read.
    pub processing_image: bool,
    /// The alt text of the image being read.
    pub image_alt: Option<String>,
    /// The heading being read.
    pub heading: Option<Heading<E>>,
    /// The heading levels met, ascending.
    pub levels: Vec<usize>,
    /// The table of contents.
    pub toc: Vec<Heading<E>>,
}

impl<'a, E> MarkdownRender<'a, E> {
    /// Whether the levels are ascending and hold the level of each entry of
    /// the table of contents.
    pub open spec fn wf(&self) -> bool {
        &&& strictly_increasing(self.levels@)
        &&& forall|i: int| 0 <= i < self.toc@.len() ==> self.levels@.contains(#[trigger] self.toc@[i].level)
    }

    /// Whether `self` and `other` agree on everything but the heading, the
    /// levels and the table of contents.
    pub open spec fn same_reading(&self, other: &Self) -> bool {
        &&& self.markdown_config == other.markdown_config
        &&& self.code_block_fenced == other.code_block_fenced
        &&& self.processing_image == other.processing_image
        &&& self.image_alt == other.image_alt
    }

    /// Whether `self` and `other` agree on the heading, the levels and the
    /// table of contents.
    pub open spec fn same_headings(&self, other: &Self) -> bool {
        &&& self.heading == other.heading
        &&& self.levels == other.levels
        &&& self.toc == other.toc
    }

    /// Whether `self` is `other` with `raw` added to the events of the heading
    /// being read.
    pub open spec fn heading_event_added(&self, other: &Self, raw: E) -> bool {
        &&& match (self.heading, other.heading) {
            (Some(h), Some(g)) => {
                &&& h.events@ == g.events@.push(raw)
                &&& h.depth == g.depth && h.level == g.level && h.id == g.id && h.title == g.title
            },
            _ => false,
        }
        &&& self.levels == other.levels
        &&& self.toc == other.toc
    }

    /// A renderer with nothing read yet.
    pub fn new(markdown_config: &'a MarkdownConfig) -> (r: Self)
        ensures
            r.markdown_config == markdown_config,
            r.code_block_fenced is None,
            !r.processing_image,
            r.image_alt is None,
            r.heading is None,
            r.levels@.len() == 0,
            r.toc@.len() == 0,
            r.wf(),
    {
        MarkdownRender {
            markdown_config,
            code_block_fenced: None,
            processing_image: false,
            image_alt: None,
            heading: None,
            levels: Vec::new(),
            toc: Vec::new(),
        }
    }

    /// Sets the depth of each entry of the table of contents: the rank of its
    /// level among the levels met, from 1.
    pub fn rebuild_toc_depth(&mut self)
        requires
            old(self).wf(),
        ensures
            final(self).toc@.len() == old(self).toc@.len(),
            forall|i: int|
                0 <= i < final(self).toc@.len() ==> {
                    let t = #[trigger] final(self).toc@[i];
                    let o = old(self).toc@[i];
                    &&& 1 <= t.depth <= final(self).levels@.len()
                    &&& final(self).levels@[t.depth - 1] == t.level
                    &&& t.level == o.level && t.id == o.id && t.title == o.title && t.events == o.events
                },
            forall|i: int, j: int|
                0 <= i < final(self).toc@.len() && 0 <= j < final(self).toc@.len() ==> (final(self).toc@[i].level
                    < final(self).toc@[j].level <==> final(self).toc@[i].depth < final(self).toc@[j].depth),
            final(self).levels == old(self).levels,
            final(self).heading == old(self).heading,
            final(self).same_reading(old(self)),
            final(self).wf(),
    {
        let mut i: usize = 0;
        while i < self.toc.len()
            invariant
                i <= self.toc.len(),
                self.toc@.len() == old(self).toc@.len(),
                self.levels == old(self).levels,
                self.heading == old(self).heading,
                self.same_reading(old(self)),
                old(self).wf(),
                forall|j: int|
                    0 <= j < i ==> {
                        let t = #[trigger] self.toc@[j];
                        let o = old(self).toc@[j];
                        &&& 1 <= t.depth <= self.levels@.len()
                        &&& self.levels@[t.depth - 1] == t.level
                        &&& t.level == o.level && t.id == o.id && t.title == o.title && t.events == o.events
                    },
                forall|j: int| i <= j < self.toc@.len() ==> #[trigger] self.toc@[j] == old(self).toc@[j],
            decreases self.toc.len() - i,
        {
            let level = self.toc[i].level;
            assert(old(self).toc@[i as int].level == level);
            assert(self.levels@.contains(level));
            let mut p: usize = 0;
            while p < self.levels.len() && self.levels[p] != level
                invariant
                    p <= self.levels.len(),
                    self.levels@.contains(level),
                    forall|q: int| 0 <= q < p ==> self.levels@[q] != level,
                decreases self.levels.len() - p,
            {
                p = p + 1;
            }
            self.toc[i].depth = p + 1;
            i = i + 1;
        }
        assert forall|k: int| 0 <= k < self.toc@.len() implies self.levels@.contains(#[trigger] self.toc@[k].level) by {
            assert(self.levels@[self.toc@[k].depth - 1] == self.toc@[k].level);
        }
        assert forall|a: int, b: int| 0 <= a < self.toc@.len() && 0 <= b < self.toc@.len() implies (self.toc@[a].level
            < self.toc@[b].level <==> self.toc@[a].depth < self.toc@[b].depth) by {
            let da = self.toc@[a].depth - 1;
            let db = self.toc@[b].depth - 1;
            assert(self.levels@[da] == self.toc@[a].level);
            assert(self.levels@[db] == self.toc@[b].level);
            if da < db {
                assert(self.levels@[da] < self.levels@[db]);
            } else if db < da {
                assert(self.levels@[db] < self.levels@[da]);
            }
        }
    }

    /// Adds `level` to the levels met, keeping them ascending.
    fn insert_level(&mut self, level: usize)
        requires
            strictly_increasing(old(self).levels@),
        ensures
            strictly_increasing(final(self).levels@),
            final(self).levels@.to_set() == old(self).levels@.to_set().insert(level),
            forall|x: usize| old(self).levels@.contains(x) ==> final(self).levels@.contains(x),
            final(self).levels@.contains(level),
            final(self).toc == old(self).toc,
            final(self).heading == old(self).heading,
            final(self).same_reading(old(self)),
    {
        let mut p: usize = 0;
        while p < self.levels.len() && self.levels[p] < level
            invariant
                p <= self.levels.len(),
                forall|q: int| 0 <= q < p ==> self.levels@[q] < level,
            decreases self.levels.len() - p,
        {
            p = p + 1;
        }
        if p < self.levels.len() && self.levels[p] == level {
            assert(self.levels@.to_set() =~= old(self).levels@.to_set().insert(level));
            return;
        }
        let ghost before = self.levels@;
        self.levels.insert(p, level);
        assert(self.levels@ =~= before.take(p as int) + seq![level] + before.skip(p as int));
        assert forall|i: int, j: int| 0 <= i < j < self.levels@.len() implies self.levels@[i] < self.levels@[j] by {
            if j < p {
            } else if j == p {
            } else if i < p {
                assert(self.levels@[j] == before[j - 1]);
            } else if i == p {
                assert(self.levels@[j] == before[j - 1]);
                assert(before[p as int] >= level);
                if j - 1 > p {
                    assert(before[p as int] < before[j - 1]);
                }
            } else {
                assert(self.levels@[i] == before[i - 1]);
                assert(self.levels@[j] == before[j - 1]);
            }
        }
        assert forall|x: usize| #[trigger] self.levels@.contains(x) <==> (before.contains(x) || x == level) by {
            if before.contains(x) {
                let k = choose|k: int| 0 <= k < before.len() && before[k] == x;
                if k < p {
                    assert(self.levels@[k] == x);
                } else {
                    assert(self.levels@[k + 1] == x);
                }
            }
            if x == level {
                assert(self.levels@[p as int] == level);
            }
            if self.levels@.contains(x) {
                let k = choose|k: int| 0 <= k < self.levels@.len() && self.levels@[k] == x;
                if k < p {
                    assert(before[k] == x);
                } else if k > p {
                    assert(before[k - 1] == x);
                }
            }
        }
        assert(self.levels@.to_set() =~= old(self).levels@.to_set().insert(level));
        assert(self.levels@[p as int] == level);
        assert forall|x: usize| old(self).levels@.contains(x) implies self.levels@.contains(x) by {
            assert(self.levels@.to_set().contains(x));
        }
    }

    /// What becomes of the start of `tag`; `raw` is the event itself.
    pub fn visit_start_tag(&mut self, tag: Tag, raw: E) -> (r: Visiting<E>)
        requires
            old(self).wf(),
        ensures
            final(self).wf(),
            final(self).markdown_config == old(self).markdown_config,
            match tag {
                Tag::FencedCodeBlock(name) => {
                    &&& r is Ignore
                    &&& final(self).code_block_fenced == Some(name)
                    &&& final(self).processing_image == old(self).processing_image
                    &&& final(self).image_alt == old(self).image_alt
                    &&& final(self).same_headings(old(self))
                },
                Tag::Image { .. } => {
                    &&& r is Ignore
                    &&& final(self).processing_image
                    &&& final(self).code_block_fenced == old(self).code_block_fenced
                    &&& final(self).image_alt == old(self).image_alt
                    &&& final(self).same_headings(old(self))
                },
                Tag::Heading { level, id } => {
                    &&& r is Ignore
                    &&& final(self).heading matches Some(h) && h.depth == level && h.level == level && h.id
                        == id && h.title@.len() == 0 && h.events@.len() == 0
                    &&& final(self).levels == old(self).levels
                    &&& final(self).toc == old(self).toc
                    &&& final(self).same_reading(old(self))
                },
                _ => {
                    &&& final(self).same_reading(old(self))
                    &&& old(self).heading is Some ==> r is Ignore && final(self).heading_event_added(old(self), raw)
                    &&& old(self).heading is None ==> r is NotChanged && final(self).same_headings(old(self))
                },
            },
    {
        match tag {
            Tag::FencedCodeBlock(name) => {
                self.code_block_fenced = Some(name);
                Visiting::Ignore
            },
            Tag::Image { .. } => {
                self.processing_image = true;
                Visiting::Ignore
            },
            Tag::Heading { level, id } => {
                self.heading = Some(Heading { depth: level, level, id, title: String::new(), events: Vec::new() });
                Visiting::Ignore
            },
            _ => {
                match &mut self.heading {
                    Some(h) => {
                        h.events.push(raw);
                        Visiting::Ignore
                    },
                    None => Visiting::NotChanged,
                }
            },
        }
    }

    /// What becomes of the end of `tag`; `raw` is the event itself.
    pub fn visit_end_tag(&mut self, tag: Tag, raw: E) -> (r: Visiting<E>)
        requires
            old(self).wf(),
        ensures
            final(self).wf(),
            final(self).markdown_config == old(self).markdown_config,
            match tag {
                Tag::Image { src, title } => {
                    &&& r matches Visiting::Html(h) && h@ == image_html(
                        src@,
                        match old(self).image_alt {
                            Some(a) => a@,
                            None => Seq::empty(),
                        },
                        title@,
                    )
                    &&& !final(self).processing_image
                    &&& final(self).image_alt is None
                    &&& final(self).code_block_fenced == old(self).code_block_fenced
                    &&& final(self).same_headings(old(self))
                },
                Tag::FencedCodeBlock(_) | Tag::IndentedCodeBlock => {
                    &&& r is Ignore
                    &&& final(self).code_block_fenced is None
                    &&& final(self).processing_image == old(self).processing_image
                    &&& final(self).image_alt == old(self).image_alt
                    &&& final(self).same_headings(old(self))
                },
                Tag::Heading { .. } => {
                    &&& final(self).same_reading(old(self))
                    &&& old(self).heading is None ==> r is Ignore && final(self).same_headings(old(self))
                    &&& old(self).heading matches Some(h) ==> {
                        let id = match h.id {
                            Some(i) => i@,
                            None => heading_anchor(h.title@),
                        };
                        &&& r matches Visiting::Heading { level, id: rid, events } && level == h.level
                            && rid@ == id && events == h.events
                        &&& final(self).heading is None
                        &&& final(self).levels@.to_set() == old(self).levels@.to_set().insert(h.level)
                        &&& final(self).toc@.len() == old(self).toc@.len() + 1
                        &&& final(self).toc@.drop_last() == old(self).toc@
                        &&& final(self).toc@.last().depth == h.depth
                        &&& final(self).toc@.last().level == h.level
                        &&& final(self).toc@.last().id matches Some(i) && i@ == id
                        &&& final(self).toc@.last().title == h.title
                        &&& final(self).toc@.last().events@.len() == 0
                    }
                },
                Tag::Other => {
                    &&& final(self).same_reading(old(self))
                    &&& old(self).heading is Some ==> r is Ignore && final(self).heading_event_added(old(self), raw)
                    &&& old(self).heading is None ==> r is NotChanged && final(self).same_headings(old(self))
                },
            },
    {
        match tag {
            Tag::Image { src, title } => {
                let alt = match &self.image_alt {
                    Some(a) => a.clone(),
                    None => String::new(),
                };
                self.image_alt = None;
                self.processing_image = false;
                let mut html = string_from("<img src=\"");
                html.append(src.as_str());
                html.append("\" alt=\"");
                html.append(alt.as_str());
                html.append("\" title=\"");
                html.append(title.as_str());
                html.append("\" loading=\"lazy\">");
                Visiting::Html(html)
            },
            Tag::FencedCodeBlock(_) | Tag::IndentedCodeBlock => {
                self.code_block_fenced = None;
                Visiting::Ignore
            },
            Tag::Heading { .. } => {
                let mut taken: Option<Heading<E>> = None;
                std::mem::swap(&mut taken, &mut self.heading);
                match taken {
                    Some(h) => {
                        let ghost old_levels = self.levels@;
                        self.insert_level(h.level);
                        let id = match h.id {
                            Some(i) => i,
                            None => {
                                let lower = to_lowercase(h.title.as_str());
                                let v = chars_of(lower.as_str());
                                let d = replace_char_vec(&v, ' ', '-');
                                string_of(d.as_slice())
                            },
                        };
                        let ghost toc_before = self.toc@;
                        self.toc.push(
                            Heading {
                                depth: h.depth,
                                level: h.level,
                                id: Some(id.clone()),
                                title: h.title,
                                events: Vec::new(),
                            },
                        );
                        assert(self.toc@.drop_last() =~= toc_before);
                        assert forall|i: int| 0 <= i < self.toc@.len() implies self.levels@.contains(
                            #[trigger] self.toc@[i].level,
                        ) by {
                            if i < toc_before.len() {
                                assert(self.toc@[i] == toc_before[i]);
                                assert(old_levels.contains(toc_before[i].level));
                            }
                        }
                        Visiting::Heading { level: h.level, id, events: h.events }
                    },
                    None => Visiting::Ignore,
                }
            },
            Tag::Other => {
                match &mut self.heading {
                    Some(h) => {
                        h.events.push(raw);
                        Visiting::Ignore
                    },
                    None => Visiting::NotChanged,
                }
            },
        }
    }

    /// Whether the info string of the fenced code block being read, if any,
    /// names a block.
    pub open spec fn fence_ok(&self) -> bool {
        self.code_block_fenced matches Some(f) ==> fenced_parse(f@) is Ok
    }

    /// Whether the info string of the fenced code block being read, if any,
    /// names a block; the text of a block that does not cannot be rendered.
    pub fn fence_is_valid(&self) -> (r: bool)
        ensures
            r == self.fence_ok(),
    {
        match &self.code_block_fenced {
            Some(f) => Fenced::parse(f.as_str()).is_ok(),
            None => true,
        }
    }

    /// What becomes of the text `text`; `raw` is the event itself.
    pub fn visit_text(&mut self, text: &str, raw: E) -> (r: Visiting<E>)
        requires
            old(self).wf(),
            old(self).heading is None && !old(self).processing_image ==> old(self).fence_ok(),
        ensures
            final(self).wf(),
            final(self).markdown_config == old(self).markdown_config,
            old(self).heading matches Some(g) ==> {
                &&& r is Ignore
                &&& final(self).heading matches Some(h) && h.title@ == g.title@ + text@ && h.events@
                    == g.events@.push(raw) && h.depth == g.depth && h.level == g.level && h.id == g.id
                &&& final(self).levels == old(self).levels
                &&& final(self).toc == old(self).toc
                &&& final(self).same_reading(old(self))
            },
            old(self).heading is None && old(self).processing_image ==> {
                &&& r is Ignore
                &&& final(self).image_alt matches Some(a) && a@ == text@
                &&& final(self).processing_image
                &&& final(self).code_block_fenced == old(self).code_block_fenced
                &&& final(self).same_headings(old(self))
            },
            old(self).heading is None && !old(self).processing_image ==> {
                &&& final(self).same_reading(old(self))
                &&& final(self).same_headings(old(self))
                &&& match old(self).code_block_fenced {
                    None => r is NotChanged,
                    Some(input) => match fenced_parse(input@) {
                        Ok((name, options)) => if is_custom_name(name) {
                            r matches Visiting::CustomBlock { fenced, text: t } && fenced.name@ == name
                                && fenced.options@ == options && t@ == text@
                        } else if old(self).markdown_config.highlight_code {
                            r matches Visiting::Highlight { lang, text: t } && lang@ == name && t@ == text@
                        } else {
                            r matches Visiting::Html(h) && h@ == "<pre>"@ + text@ + "</pre>"@
                        },
                        Err(_) => false,
                    },
                }
            },
    {
        match &mut self.heading {
            Some(h) => {
                h.title.append(text);
                h.events.push(raw);
                return Visiting::Ignore;
            },
            None => {},
        }
        if self.processing_image {
            self.image_alt = Some(string_from(text));
            return Visiting::Ignore;
        }
        match &self.code_block_fenced {
            Some(input) => {
                match Fenced::parse(input.as_str()) {
                    Ok(fenced) => {
                        if fenced.is_custom_code_block() {
                            Visiting::CustomBlock { fenced, text: string_from(text) }
                        } else if self.markdown_config.highlight_code {
                            Visiting::Highlight { lang: fenced.name, text: string_from(text) }
                        } else {
                            let mut html = string_from("<pre>");
                            html.append(text);
                            html.append("</pre>");
                            Visiting::Html(html)
                        }
                    },
                    Err(_) => Visiting::NotChanged,
                }
            },
            None => Visiting::NotChanged,
        }
    }

    /// What becomes of the inline code `code`; `raw` is the event itself.
    pub fn visit_code(&mut self, data: &ZineData, code: &str, raw: E) -> (r: Visiting<E>)
        requires
            old(self).wf(),
            named_author_code(data@, code@),
        ensures
            final(self).wf(),
            final(self).same_reading(old(self)),
            old(self).heading matches Some(g) ==> {
                &&& r is Ignore
                &&& final(self).heading matches Some(h) && h.title@ == g.title@ + code@ && h.events@
                    == g.events@.push(raw) && h.depth == g.depth && h.level == g.level && h.id == g.id
                &&& final(self).levels == old(self).levels
                &&& final(self).toc == old(self).toc
            },
            old(self).heading is None ==> {
                &&& final(self).same_headings(old(self))
                &&& if code@.len() > 0 && code@[0] == '#' {
                    r is NotChanged
                } else {
                    match code_html(data@, code@) {
                        Some(x) => r matches Visiting::Html(h) && h@ == x,
                        None => r is NotChanged,
                    }
                }
            },
    {
        match &mut self.heading {
            Some(h) => {
                h.title.append(code);
                h.events.push(raw);
                return Visiting::Ignore;
            },
            None => {},
        }
        proof {
            reveal_strlit("#");
            assert("#"@ =~= seq!['#']);
            if code@.len() > 0 {
                assert(code@.subrange(0, 1) =~= seq![code@[0]]);
            }
        }
        if str_starts_with(code, "#") {
            assert(code@.subrange(0, 1) == "#"@);
            assert(code@.subrange(0, 1)[0] == code@[0]);
            return Visiting::NotChanged;
        }
        match ZineMarkdownVisitor.visit_code(data, code) {
            Some(h) => Visiting::Html(h),
            None => Visiting::NotChanged,
        }
    }
}

} // verus!
