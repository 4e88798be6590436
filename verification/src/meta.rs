//! The meta information of an HTML page, and the description of a markdown text.
use vstd::prelude::*;
use crate::text::{
    chars_of, lines, lines_vec, replace_char, replace_char_vec, starts_with, str_eq, string_of,
    sub_vec, take_chars, trim, trim_vec, vviews,
};

verus! {

/// The meta info of an HTML page.
#[derive(Debug, Clone, Default, PartialEq, Eq)]
pub struct Meta {
    pub title: String,
    pub description: String,
    pub url: Option<String>,
    pub image: Option<String>,
}

/// The number of bytes of the UTF-8 encoding of `c`.
pub open spec fn utf8_width(c: char) -> nat {
    if (c as u32) < 0x80 {
        1
    } else if (c as u32) < 0x800 {
        2
    } else if (c as u32) < 0x10000 {
        3
    } else {
        4
    }
}

/// The number of bytes of the UTF-8 encoding of `s`.
pub open spec fn utf8_len(s: Seq<char>) -> nat
    decreases s.len(),
{
    if s.len() == 0 {
        0
    } else {
        utf8_len(s.drop_last()) + utf8_width(s.last())
    }
}

/// The longest prefix of `s` whose encoding takes at most `n` bytes.
pub open spec fn prefix_within(s: Seq<char>, n: nat) -> Seq<char>
    decreases s.len(),
{
    if utf8_len(s) <= n {
        s
    } else {
        prefix_within(s.drop_last(), n)
    }
}

/// Whether `String::truncate(n)` keeps `s` whole or cuts it at a character
/// boundary (and so does not panic).
pub open spec fn truncates_at_boundary(s: Seq<char>, n: nat) -> bool {
    utf8_len(s) <= n || utf8_len(prefix_within(s, n)) == n
}

proof fn lemma_utf8_len_take(s: Seq<char>, k: int)
    requires
        0 <= k < s.len(),
    ensures
        utf8_len(s.take(k + 1)) == utf8_len(s.take(k)) + utf8_width(s[k]),
{
    assert(s.take(k + 1).drop_last() =~= s.take(k));
}

proof fn lemma_prefix_within_take(s: Seq<char>, n: nat, k: int)
    requires
        0 <= k <= s.len(),
        utf8_len(s.take(k)) <= n,
        k == s.len() || utf8_len(s.take(k + 1)) > n,
    ensures
        prefix_within(s, n) == s.take(k),
    decreases s.len(),
{
    if k == s.len() {
        assert(s.take(k) =~= s);
    } else {
        lemma_utf8_len_monotone(s, k + 1, s.len() as int);
        assert(s.take(s.len() as int) =~= s);
        assert(s.drop_last().take(k) =~= s.take(k));
        if k + 1 <= s.len() - 1 {
            assert(s.drop_last().take(k + 1) =~= s.take(k + 1));
        }
        lemma_prefix_within_take(s.drop_last(), n, k);
    }
}

proof fn lemma_utf8_len_monotone(s: Seq<char>, a: int, b: int)
    requires
        0 <= a <= b <= s.len(),
    ensures
        utf8_len(s.take(a)) <= utf8_len(s.take(b)),
    decreases b - a,
{
    if a < b {
        lemma_utf8_len_monotone(s, a, b - 1);
        lemma_utf8_len_take(s, b - 1);
    }
}

fn utf8_width_exec(c: char) -> (r: usize)
    ensures
        r == utf8_width(c),
{
    if (c as u32) < 0x80 {
        1
    } else if (c as u32) < 0x800 {
        2
    } else if (c as u32) < 0x10000 {
        3
    } else {
        4
    }
}

/// `String::truncate(n)` on a text that it does not cut inside a character.
pub fn truncate_bytes(s: &mut String, n: usize)
    requires
        truncates_at_boundary(old(s)@, n as nat),
    ensures
        final(s)@ == prefix_within(old(s)@, n as nat),
{
    let v = chars_of(s.as_str());
    let mut k: usize = 0;
    let mut used: usize = 0;
    assert(v@.take(0) =~= Seq::<char>::empty());
    while k < v.len() && utf8_width_exec(v[k]) <= n - used
        invariant
            k <= v.len(),
            used == utf8_len(v@.take(k as int)),
            used <= n,
        decreases v.len() - k,
    {
        proof {
            lemma_utf8_len_take(v@, k as int);
        }
        used = used + utf8_width_exec(v[k]);
        k = k + 1;
    }
    proof {
        if k < v.len() {
            lemma_utf8_len_take(v@, k as int);
        }
        lemma_prefix_within_take(v@, n as nat, k as int);
    }
    let p = sub_vec(&v, 0, k);
    *s = string_of(p.as_slice());
}

impl Meta {
    /// Whether both the title and the description are set.
    pub fn is_filled(&self) -> (r: bool)
        ensures
            r == (self.title@.len() > 0 && self.description@.len() > 0),
    {
        !self.title.as_str().is_empty() && !self.description.as_str().is_empty()
    }

    /// Cuts the title and the description to at most 200 bytes each.
    pub fn truncate(&mut self)
        requires
            truncates_at_boundary(old(self).title@, 200),
            truncates_at_boundary(old(self).description@, 200),
        ensures
            final(self).title@ == prefix_within(old(self).title@, 200),
            final(self).description@ == prefix_within(old(self).description@, 200),
            final(self).url == old(self).url,
            final(self).image == old(self).image,
    {
        truncate_bytes(&mut self.title, 200);
        truncate_bytes(&mut self.description, 200);
    }
}

/// What `genkit::markdown::extract_description` gives for a markdown text.
pub uninterp spec fn spec_extract_description(markdown: Seq<char>) -> Seq<char>;

/// Calls `genkit::markdown::extract_description`, which takes the plain text of
/// the first lines of a markdown text; its result is named
/// `spec_extract_description` of the input, nothing more is claimed.
#[verifier::external_body]
pub(crate) fn extract_description(markdown: &str) -> (r: String)
    ensures
        r@ == spec_extract_description(markdown@),
{
    genkit::markdown::extract_description(markdown)
}

/// What `strip_markdown::strip_markdown` gives for a text.
pub uninterp spec fn spec_strip_markdown(s: Seq<char>) -> Seq<char>;

/// Calls `strip_markdown::strip_markdown`, which renders markdown as plain text;
/// its result is named `spec_strip_markdown` of the input, nothing more is claimed.
#[verifier::external_body]
pub(crate) fn strip_markdown(s: &str) -> (r: String)
    ensures
        r@ == spec_strip_markdown(s@),
{
    strip_markdown::strip_markdown(s)
}

/// The description made of a stripped line: none when the line is empty or a
/// single line break, else at most its first 200 characters with double quotes
/// replaced by single quotes.
pub open spec fn stripped_description(raw: Seq<char>) -> Option<Seq<char>> {
    if raw == "\n"@ || raw.len() == 0 {
        None
    } else {
        Some(replace_char(take_chars(raw, 200), '"', '\''))
    }
}

/// The description a markdown line gives: none for a blank line, a heading
/// (`#`) or an image (`!`) line, else that of the line stripped of markdown.
pub open spec fn line_description(line: Seq<char>) -> Option<Seq<char>> {
    let t = trim(line);
    if t.len() == 0 || starts_with(t, seq!['#']) || starts_with(t, seq!['!']) {
        None
    } else {
        stripped_description(spec_strip_markdown(t))
    }
}

/// The description of the first line that gives one, else empty.
pub open spec fn first_description(ls: Seq<Seq<char>>) -> Seq<char>
    decreases ls.len(),
{
    if ls.len() == 0 {
        Seq::empty()
    } else {
        match line_description(ls[0]) {
            Some(d) => d,
            None => first_description(ls.drop_first()),
        }
    }
}

/// A description never holds more than 200 characters.
pub proof fn lemma_description_at_most_200(ls: Seq<Seq<char>>)
    ensures
        first_description(ls).len() <= 200,
    decreases ls.len(),
{
    if ls.len() > 0 {
        match line_description(ls[0]) {
            Some(d) => {},
            None => lemma_description_at_most_200(ls.drop_first()),
        }
    }
}

/// A cut text takes at most `n` bytes and is a prefix of the text.
pub proof fn lemma_prefix_within(s: Seq<char>, n: nat)
    ensures
        utf8_len(prefix_within(s, n)) <= n,
        prefix_within(s, n).is_prefix_of(s),
    decreases s.len(),
{
    if utf8_len(s) <= n {
        assert(s.subrange(0, s.len() as int) =~= s);
    } else if s.len() > 0 {
        lemma_prefix_within(s.drop_last(), n);
        let p = prefix_within(s.drop_last(), n);
        assert(s.subrange(0, p.len() as int) =~= s.drop_last().subrange(0, p.len() as int));
    }
}

/// The description made of a line already stripped of markdown.
pub fn description_from_stripped(raw: &str) -> (r: Option<String>)
    ensures
        match r {
            Some(d) => stripped_description(raw@) == Some(d@),
            None => stripped_description(raw@) is None,
        },
{
    if str_eq(raw, "\n") || raw.is_empty() {
        return None;
    }
    let v = chars_of(raw);
    let n = if v.len() <= 200 { v.len() } else { 200 };
    let t = sub_vec(&v, 0, n);
    assert(t@ =~= take_chars(raw@, 200));
    let q = replace_char_vec(&t, '"', '\'');
    Some(string_of(q.as_slice()))
}

/// Extracts a description from markdown: the first meaningful line, stripped
/// of markdown, at most 200 characters.
pub fn extract_description_from_markdown(markdown: &str) -> (r: String)
    ensures
        r@ == first_description(lines(markdown@)),
{
    let v = chars_of(markdown);
    let ls = lines_vec(&v);
    let mut i: usize = 0;
    assert(vviews(ls@).skip(0) =~= vviews(ls@));
    while i < ls.len()
        invariant
            i <= ls.len(),
            vviews(ls@) == lines(markdown@),
            first_description(lines(markdown@)) == first_description(vviews(ls@).skip(i as int)),
        decreases ls.len() - i,
    {
        let ghost rest = vviews(ls@).skip(i as int);
        assert(rest[0] == ls@[i as int]@);
        assert(rest.drop_first() =~= vviews(ls@).skip(i + 1));
        let t = trim_vec(&ls[i]);
        if t.len() > 0 && t[0] != '#' && t[0] != '!' {
            proof {
                assert(!starts_with(t@, seq!['#'])) by {
                    assert(t@.subrange(0, 1)[0] == t@[0]);
                }
                assert(!starts_with(t@, seq!['!'])) by {
                    assert(t@.subrange(0, 1)[0] == t@[0]);
                }
            }
            let ts = string_of(t.as_slice());
            let raw = strip_markdown(ts.as_str());
            match description_from_stripped(raw.as_str()) {
                Some(d) => {
                    return d;
                },
                None => {},
            }
        } else {
            proof {
                if t.len() > 0 {
                    if t@[0] == '#' {
                        assert(t@.subrange(0, 1) =~= seq!['#']);
                    } else {
                        assert(t@.subrange(0, 1) =~= seq!['!']);
                    }
                }
            }
        }
        i = i + 1;
    }
    String::new()
}

/// The description comes from the first line that is not blank: when that
/// line, trimmed, starts with neither `#` nor `!` and its stripped text is
/// neither empty nor a line break, the description is the first 200
/// characters of that text with `"` replaced by `'`. Whatever the line starts
/// with otherwise (a digit, a letter, a quote) it is not skipped.
pub proof fn lemma_first_text_line_is_used(ls: Seq<Seq<char>>, j: int)
    requires
        0 <= j < ls.len(),
        forall|i: int| 0 <= i < j ==> trim(#[trigger] ls[i]).len() == 0,
        trim(ls[j]).len() > 0,
        trim(ls[j])[0] != '#',
        trim(ls[j])[0] != '!',
        spec_strip_markdown(trim(ls[j])).len() > 0,
        spec_strip_markdown(trim(ls[j])) != seq!['\n'],
    ensures
        first_description(ls) == take_chars(spec_strip_markdown(trim(ls[j])), 200).map_values(
            |c: char| if c == '"' { '\'' } else { c },
        ),
    decreases j,
{
    if j == 0 {
        let t = trim(ls[0]);
        assert(!starts_with(t, seq!['#'])) by {
            assert(t.subrange(0, 1)[0] == t[0]);
        }
        assert(!starts_with(t, seq!['!'])) by {
            assert(t.subrange(0, 1)[0] == t[0]);
        }
        reveal_strlit("\n");
        assert("\n"@ =~= seq!['\n']);
    } else {
        assert(trim(ls[0]).len() == 0);
        assert forall|i: int| 0 <= i < j - 1 implies trim(#[trigger] ls.drop_first()[i]).len() == 0 by {
            assert(ls.drop_first()[i] == ls[i + 1]);
        }
        assert(ls.drop_first()[j - 1] == ls[j]);
        lemma_first_text_line_is_used(ls.drop_first(), j - 1);
    }
}

} // verus!
