//! Stand-alone pages written in markdown.
use vstd::prelude::*;
use crate::meta::{extract_description, spec_extract_description, Meta};
use crate::text::{chars_of, lines, lines_vec, remove_all, remove_all_vec, string_of, sub_vec, vviews};

verus! {

/// A page: its markdown and the path of its file, relative to the pages directory.
#[derive(Debug, Clone, PartialEq, Eq)]
pub struct Page {
    /// The page's markdown content.
    pub markdown: String,
    /// Relative path of the page file.
    pub file_path: String,
}

/// Whether `c` is a character that a page title line starts with.
pub open spec fn is_title_char(c: char) -> bool {
    c == '#' || c == ' '
}

/// `l` without its leading `#` and space characters.
pub open spec fn trim_title_chars(l: Seq<char>) -> Seq<char>
    decreases l.len(),
{
    if l.len() > 0 && is_title_char(l[0]) {
        trim_title_chars(l.drop_first())
    } else {
        l
    }
}

/// The title of a page: the first line that starts with `#` or a space, without
/// its leading `#` and space characters; empty when there is none.
pub open spec fn page_title(ls: Seq<Seq<char>>) -> Seq<char>
    decreases ls.len(),
{
    if ls.len() == 0 {
        Seq::empty()
    } else if ls[0].len() > 0 && is_title_char(ls[0][0]) {
        trim_title_chars(ls[0])
    } else {
        page_title(ls.drop_first())
    }
}

proof fn lemma_trim_title_chars(l: Seq<char>, i: int)
    requires
        0 <= i <= l.len(),
        forall|j: int| 0 <= j < i ==> is_title_char(l[j]),
        i == l.len() || !is_title_char(l[i]),
    ensures
        trim_title_chars(l) == l.skip(i),
    decreases i,
{
    if i == 0 {
        assert(l.skip(0) =~= l);
    } else {
        lemma_trim_title_chars(l.drop_first(), i - 1);
        assert(l.drop_first().skip(i - 1) =~= l.skip(i));
    }
}

impl Page {
    /// The slug of the page: its file path with every `.md` removed.
    pub fn slug(&self) -> (r: String)
        ensures
            r@ == remove_all(self.file_path@, ".md"@),
    {
        let v = chars_of(self.file_path.as_str());
        let s = remove_all_vec(&v, ".md");
        string_of(s.as_slice())
    }

    /// The meta of the page: its title, the description of its markdown, its
    /// slug.
    pub fn page_meta(&self) -> (r: Meta)
        ensures
            r.title@ == page_title(lines(self.markdown@)),
            r.description@ == spec_extract_description(self.markdown@),
            r.url is Some && r.url->0@ == remove_all(self.file_path@, ".md"@),
            r.image is None,
    {
        Meta {
            title: self.title(),
            description: extract_description(self.markdown.as_str()),
            url: Some(self.slug()),
            image: None,
        }
    }

    /// The title of the page.
    pub fn title(&self) -> (r: String)
        ensures
            r@ == page_title(lines(self.markdown@)),
    {
        let v = chars_of(self.markdown.as_str());
        let ls = lines_vec(&v);
        let mut i: usize = 0;
        assert(vviews(ls@).skip(0) =~= vviews(ls@));
        while i < ls.len()
            invariant
                i <= ls.len(),
                vviews(ls@) == lines(self.markdown@),
                page_title(lines(self.markdown@)) == page_title(vviews(ls@).skip(i as int)),
            decreases ls.len() - i,
        {
            let l = &ls[i];
            let ghost rest = vviews(ls@).skip(i as int);
            assert(rest[0] == l@);
            assert(rest.drop_first() =~= vviews(ls@).skip(i + 1));
            if l.len() > 0 && (l[0] == '#' || l[0] == ' ') {
                let mut k: usize = 0;
                while k < l.len() && (l[k] == '#' || l[k] == ' ')
                    invariant
                        k <= l.len(),
                        forall|j: int| 0 <= j < k ==> is_title_char(l@[j]),
                    decreases l.len() - k,
                {
                    k = k + 1;
                }
                proof {
                    lemma_trim_title_chars(l@, k as int);
                    assert(l@.skip(k as int) =~= l@.subrange(k as int, l.len() as int));
                }
                let t = sub_vec(l, k, l.len());
                return string_of(t.as_slice());
            }
            i = i + 1;
        }
        String::new()
    }
}

} // verus!
