//! Issues: numbered collections of articles.
use vstd::prelude::*;
use crate::date::{date_key, Date};
use crate::helpers::{spec_to_lowercase, to_lowercase};
use crate::meta::{extract_description_from_markdown, first_description, Meta};
use crate::mode::{current_mode, published, Mode};
use crate::sort::{sort_by_key, sort_vec_by_key, SortKey, SpecKey};
use crate::text::{chars_of, clone_opt, decimal, decimal_of, lines, replace_char, replace_char_vec, string_from, string_of};
use super::article::Article;

verus! {

/// An issue, configured by the `zine.toml` of its directory.
#[derive(Debug)]
pub struct Issue {
    /// The slug after the issue is rendered; falls back to the directory.
    pub slug: String,
    pub number: u32,
    pub title: String,
    /// The introduction of the issue (markdown).
    pub intro: Option<String>,
    pub cover: Option<String>,
    /// The default cover of the articles of this issue.
    pub default_cover: Option<String>,
    /// The publish date.
    pub pub_date: Option<Date>,
    /// Whether to publish the whole issue.
    pub publish: bool,
    /// The path of the issue directory.
    pub dir: String,
    pub articles: Vec<Article>,
}

impl SpecKey for Article {
    open spec fn key_of(&self) -> int {
        date_key(self.meta.pub_date)
    }
}

impl SortKey for Article {
    fn sort_key(&self) -> (r: i64) {
        self.meta.pub_date.key()
    }
}

impl SpecKey for Issue {
    open spec fn key_of(&self) -> int {
        self.number as int
    }
}

impl SortKey for Issue {
    fn sort_key(&self) -> (r: i64) {
        self.number as i64
    }
}

/// Whether `r` holds the default issue settings: no slug, number 0, the
/// title `Issue`, published, no directory and no article.
pub open spec fn is_default_issue(r: Issue) -> bool {
    &&& r.slug@.len() == 0
    &&& r.number == 0
    &&& r.title@ == "Issue"@
    &&& r.intro is None
    &&& r.cover is None
    &&& r.default_cover is None
    &&& r.pub_date is None
    &&& r.publish
    &&& r.dir@.len() == 0
    &&& r.articles@.len() == 0
}

impl Default for Issue {
    fn default() -> (r: Self)
        ensures
            is_default_issue(r),
    {
        Issue::new()
    }
}

/// The articles of `s` that are published in `mode`.
pub open spec fn published_articles(s: Seq<Article>, mode: Mode) -> Seq<Article>
    decreases s.len(),
{
    if s.len() == 0 {
        s
    } else {
        let p = published_articles(s.drop_last(), mode);
        if published(s.last().publish, mode) { p.push(s.last()) } else { p }
    }
}

/// The featured articles of `s` that are published in `mode`.
pub open spec fn featured_articles_of(s: Seq<Article>, mode: Mode) -> Seq<Article>
    decreases s.len(),
{
    if s.len() == 0 {
        s
    } else {
        let p = featured_articles_of(s.drop_last(), mode);
        if s.last().featured && published(s.last().publish, mode) { p.push(s.last()) } else { p }
    }
}

/// The articles of an issue that are published in `mode`: none when the issue
/// is not.
pub open spec fn issue_articles(issue: Issue, mode: Mode) -> Seq<Article> {
    if published(issue.publish, mode) {
        published_articles(issue.articles@, mode)
    } else {
        Seq::empty()
    }
}

/// The values behind a list of references.
pub open spec fn derefs(v: Seq<&Article>) -> Seq<Article> {
    v.map_values(|a: &Article| *a)
}

/// The directory name of an issue title: lower case, spaces as dashes.
pub open spec fn title_dir(title: Seq<char>) -> Seq<char> {
    replace_char(spec_to_lowercase(title), ' ', '-')
}

impl Issue {
    /// A default issue.
    pub fn new() -> (r: Self)
        ensures
            is_default_issue(r),
    {
        Issue {
            slug: String::new(),
            number: 0,
            title: string_from("Issue"),
            intro: None,
            cover: None,
            default_cover: None,
            pub_date: None,
            publish: true,
            dir: String::new(),
            articles: Vec::new(),
        }
    }

    /// Sets the issue number.
    pub fn set_issue_number(&mut self, number: u32) -> (r: &mut Self)
        ensures
            r.number == number,
            r.title == old(self).title,
            r.dir == old(self).dir,
            r.slug == old(self).slug,
            r.articles == old(self).articles,
            *final(self) == *final(r),
    {
        self.number = number;
        self
    }

    /// Sets the title, and the directory derived from it.
    pub fn set_title(&mut self, title: &str) -> (r: &mut Self)
        ensures
            r.title@ == title@,
            r.dir@ == title_dir(title@),
            r.number == old(self).number,
            r.slug == old(self).slug,
            r.articles == old(self).articles,
            *final(self) == *final(r),
    {
        self.title = string_from(title);
        let lower = to_lowercase(title);
        let v = chars_of(lower.as_str());
        let d = replace_char_vec(&v, ' ', '-');
        self.dir = string_of(d.as_slice());
        self
    }

    /// Adds an article.
    pub fn add_article(&mut self, article: Article) -> (r: &mut Self)
        ensures
            r.articles@ == old(self).articles@.push(article),
            r.number == old(self).number,
            r.title == old(self).title,
            r.dir == old(self).dir,
            *final(self) == *final(r),
    {
        self.articles.push(article);
        self
    }

    /// Appends the issue number to the directory.
    pub fn finalize(&mut self)
        ensures
            final(self).dir@ == old(self).dir@ + "-"@ + decimal(old(self).number as nat),
            final(self).number == old(self).number,
            final(self).title == old(self).title,
            final(self).articles == old(self).articles,
    {
        let n = decimal_of(self.number as u64);
        let ns = string_of(n.as_slice());
        self.dir.append("-");
        self.dir.append(ns.as_str());
    }

    /// Whether the issue is published in `mode`.
    pub fn need_publish_in(&self, mode: Mode) -> (r: bool)
        ensures
            r == published(self.publish, mode),
    {
        self.publish || mode == Mode::Serve
    }

    /// Whether the issue is published in the current run mode; it always is
    /// when its `publish` flag is set.
    pub fn need_publish(&self) -> (r: bool)
        ensures
            self.publish ==> r,
    {
        self.need_publish_in(current_mode())
    }

    /// The description of the issue: that of its introduction, if any.
    pub fn description(&self) -> (r: String)
        ensures
            r@ == match self.intro {
                Some(i) => first_description(lines(i@)),
                None => Seq::empty(),
            },
    {
        match &self.intro {
            Some(intro) => extract_description_from_markdown(intro.as_str()),
            None => String::new(),
        }
    }

    /// The meta of the issue's page: its title, the description of its
    /// introduction, its slug, its cover.
    pub fn page_meta(&self) -> (r: Meta)
        ensures
            r.title == self.title,
            r.description@ == match self.intro {
                Some(i) => first_description(lines(i@)),
                None => Seq::empty(),
            },
            r.url is Some && r.url->0 == self.slug,
            r.image == self.cover,
    {
        Meta {
            title: self.title.clone(),
            description: self.description(),
            url: Some(self.slug.clone()),
            image: clone_opt(&self.cover),
        }
    }

    /// The articles before and after the one at `current`.
    pub fn sibling_articles(&self, current: usize) -> (r: (Option<&Article>, Option<&Article>))
        ensures
            match r.0 {
                Some(a) => current > 0 && current - 1 < self.articles@.len() && *a == self.articles@[current - 1],
                None => current == 0 || current - 1 >= self.articles@.len(),
            },
            match r.1 {
                Some(a) => current + 1 < self.articles@.len() && *a == self.articles@[current + 1],
                None => current + 1 >= self.articles@.len(),
            },
    {
        let next = if current < usize::MAX && current + 1 < self.articles.len() {
            Some(&self.articles[current + 1])
        } else {
            None
        };
        if current == 0 {
            return (None, next);
        }
        let prev = if current - 1 < self.articles.len() {
            Some(&self.articles[current - 1])
        } else {
            None
        };
        (prev, next)
    }

    /// The featured articles published in `mode`.
    pub fn featured_articles(&self, mode: Mode) -> (r: Vec<&Article>)
        ensures
            derefs(r@) == featured_articles_of(self.articles@, mode),
    {
        let mut r: Vec<&Article> = Vec::new();
        let mut i: usize = 0;
        assert(self.articles@.take(0) =~= Seq::<Article>::empty());
        while i < self.articles.len()
            invariant
                i <= self.articles.len(),
                derefs(r@) == featured_articles_of(self.articles@.take(i as int), mode),
            decreases self.articles.len() - i,
        {
            let a = &self.articles[i];
            assert(self.articles@.take(i + 1).drop_last() =~= self.articles@.take(i as int));
            if a.featured && a.need_publish_in(mode) {
                r.push(a);
            }
            i = i + 1;
            assert(derefs(r@) =~= featured_articles_of(self.articles@.take(i as int), mode));
        }
        assert(self.articles@.take(i as int) =~= self.articles@);
        r
    }

    /// The articles published in `mode`: none when the issue itself is not.
    pub fn articles(&self, mode: Mode) -> (r: Vec<&Article>)
        ensures
            derefs(r@) == issue_articles(*self, mode),
    {
        let mut r: Vec<&Article> = Vec::new();
        let issue_need_publish = self.need_publish_in(mode);
        if !issue_need_publish {
            assert(derefs(r@) =~= Seq::<Article>::empty());
            return r;
        }
        let mut i: usize = 0;
        assert(self.articles@.take(0) =~= Seq::<Article>::empty());
        while i < self.articles.len()
            invariant
                i <= self.articles.len(),
                derefs(r@) == published_articles(self.articles@.take(i as int), mode),
            decreases self.articles.len() - i,
        {
            let a = &self.articles[i];
            assert(self.articles@.take(i + 1).drop_last() =~= self.articles@.take(i as int));
            if a.need_publish_in(mode) {
                r.push(a);
            }
            i = i + 1;
            assert(derefs(r@) =~= published_articles(self.articles@.take(i as int), mode));
        }
        assert(self.articles@.take(i as int) =~= self.articles@);
        r
    }

    /// Fills in what the issue config does not give: the slug from the
    /// directory, the articles sorted by publish date, and the issue's default
    /// cover on articles without a cover.
    pub fn prepare(&mut self)
        ensures
            final(self).slug@ == if old(self).slug@.len() == 0 { old(self).dir@ } else { old(self).slug@ },
            final(self).articles@.len() == old(self).articles@.len(),
            forall|i: int|
                0 <= i < final(self).articles@.len() ==> covered(
                    #[trigger] final(self).articles@[i],
                    sort_by_key(old(self).articles@)[i],
                    old(self).default_cover,
                ),
            final(self).number == old(self).number,
            final(self).title == old(self).title,
            final(self).dir == old(self).dir,
            final(self).intro == old(self).intro,
            final(self).publish == old(self).publish,
            final(self).pub_date == old(self).pub_date,
            final(self).default_cover == old(self).default_cover,
            final(self).cover == old(self).cover,
    {
        if self.slug.as_str().is_empty() {
            self.slug = self.dir.clone();
        }
        let mut articles: Vec<Article> = Vec::new();
        std::mem::swap(&mut articles, &mut self.articles);
        let sorted = sort_vec_by_key(articles);
        proof {
            crate::sort::lemma_sort_sorted(articles@);
        }
        let ghost s = sorted@;
        let mut rest = sorted;
        let mut done: Vec<Article> = Vec::new();
        while rest.len() > 0
            invariant
                done@.len() + rest@.len() == s.len(),
                rest@ == s.skip(done@.len() as int),
                forall|i: int| 0 <= i < done@.len() ==> covered(#[trigger] done@[i], s[i], self.default_cover),
            decreases rest@.len(),
        {
            let mut a = rest.remove(0);
            assert(a == s[done@.len() as int]);
            if a.meta.cover.is_none() {
                a.meta.cover = clone_opt(&self.default_cover);
            }
            done.push(a);
            assert(rest@ =~= s.skip(done@.len() as int));
        }
        self.articles = done;
    }
}

/// Whether `n` is `a` with the cover `default_cover` when `a` has none.
pub open spec fn covered(n: Article, a: Article, default_cover: Option<String>) -> bool {
    &&& n.meta.cover == if a.meta.cover is None { default_cover } else { a.meta.cover }
    &&& n.meta.file == a.meta.file
    &&& n.meta.slug == a.meta.slug
    &&& n.meta.path == a.meta.path
    &&& n.meta.title == a.meta.title
    &&& n.meta.author == a.meta.author
    &&& n.meta.pub_date == a.meta.pub_date
    &&& n.markdown == a.markdown
    &&& n.topics == a.topics
    &&& n.featured == a.featured
    &&& n.publish == a.publish
    &&& n.canonical == a.canonical
    &&& n.i18n == a.i18n
}

} // verus!
