//! The root entity: the whole magazine.
use vstd::prelude::*;
use crate::date::{date_key, Date};
use crate::keyed::{keys_ascending, keys_in_order, lemma_same_keys};
use crate::helpers::{capitalize, spec_capitalize, spec_to_lowercase, to_lowercase};
use crate::mode::{published, Mode};
use crate::sort::{lemma_sort_map, lemma_sort_sorted, sort_by_key, sort_vec_by_key, SortKey, SpecKey};
use crate::text::{clone_opt, remove_all, str_eq, string_from};
use super::article::{empty_cover, opt_author, same_meta, with_translations, Article, MetaArticle};
use super::author::{author_slug, author_id_matches, Author, AuthorId, AuthorIdView};
use super::issue::{derefs, featured_articles_of, issue_articles, Issue};
use super::{List, MarkdownConfig, Page, Site, Theme, Topic};

verus! {

/// The magazine, configured by the root `zine.toml`.
#[derive(Debug)]
pub struct Zine {
    pub site: Site,
    pub theme: Theme,
    /// The authors by id, in ascending id order.
    pub authors: Vec<(String, Author)>,
    pub issues: Vec<Issue>,
    /// The topics by id, in ascending id order.
    pub topics: Vec<(String, Topic)>,
    pub pages: Vec<Page>,
    pub markdown_config: MarkdownConfig,
}

/// The url of an article of the issue `slug` on the site `base`: the site url
/// followed by its absolute path, else by `/slug/article-slug`.
pub open spec fn article_url(base: Seq<char>, slug: Seq<char>, a: Article) -> Seq<char> {
    match a.meta.path {
        Some(p) => base + p@,
        None => base + "/"@ + slug + "/"@ + a.meta.slug@,
    }
}

/// The urls of some articles and of their translations.
pub open spec fn article_urls(base: Seq<char>, slug: Seq<char>, arts: Seq<Article>) -> Seq<Seq<char>>
    decreases arts.len(),
{
    if arts.len() == 0 {
        Seq::empty()
    } else {
        article_urls(base, slug, arts.drop_last()) + with_translations(arts.last()).map_values(
            |a: Article| article_url(base, slug, a),
        )
    }
}

/// The sitemap urls of some issues: each issue page followed by its published
/// articles and their translations.
pub open spec fn issues_urls(base: Seq<char>, issues: Seq<Issue>, mode: Mode) -> Seq<Seq<char>>
    decreases issues.len(),
{
    if issues.len() == 0 {
        Seq::empty()
    } else {
        let i = issues.last();
        issues_urls(base, issues.drop_last(), mode) + seq![base + "/"@ + i.slug@ + "/"@]
            + article_urls(base, i.slug@, issue_articles(i, mode))
    }
}

/// The sitemap url of a keyed page (`/@id/` for authors, `/topic/id/` for topics).
pub open spec fn keyed_url(base: Seq<char>, prefix: Seq<char>, id: Seq<char>) -> Seq<char> {
    base + prefix + spec_to_lowercase(id) + "/"@
}

/// The sitemap urls of a keyed list.
pub open spec fn keyed_urls<T>(base: Seq<char>, prefix: Seq<char>, v: Seq<(String, T)>) -> Seq<Seq<char>> {
    v.map_values(|p: (String, T)| keyed_url(base, prefix, p.0@))
}

/// The sitemap url of a page.
pub open spec fn page_url(base: Seq<char>, p: Page) -> Seq<char> {
    base + "/"@ + remove_all(p.file_path@, ".md"@) + "/"@
}

/// The sitemap of a magazine: the home page, the issues and articles, the
/// author list and authors, the topic list and topics (when there are topics),
/// and the pages.
pub open spec fn sitemap(z: Zine, mode: Mode) -> Seq<Seq<char>> {
    let base = z.site.url@;
    seq![base + "/"@] + issues_urls(base, z.issues@, mode) + seq![base + "/authors/"@] + keyed_urls(
        base,
        "/@"@,
        z.authors@,
    ) + if z.topics@.len() > 0 {
        seq![base + "/topics/"@] + keyed_urls(base, "/topic/"@, z.topics@)
    } else {
        Seq::empty()
    } + z.pages@.map_values(|p: Page| page_url(base, p))
}

/// The views of a list of texts.
pub open spec fn texts(v: Seq<String>) -> Seq<Seq<char>> {
    v.map_values(|s: String| s@)
}

/// An entry of the feed.
pub struct FeedEntry<'a> {
    pub title: &'a String,
    pub url: String,
    pub content: &'a String,
    pub author: Option<&'a AuthorId>,
    pub date: Option<Date>,
}

/// The texts of a feed entry.
pub struct FeedView {
    pub title: Seq<char>,
    pub url: Seq<char>,
    pub content: Seq<char>,
    pub author: Option<AuthorIdView>,
    pub date: Option<Date>,
}

/// The key that orders feed entries: the later the date, the smaller; entries
/// without a date come last.
pub open spec fn feed_key(date: Option<Date>) -> int {
    match date {
        Some(d) => -date_key(d),
        None => 0x7fff_ffff_ffff_ffff,
    }
}

impl<'a> SpecKey for FeedEntry<'a> {
    open spec fn key_of(&self) -> int {
        feed_key(self.date)
    }
}

impl<'a> SortKey for FeedEntry<'a> {
    fn sort_key(&self) -> (r: i64) {
        match &self.date {
            Some(d) => -d.key(),
            None => 0x7fff_ffff_ffff_ffff,
        }
    }
}

impl SpecKey for FeedView {
    open spec fn key_of(&self) -> int {
        feed_key(self.date)
    }
}

/// The texts of a feed entry.
pub open spec fn feed_view(e: FeedEntry) -> FeedView {
    FeedView {
        title: e.title@,
        url: e.url@,
        content: e.content@,
        author: match e.author {
            Some(a) => Some(a@),
            None => None,
        },
        date: e.date,
    }
}

/// The feed entry of an article of the issue `slug`.
pub open spec fn article_feed(base: Seq<char>, slug: Seq<char>, a: Article) -> FeedView {
    FeedView {
        title: a.meta.title@,
        url: article_url(base, slug, a),
        content: a.markdown@,
        author: opt_author(a.meta.author),
        date: Some(a.meta.pub_date),
    }
}

/// The feed entries of an issue: its published articles, then its
/// introduction when the issue is published and has one.
pub open spec fn issue_feed(base: Seq<char>, issue: Issue, mode: Mode) -> Seq<FeedView> {
    issue_articles(issue, mode).map_values(|a: Article| article_feed(base, issue.slug@, a)) + if published(
        issue.publish,
        mode,
    ) && issue.intro is Some {
        seq![
            FeedView {
                title: issue.title@,
                url: base + "/"@ + issue.slug@,
                content: issue.intro->0@,
                author: None,
                date: issue.pub_date,
            },
        ]
    } else {
        Seq::empty()
    }
}

/// The feed entries of some issues, in issue order.
pub open spec fn issues_feed(base: Seq<char>, issues: Seq<Issue>, mode: Mode) -> Seq<FeedView>
    decreases issues.len(),
{
    if issues.len() == 0 {
        Seq::empty()
    } else {
        issues_feed(base, issues.drop_last(), mode) + issue_feed(base, issues.last(), mode)
    }
}

/// At most the first `n` elements of `s`.
pub open spec fn take_at_most<A>(s: Seq<A>, n: nat) -> Seq<A> {
    if s.len() <= n {
        s
    } else {
        s.take(n as int)
    }
}

/// An article with the title and slug of its issue.
#[derive(Clone, Copy)]
pub struct ArticleRef<'a> {
    pub article: &'a MetaArticle,
    pub issue_title: &'a String,
    pub issue_slug: &'a String,
}

/// The content of an article reference.
pub struct ArticleRefView {
    pub article: MetaArticle,
    pub issue_title: Seq<char>,
    pub issue_slug: Seq<char>,
}

impl<'a> SpecKey for ArticleRef<'a> {
    open spec fn key_of(&self) -> int {
        -date_key(self.article.pub_date)
    }
}

impl<'a> SortKey for ArticleRef<'a> {
    fn sort_key(&self) -> (r: i64) {
        -self.article.pub_date.key()
    }
}

impl SpecKey for ArticleRefView {
    open spec fn key_of(&self) -> int {
        -date_key(self.article.pub_date)
    }
}

/// The content of an article reference.
pub open spec fn article_ref_view(r: ArticleRef) -> ArticleRefView {
    ArticleRefView { article: *r.article, issue_title: r.issue_title@, issue_slug: r.issue_slug@ }
}

/// The reference to an article of an issue.
pub open spec fn ref_of(i: Issue, a: Article) -> ArticleRefView {
    ArticleRefView { article: a.meta, issue_title: i.title@, issue_slug: i.slug@ }
}

/// The articles of `arts` (translations included) written by `author`.
pub open spec fn authored(i: Issue, arts: Seq<Article>, author: Seq<char>) -> Seq<ArticleRefView>
    decreases arts.len(),
{
    if arts.len() == 0 {
        Seq::empty()
    } else {
        authored(i, arts.drop_last(), author) + refs_by_author(i, with_translations(arts.last()), author)
    }
}

/// The references to the articles of `ts` written by `author`.
pub open spec fn refs_by_author(i: Issue, ts: Seq<Article>, author: Seq<char>) -> Seq<ArticleRefView>
    decreases ts.len(),
{
    if ts.len() == 0 {
        Seq::empty()
    } else {
        let p = refs_by_author(i, ts.drop_last(), author);
        if is_author_of(ts.last(), author) { p.push(ref_of(i, ts.last())) } else { p }
    }
}

/// The references to the articles of `ts` with the topic `topic`.
pub open spec fn refs_by_topic(i: Issue, ts: Seq<Article>, topic: Seq<char>) -> Seq<ArticleRefView>
    decreases ts.len(),
{
    if ts.len() == 0 {
        Seq::empty()
    } else {
        let p = refs_by_topic(i, ts.drop_last(), topic);
        if has_topic(ts.last(), topic) { p.push(ref_of(i, ts.last())) } else { p }
    }
}

/// Whether `author` wrote `a`.
pub open spec fn is_author_of(a: Article, author: Seq<char>) -> bool {
    match a.meta.author {
        Some(x) => author_id_matches(x, author),
        None => false,
    }
}

/// The published articles of some issues written by `author`, in issue order.
pub open spec fn issues_authored(issues: Seq<Issue>, author: Seq<char>, mode: Mode) -> Seq<ArticleRefView>
    decreases issues.len(),
{
    if issues.len() == 0 {
        Seq::empty()
    } else {
        issues_authored(issues.drop_last(), author, mode) + authored(
            issues.last(),
            issue_articles(issues.last(), mode),
            author,
        )
    }
}

/// Whether `a` has the topic `topic`.
pub open spec fn has_topic(a: Article, topic: Seq<char>) -> bool {
    exists|k: int| 0 <= k < a.topics@.len() && #[trigger] a.topics@[k]@ == topic
}

/// The published articles of some issues with the topic `topic`, in issue order.
pub open spec fn issues_topic(issues: Seq<Issue>, topic: Seq<char>, mode: Mode) -> Seq<ArticleRefView>
    decreases issues.len(),
{
    if issues.len() == 0 {
        Seq::empty()
    } else {
        let i = issues.last();
        issues_topic(issues.drop_last(), topic, mode) + refs_by_topic(i, issue_articles(i, mode), topic)
    }
}

/// The published articles of some issues with the slug of their issue.
pub open spec fn issues_all(issues: Seq<Issue>, mode: Mode) -> Seq<(Seq<char>, MetaArticle)>
    decreases issues.len(),
{
    if issues.len() == 0 {
        Seq::empty()
    } else {
        let i = issues.last();
        issues_all(issues.drop_last(), mode) + issue_articles(i, mode).map_values(
            |a: Article| (i.slug@, a.meta),
        )
    }
}

fn push_concat(out: &mut Vec<String>, a: &str, b: &str, c: &str, d: &str)
    ensures
        texts(final(out)@) == texts(old(out)@).push(a@ + b@ + c@ + d@),
{
    let mut s = string_from(a);
    s.append(b);
    s.append(c);
    s.append(d);
    out.push(s);
    assert(texts(out@) =~= texts(old(out)@).push(a@ + b@ + c@ + d@));
}

fn article_url_string(base: &str, slug: &str, a: &Article) -> (r: String)
    ensures
        r@ == article_url(base@, slug@, *a),
{
    let mut s = string_from(base);
    match &a.meta.path {
        Some(p) => {
            s.append(p.as_str());
        },
        None => {
            s.append("/");
            s.append(slug);
            s.append("/");
            s.append(a.meta.slug.as_str());
        },
    }
    s
}

fn push_article_url(out: &mut Vec<String>, base: &str, slug: &str, a: &Article)
    ensures
        texts(final(out)@) == texts(old(out)@).push(article_url(base@, slug@, *a)),
{
    let s = article_url_string(base, slug, a);
    out.push(s);
    assert(texts(out@) =~= texts(old(out)@).push(article_url(base@, slug@, *a)));
}

fn push_keyed_urls<T>(out: &mut Vec<String>, base: &str, prefix: &str, v: &Vec<(String, T)>)
    ensures
        texts(final(out)@) == texts(old(out)@) + keyed_urls(base@, prefix@, v@),
{
    let mut i: usize = 0;
    while i < v.len()
        invariant
            i <= v.len(),
            texts(out@) == texts(old(out)@) + keyed_urls(base@, prefix@, v@).take(i as int),
        decreases v.len() - i,
    {
        let lower = to_lowercase(v[i].0.as_str());
        let ghost before = texts(out@);
        push_concat(out, base, prefix, lower.as_str(), "/");
        i = i + 1;
        assert(keyed_urls(base@, prefix@, v@).take(i as int) =~= keyed_urls(base@, prefix@, v@).take(
            i - 1,
        ).push(keyed_url(base@, prefix@, v@[i - 1].0@)));
        assert(texts(out@) =~= texts(old(out)@) + keyed_urls(base@, prefix@, v@).take(i as int));
    }
    assert(keyed_urls(base@, prefix@, v@).take(i as int) =~= keyed_urls(base@, prefix@, v@));
}

impl Zine {
    /// Whether the authors and the topics are each in ascending id order,
    /// each id once, as a map keyed by id holds them.
    pub open spec fn keys_ordered(&self) -> bool {
        keys_ascending(self.authors@) && keys_ascending(self.topics@)
    }

    /// Whether the authors and the topics are each in ascending id order.
    pub fn has_ordered_keys(&self) -> (r: bool)
        ensures
            r == self.keys_ordered(),
    {
        keys_in_order(&self.authors) && keys_in_order(&self.topics)
    }

    /// The issue with the given number, if any.
    pub fn get_issue_by_number(&self, number: u32) -> (r: Option<&Issue>)
        ensures
            match r {
                Some(i) => exists|k: int|
                    0 <= k < self.issues@.len() && self.issues@[k] == *i && i.number == number && forall|
                        m: int,
                    |
                        0 <= m < k ==> (#[trigger] self.issues@[m]).number != number,
                None => forall|k: int| 0 <= k < self.issues@.len() ==> (#[trigger] self.issues@[k]).number != number,
            },
    {
        let mut i: usize = 0;
        while i < self.issues.len()
            invariant
                i <= self.issues.len(),
                forall|m: int| 0 <= m < i ==> (#[trigger] self.issues@[m]).number != number,
            decreases self.issues.len() - i,
        {
            if self.issues[i].number == number {
                return Some(&self.issues[i]);
            }
            i = i + 1;
        }
        None
    }

    /// The urls of the sitemap.
    pub fn sitemap_entries(&self, mode: Mode) -> (r: Vec<String>)
        requires
            self.keys_ordered(),
        ensures
            texts(r@) == sitemap(*self, mode),
    {
        let base = self.site.url.as_str();
        let mut out: Vec<String> = Vec::new();
        push_concat(&mut out, base, "/", "", "");
        proof {
            reveal_strlit("");
            assert(base@ + "/"@ + ""@ + ""@ =~= base@ + "/"@);
        }
        let ghost start = texts(out@);
        let mut k: usize = 0;
        while k < self.issues.len()
            invariant
                k <= self.issues.len(),
                base@ == self.site.url@,
                start == seq![base@ + "/"@],
                texts(out@) == start + issues_urls(base@, self.issues@.take(k as int), mode),
            decreases self.issues.len() - k,
        {
            let issue = &self.issues[k];
            assert(self.issues@.take(k + 1).drop_last() =~= self.issues@.take(k as int));
            assert(self.issues@.take(k + 1).last() == *issue);
            let slug = issue.slug.as_str();
            let ghost before = texts(out@);
            push_concat(&mut out, base, "/", slug, "/");
            let ghost mid = texts(out@);
            let arts = issue.articles(mode);
            let mut j: usize = 0;
            assert(derefs(arts@).take(0) =~= Seq::<Article>::empty());
            while j < arts.len()
                invariant
                    j <= arts.len(),
                    texts(out@) == mid + article_urls(base@, slug@, derefs(arts@).take(j as int)),
                decreases arts.len() - j,
            {
                let a = arts[j];
                assert(derefs(arts@).take(j + 1).drop_last() =~= derefs(arts@).take(j as int));
                assert(derefs(arts@).take(j + 1).last() == *a);
                let ghost inner_start = texts(out@);
                let ghost tr = with_translations(*a).map_values(|x: Article| article_url(base@, slug@, x));
                push_article_url(&mut out, base, slug, a);
                let mut t: usize = 0;
                while t < a.i18n.len()
                    invariant
                        t <= a.i18n.len(),
                        tr == with_translations(*a).map_values(|x: Article| article_url(base@, slug@, x)),
                        texts(out@) == inner_start + tr.take(t + 1),
                    decreases a.i18n.len() - t,
                {
                    let ghost b = texts(out@);
                    push_article_url(&mut out, base, slug, &a.i18n[t].1);
                    assert(tr[t + 1] == article_url(base@, slug@, a.i18n@[t as int].1));
                    t = t + 1;
                    assert(tr.take(t + 1) =~= tr.take(t as int).push(tr[t as int]));
                    assert(texts(out@) =~= inner_start + tr.take(t + 1));
                }
                assert(tr.take(t + 1) =~= tr);
                j = j + 1;
                assert(texts(out@) =~= mid + article_urls(base@, slug@, derefs(arts@).take(j as int)));
            }
            assert(derefs(arts@).take(j as int) =~= derefs(arts@));
            k = k + 1;
            assert(texts(out@) =~= start + issues_urls(base@, self.issues@.take(k as int), mode));
        }
        assert(self.issues@.take(k as int) =~= self.issues@);
        let ghost after_issues = texts(out@);
        push_concat(&mut out, base, "/authors/", "", "");
        proof {
            assert(base@ + "/authors/"@ + ""@ + ""@ =~= base@ + "/authors/"@);
        }
        push_keyed_urls(&mut out, base, "/@", &self.authors);
        let ghost after_authors = texts(out@);
        if self.topics.len() > 0 {
            push_concat(&mut out, base, "/topics/", "", "");
            proof {
                assert(base@ + "/topics/"@ + ""@ + ""@ =~= base@ + "/topics/"@);
            }
            push_keyed_urls(&mut out, base, "/topic/", &self.topics);
        }
        let ghost after_topics = texts(out@);
        let mut p: usize = 0;
        while p < self.pages.len()
            invariant
                p <= self.pages.len(),
                base@ == self.site.url@,
                texts(out@) == after_topics + self.pages@.map_values(|pg: Page| page_url(base@, pg)).take(
                    p as int,
                ),
            decreases self.pages.len() - p,
        {
            let s = self.pages[p].slug();
            push_concat(&mut out, base, "/", s.as_str(), "/");
            p = p + 1;
            assert(texts(out@) =~= after_topics + self.pages@.map_values(|pg: Page| page_url(base@, pg)).take(
                p as int,
            ));
        }
        assert(self.pages@.map_values(|pg: Page| page_url(base@, pg)).take(p as int) =~= self.pages@.map_values(
            |pg: Page| page_url(base@, pg),
        ));
        assert(texts(out@) =~= sitemap(*self, mode));
        out
    }

    /// The latest `limit` feed entries of all issues, latest first; entries
    /// without a date come last.
    pub fn latest_feed_entries(&self, limit: usize, mode: Mode) -> (r: Vec<FeedEntry<'_>>)
        ensures
            r@.map_values(|e: FeedEntry| feed_view(e)) == take_at_most(
                sort_by_key(issues_feed(self.site.url@, self.issues@, mode)),
                limit as nat,
            ),
            r@.len() <= limit,
            forall|i: int, j: int| 0 <= i < j < r@.len() ==> feed_key(r@[i].date) <= feed_key(r@[j].date),
    {
        let base = self.site.url.as_str();
        let mut entries: Vec<FeedEntry<'_>> = Vec::new();
        let mut k: usize = 0;
        assert(self.issues@.take(0) =~= Seq::<Issue>::empty());
        while k < self.issues.len()
            invariant
                k <= self.issues.len(),
                base@ == self.site.url@,
                entries@.map_values(|e: FeedEntry| feed_view(e)) == issues_feed(
                    base@,
                    self.issues@.take(k as int),
                    mode,
                ),
            decreases self.issues.len() - k,
        {
            let issue = &self.issues[k];
            assert(self.issues@.take(k + 1).drop_last() =~= self.issues@.take(k as int));
            assert(self.issues@.take(k + 1).last() == *issue);
            let slug = issue.slug.as_str();
            let ghost start = entries@.map_values(|e: FeedEntry| feed_view(e));
            let arts = issue.articles(mode);
            let ghost pa = derefs(arts@).map_values(|a: Article| article_feed(base@, slug@, a));
            let mut j: usize = 0;
            while j < arts.len()
                invariant
                    j <= arts.len(),
                    pa == derefs(arts@).map_values(|a: Article| article_feed(base@, slug@, a)),
                    entries@.map_values(|e: FeedEntry| feed_view(e)) == start + pa.take(j as int),
                decreases arts.len() - j,
            {
                let a = arts[j];
                let e = FeedEntry {
                    title: &a.meta.title,
                    url: article_url_string(base, slug, a),
                    content: &a.markdown,
                    author: a.meta.author.as_ref(),
                    date: Some(a.meta.pub_date),
                };
                assert(feed_view(e) == pa[j as int]);
                let ghost before = entries@.map_values(|e: FeedEntry| feed_view(e));
                entries.push(e);
                assert(entries@.map_values(|e: FeedEntry| feed_view(e)) =~= before.push(feed_view(e)));
                j = j + 1;
                assert(entries@.map_values(|e: FeedEntry| feed_view(e)) =~= start + pa.take(j as int));
            }
            assert(pa.take(j as int) =~= pa);
            if issue.need_publish_in(mode) {
                match &issue.intro {
                    Some(content) => {
                        let mut url = string_from(base);
                        url.append("/");
                        url.append(slug);
                        let e = FeedEntry {
                            title: &issue.title,
                            url,
                            content,
                            author: None,
                            date: issue.pub_date,
                        };
                        let ghost before = entries@.map_values(|e: FeedEntry| feed_view(e));
                        entries.push(e);
                        assert(entries@.map_values(|e: FeedEntry| feed_view(e)) =~= before.push(feed_view(e)));
                    },
                    None => {},
                }
            }
            k = k + 1;
            assert(entries@.map_values(|e: FeedEntry| feed_view(e)) =~= issues_feed(
                base@,
                self.issues@.take(k as int),
                mode,
            ));
        }
        assert(self.issues@.take(k as int) =~= self.issues@);
        let ghost unsorted = entries@;
        let mut sorted = sort_vec_by_key(entries);
        proof {
            let f = |e: FeedEntry| feed_view(e);
            assert forall|a: FeedEntry| #[trigger] f(a).key_of() == a.key_of() by {}
            lemma_sort_map(unsorted, f);
            lemma_sort_sorted(unsorted);
        }
        let ghost full = sorted@;
        if sorted.len() > limit {
            sorted.truncate(limit);
            assert(sorted@ =~= full.take(limit as int));
            assert(sorted@.map_values(|e: FeedEntry| feed_view(e)) =~= full.map_values(|e: FeedEntry| feed_view(e)).take(limit as int));
        }
        assert forall|i: int, j: int| 0 <= i < j < sorted@.len() implies feed_key(sorted@[i].date) <= feed_key(
            sorted@[j].date,
        ) by {
            assert(sorted@[i] == full[i] && sorted@[j] == full[j]);
            assert(full[i].key_of() <= full[j].key_of());
        }
        sorted
    }

    /// The published articles (translations included) written by `author_id`,
    /// latest first.
    pub fn get_articles_by_author(&self, author_id: &str, mode: Mode) -> (r: Vec<ArticleRef<'_>>)
        ensures
            r@.map_values(|x: ArticleRef| article_ref_view(x)) == sort_by_key(
                issues_authored(self.issues@, author_id@, mode),
            ),
            forall|i: int, j: int|
                0 <= i < j < r@.len() ==> date_key(r@[j].article.pub_date) <= date_key(r@[i].article.pub_date),
    {
        let mut items: Vec<ArticleRef<'_>> = Vec::new();
        let mut k: usize = 0;
        assert(self.issues@.take(0) =~= Seq::<Issue>::empty());
        while k < self.issues.len()
            invariant
                k <= self.issues.len(),
                items@.map_values(|x: ArticleRef| article_ref_view(x)) == issues_authored(
                    self.issues@.take(k as int),
                    author_id@,
                    mode,
                ),
            decreases self.issues.len() - k,
        {
            let issue = &self.issues[k];
            assert(self.issues@.take(k + 1).drop_last() =~= self.issues@.take(k as int));
            assert(self.issues@.take(k + 1).last() == *issue);
            let arts = issue.articles(mode);
            let ghost start = items@.map_values(|x: ArticleRef| article_ref_view(x));
            let mut j: usize = 0;
            assert(derefs(arts@).take(0) =~= Seq::<Article>::empty());
            while j < arts.len()
                invariant
                    j <= arts.len(),
                    items@.map_values(|x: ArticleRef| article_ref_view(x)) == start + authored(
                        *issue,
                        derefs(arts@).take(j as int),
                        author_id@,
                    ),
                decreases arts.len() - j,
            {
                let a = arts[j];
                assert(derefs(arts@).take(j + 1).drop_last() =~= derefs(arts@).take(j as int));
                assert(derefs(arts@).take(j + 1).last() == *a);
                let ghost mid = items@.map_values(|x: ArticleRef| article_ref_view(x));
                let ghost ts = with_translations(*a);
                if a.is_author(author_id) {
                    let ghost before = items@.map_values(|x: ArticleRef| article_ref_view(x));
                    items.push(ArticleRef { article: &a.meta, issue_title: &issue.title, issue_slug: &issue.slug });
                    assert(items@.map_values(|x: ArticleRef| article_ref_view(x)) =~= before.push(ref_of(*issue, *a)));
                }
                assert(ts.take(1).drop_last() =~= Seq::<Article>::empty());
                assert(ts.take(1).last() == *a);
                assert(refs_by_author(*issue, ts.take(1).drop_last(), author_id@) == Seq::<ArticleRefView>::empty());
                assert(items@.map_values(|x: ArticleRef| article_ref_view(x)) =~= mid + refs_by_author(
                    *issue,
                    ts.take(1),
                    author_id@,
                ));
                let mut t: usize = 0;
                while t < a.i18n.len()
                    invariant
                        t <= a.i18n.len(),
                        ts == with_translations(*a),
                        items@.map_values(|x: ArticleRef| article_ref_view(x)) == mid + refs_by_author(
                            *issue,
                            ts.take(t + 1),
                            author_id@,
                        ),
                    decreases a.i18n.len() - t,
                {
                    let tr = &a.i18n[t].1;
                    assert(ts.take(t + 2).drop_last() =~= ts.take(t + 1));
                    assert(ts.take(t + 2).last() == *tr);
                    if tr.is_author(author_id) {
                        let ghost before = items@.map_values(|x: ArticleRef| article_ref_view(x));
                        items.push(ArticleRef { article: &tr.meta, issue_title: &issue.title, issue_slug: &issue.slug });
                        assert(items@.map_values(|x: ArticleRef| article_ref_view(x)) =~= before.push(ref_of(*issue, *tr)));
                    }
                    t = t + 1;
                }
                assert(ts.take(t + 1) =~= ts);
                j = j + 1;
                assert(items@.map_values(|x: ArticleRef| article_ref_view(x)) =~= start + authored(
                    *issue,
                    derefs(arts@).take(j as int),
                    author_id@,
                ));
            }
            assert(derefs(arts@).take(j as int) =~= derefs(arts@));
            k = k + 1;
            assert(items@.map_values(|x: ArticleRef| article_ref_view(x)) =~= issues_authored(
                self.issues@.take(k as int),
                author_id@,
                mode,
            ));
        }
        assert(self.issues@.take(k as int) =~= self.issues@);
        let ghost unsorted = items@;
        let r = sort_vec_by_key(items);
        proof {
            let f = |x: ArticleRef| article_ref_view(x);
            assert forall|a: ArticleRef| #[trigger] f(a).key_of() == a.key_of() by {}
            lemma_sort_map(unsorted, f);
            lemma_sort_sorted(issues_authored(self.issues@, author_id@, mode));
            assert forall|i: int, j: int| 0 <= i < j < r@.len() implies date_key(r@[j].article.pub_date)
                <= date_key(r@[i].article.pub_date) by {
                let v = r@.map_values(|x: ArticleRef| article_ref_view(x));
                assert(v[i].key_of() <= v[j].key_of());
            }
        }
        r
    }
}


/// Whether `r` holds copies of the slug and article pairs `s`.
pub open spec fn copies_of(r: Seq<(String, MetaArticle)>, s: Seq<(Seq<char>, MetaArticle)>) -> bool {
    &&& r.len() == s.len()
    &&& forall|i: int| 0 <= i < r.len() ==> #[trigger] r[i].0@ == s[i].0 && same_meta(r[i].1, s[i].1)
}

proof fn lemma_copies_push(
    r: Seq<(String, MetaArticle)>,
    s: Seq<(Seq<char>, MetaArticle)>,
    x: (String, MetaArticle),
    y: (Seq<char>, MetaArticle),
)
    requires
        copies_of(r, s),
        x.0@ == y.0,
        same_meta(x.1, y.1),
    ensures
        copies_of(r.push(x), s.push(y)),
{
    assert forall|i: int| 0 <= i < r.push(x).len() implies #[trigger] r.push(x)[i].0@ == s.push(y)[i].0
        && same_meta(r.push(x)[i].1, s.push(y)[i].1) by {
        if i < r.len() {
            assert(r.push(x)[i] == r[i]);
            assert(s.push(y)[i] == s[i]);
        }
    }
}

/// Whether one of `topics` is `topic`.
fn has_topic_in(topics: &Vec<String>, topic: &str) -> (r: bool)
    ensures
        r == exists|k: int| 0 <= k < topics@.len() && #[trigger] topics@[k]@ == topic@,
{
    let mut k: usize = 0;
    while k < topics.len()
        invariant
            k <= topics.len(),
            forall|j: int| 0 <= j < k ==> #[trigger] topics@[j]@ != topic@,
        decreases topics.len() - k,
    {
        if str_eq(topics[k].as_str(), topic) {
            return true;
        }
        k = k + 1;
    }
    false
}

impl Zine {
    /// The published articles with the topic `topic`, the latest first.
    pub fn get_articles_by_topic(&self, topic: &str, mode: Mode) -> (r: Vec<ArticleRef<'_>>)
        ensures
            r@.map_values(|x: ArticleRef| article_ref_view(x)) == sort_by_key(
                issues_topic(self.issues@, topic@, mode),
            ),
            forall|i: int, j: int|
                0 <= i < j < r@.len() ==> date_key(r@[j].article.pub_date) <= date_key(r@[i].article.pub_date),
    {
        let mut items: Vec<ArticleRef<'_>> = Vec::new();
        let mut k: usize = 0;
        assert(self.issues@.take(0) =~= Seq::<Issue>::empty());
        while k < self.issues.len()
            invariant
                k <= self.issues.len(),
                items@.map_values(|x: ArticleRef| article_ref_view(x)) == issues_topic(
                    self.issues@.take(k as int),
                    topic@,
                    mode,
                ),
            decreases self.issues.len() - k,
        {
            let issue = &self.issues[k];
            assert(self.issues@.take(k + 1).drop_last() =~= self.issues@.take(k as int));
            assert(self.issues@.take(k + 1).last() == *issue);
            let arts = issue.articles(mode);
            let ghost start = items@.map_values(|x: ArticleRef| article_ref_view(x));
            let mut j: usize = 0;
            assert(derefs(arts@).take(0) =~= Seq::<Article>::empty());
            while j < arts.len()
                invariant
                    j <= arts.len(),
                    items@.map_values(|x: ArticleRef| article_ref_view(x)) == start + refs_by_topic(
                        *issue,
                        derefs(arts@).take(j as int),
                        topic@,
                    ),
                decreases arts.len() - j,
            {
                let a = arts[j];
                assert(derefs(arts@).take(j + 1).drop_last() =~= derefs(arts@).take(j as int));
                assert(derefs(arts@).take(j + 1).last() == *a);
                if has_topic_in(&a.topics, topic) {
                    let ghost before = items@.map_values(|x: ArticleRef| article_ref_view(x));
                    items.push(ArticleRef { article: &a.meta, issue_title: &issue.title, issue_slug: &issue.slug });
                    assert(items@.map_values(|x: ArticleRef| article_ref_view(x)) =~= before.push(ref_of(*issue, *a)));
                }
                j = j + 1;
                assert(items@.map_values(|x: ArticleRef| article_ref_view(x)) =~= start + refs_by_topic(
                    *issue,
                    derefs(arts@).take(j as int),
                    topic@,
                ));
            }
            assert(derefs(arts@).take(j as int) =~= derefs(arts@));
            k = k + 1;
            assert(items@.map_values(|x: ArticleRef| article_ref_view(x)) =~= issues_topic(
                self.issues@.take(k as int),
                topic@,
                mode,
            ));
        }
        assert(self.issues@.take(k as int) =~= self.issues@);
        let ghost unsorted = items@;
        let r = sort_vec_by_key(items);
        proof {
            let f = |x: ArticleRef| article_ref_view(x);
            assert forall|a: ArticleRef| #[trigger] f(a).key_of() == a.key_of() by {}
            lemma_sort_map(unsorted, f);
            lemma_sort_sorted(issues_topic(self.issues@, topic@, mode));
            assert forall|i: int, j: int| 0 <= i < j < r@.len() implies date_key(r@[j].article.pub_date)
                <= date_key(r@[i].article.pub_date) by {
                let v = r@.map_values(|x: ArticleRef| article_ref_view(x));
                assert(v[i].key_of() <= v[j].key_of());
            }
        }
        r
    }

    /// Copies of the authors, in id order.
    pub fn authors(&self) -> (r: Vec<Author>)
        requires
            self.keys_ordered(),
        ensures
            r@ == self.authors@.map_values(|p: (String, Author)| p.1),
    {
        let mut r: Vec<Author> = Vec::new();
        let mut i: usize = 0;
        while i < self.authors.len()
            invariant
                i <= self.authors.len(),
                r@ == self.authors@.take(i as int).map_values(|p: (String, Author)| p.1),
            decreases self.authors.len() - i,
        {
            r.push(self.authors[i].1.duplicate());
            i = i + 1;
            assert(r@ =~= self.authors@.take(i as int).map_values(|p: (String, Author)| p.1));
        }
        assert(self.authors@.take(i as int) =~= self.authors@);
        r
    }

    /// The ids of the topics, in id order.
    pub fn topic_ids(&self) -> (r: Vec<String>)
        requires
            self.keys_ordered(),
        ensures
            r@ == self.topics@.map_values(|p: (String, Topic)| p.0),
    {
        let mut r: Vec<String> = Vec::new();
        let mut i: usize = 0;
        while i < self.topics.len()
            invariant
                i <= self.topics.len(),
                r@ == self.topics@.take(i as int).map_values(|p: (String, Topic)| p.0),
            decreases self.topics.len() - i,
        {
            r.push(self.topics[i].0.clone());
            i = i + 1;
            assert(r@ =~= self.topics@.take(i as int).map_values(|p: (String, Topic)| p.0));
        }
        assert(self.topics@.take(i as int) =~= self.topics@);
        r
    }

    /// Copies of the published articles, each with the slug of its issue, in
    /// issue order.
    pub fn all_articles(&self, mode: Mode) -> (r: Vec<(String, MetaArticle)>)
        ensures
            copies_of(r@, issues_all(self.issues@, mode)),
    {
        let mut r: Vec<(String, MetaArticle)> = Vec::new();
        let mut k: usize = 0;
        assert(self.issues@.take(0) =~= Seq::<Issue>::empty());
        while k < self.issues.len()
            invariant
                k <= self.issues.len(),
                copies_of(r@, issues_all(self.issues@.take(k as int), mode)),
            decreases self.issues.len() - k,
        {
            let issue = &self.issues[k];
            assert(self.issues@.take(k + 1).drop_last() =~= self.issues@.take(k as int));
            assert(self.issues@.take(k + 1).last() == *issue);
            let ghost prev = issues_all(self.issues@.take(k as int), mode);
            let ghost added = issue_articles(*issue, mode).map_values(|a: Article| (issue.slug@, a.meta));
            assert(issues_all(self.issues@.take(k + 1), mode) == prev + added);
            let arts = issue.articles(mode);
            let mut j: usize = 0;
            assert(prev + added.take(0) =~= prev);
            while j < arts.len()
                invariant
                    j <= arts.len(),
                    derefs(arts@) == issue_articles(*issue, mode),
                    added == issue_articles(*issue, mode).map_values(|a: Article| (issue.slug@, a.meta)),
                    copies_of(r@, prev + added.take(j as int)),
                decreases arts.len() - j,
            {
                let a = arts[j];
                assert(derefs(arts@)[j as int] == *a);
                assert(added[j as int] == (issue.slug@, a.meta));
                let x = (issue.slug.clone(), a.meta.duplicate());
                proof {
                    lemma_copies_push(r@, prev + added.take(j as int), x, added[j as int]);
                    assert((prev + added.take(j as int)).push(added[j as int]) =~= prev + added.take(j + 1));
                }
                r.push(x);
                j = j + 1;
            }
            assert(added.take(j as int) =~= added);
            k = k + 1;
        }
        assert(self.issues@.take(k as int) =~= self.issues@);
        r
    }
}


/// Whether `n` is the topic entry `o` made ready: its id set from the key,
/// its name falling back to the capitalized id.
pub open spec fn topic_prepared(o: (String, Topic), n: (String, Topic)) -> bool {
    &&& n.0 == o.0
    &&& n.1.id == o.0
    &&& n.1.description == o.1.description
    &&& o.1.name is Some ==> n.1.name == o.1.name
    &&& o.1.name is None ==> n.1.name is Some && n.1.name->0@ == spec_capitalize(o.0@)
}

/// Whether `n` is the author entry `o` made ready: its id set from the key,
/// a missing or empty avatar replaced by `default_avatar`, a missing name by
/// the capitalized id.
pub open spec fn author_prepared(o: (String, Author), n: (String, Author), default_avatar: Option<String>) -> bool {
    &&& n.0 == o.0
    &&& n.1.id == o.0
    &&& empty_cover(o.1.avatar) ==> n.1.avatar == default_avatar
    &&& !empty_cover(o.1.avatar) ==> n.1.avatar == o.1.avatar
    &&& o.1.name is Some ==> n.1.name == o.1.name
    &&& o.1.name is None ==> n.1.name is Some && n.1.name->0@ == spec_capitalize(o.0@)
    &&& n.1.bio == o.1.bio
    &&& n.1.editor == o.1.editor
    &&& n.1.team == o.1.team
}

/// The parts of an issue directory, from the components of the path of its
/// `zine.toml`: nothing before the first `content` component, an empty part
/// for it, then each component but `zine.toml`.
pub open spec fn dir_parts(cs: Seq<Seq<char>>) -> Seq<Seq<char>>
    decreases cs.len(),
{
    if cs.len() == 0 {
        Seq::empty()
    } else {
        let d = dir_parts(cs.drop_last());
        let name = cs.last();
        if d.len() > 0 {
            if name != "zine.toml"@ { d.push(name) } else { d }
        } else if name == "content"@ {
            d.push(Seq::empty())
        } else {
            d
        }
    }
}

/// The texts of `ps` joined by `/`.
pub open spec fn join_slash(ps: Seq<Seq<char>>) -> Seq<char>
    decreases ps.len(),
{
    if ps.len() == 0 {
        Seq::empty()
    } else if ps.len() == 1 {
        ps[0]
    } else {
        join_slash(ps.drop_last()) + "/"@ + ps.last()
    }
}

/// The directory of an issue, relative to the content directory.
pub open spec fn issue_dir_of(cs: Seq<Seq<char>>) -> Seq<char> {
    join_slash(dir_parts(cs).drop_first())
}

proof fn lemma_dir_parts_nonempty(cs: Seq<Seq<char>>)
    ensures
        dir_parts(cs).len() > 0 <==> exists|i: int| 0 <= i < cs.len() && cs[i] == "content"@,
    decreases cs.len(),
{
    if cs.len() > 0 {
        lemma_dir_parts_nonempty(cs.drop_last());
        if exists|i: int| 0 <= i < cs.drop_last().len() && cs.drop_last()[i] == "content"@ {
            let i = choose|i: int| 0 <= i < cs.drop_last().len() && cs.drop_last()[i] == "content"@;
            assert(cs[i] == "content"@);
        }
        if exists|i: int| 0 <= i < cs.len() && cs[i] == "content"@ {
            let i = choose|i: int| 0 <= i < cs.len() && cs[i] == "content"@;
            if i < cs.len() - 1 {
                assert(cs.drop_last()[i] == "content"@);
            }
        }
    }
}

/// The directory of an issue, relative to the content directory, from the
/// components of the path of its `zine.toml`.
pub fn issue_dir(components: &Vec<String>) -> (r: String)
    requires
        exists|i: int| 0 <= i < components@.len() && #[trigger] components@[i]@ == "content"@,
    ensures
        r@ == issue_dir_of(components@.map_values(|c: String| c@)),
{
    let ghost cs = components@.map_values(|c: String| c@);
    proof {
        let i = choose|i: int| 0 <= i < components@.len() && #[trigger] components@[i]@ == "content"@;
        assert(cs[i] == "content"@);
        lemma_dir_parts_nonempty(cs);
    }
    let mut parts: Vec<String> = Vec::new();
    let mut i: usize = 0;
    assert(cs.take(0) =~= Seq::<Seq<char>>::empty());
    while i < components.len()
        invariant
            i <= components.len(),
            cs == components@.map_values(|c: String| c@),
            parts@.map_values(|c: String| c@) == dir_parts(cs.take(i as int)),
        decreases components.len() - i,
    {
        let name = &components[i];
        assert(cs.take(i + 1).drop_last() =~= cs.take(i as int));
        assert(cs.take(i + 1).last() == name@);
        let ghost before = parts@.map_values(|c: String| c@);
        if parts.len() > 0 {
            if !str_eq(name.as_str(), "zine.toml") {
                parts.push(name.clone());
                assert(parts@.map_values(|c: String| c@) =~= before.push(name@));
            }
        } else if str_eq(name.as_str(), "content") {
            parts.push(String::new());
            assert(parts@.map_values(|c: String| c@) =~= before.push(Seq::empty()));
        }
        i = i + 1;
    }
    assert(cs.take(i as int) =~= cs);
    let ghost ps = parts@.map_values(|c: String| c@);
    let mut dir = String::new();
    let mut j: usize = 1;
    assert(ps.drop_first().take(0) =~= Seq::<Seq<char>>::empty());
    while j < parts.len()
        invariant
            1 <= j <= parts.len(),
            ps == parts@.map_values(|c: String| c@),
            dir@ == join_slash(ps.drop_first().take(j - 1)),
        decreases parts.len() - j,
    {
        let ghost t = ps.drop_first().take(j as int);
        assert(t.drop_last() =~= ps.drop_first().take(j - 1));
        assert(t.last() == parts@[j as int]@);
        if j > 1 {
            dir.append("/");
        } else {
            assert(t =~= seq![parts@[1]@]);
        }
        dir.append(parts[j].as_str());
        j = j + 1;
    }
    assert(ps.drop_first().take(j - 1) =~= ps.drop_first());
    dir
}

/// An issue shown on the home page.
pub struct HomeIssue<'a> {
    pub slug: &'a String,
    pub title: &'a String,
    pub number: u32,
    pub pub_date: Option<Date>,
    /// The featured articles.
    pub articles: Vec<&'a Article>,
}

/// The content of an issue shown on the home page.
pub struct HomeIssueView {
    pub slug: Seq<char>,
    pub title: Seq<char>,
    pub number: u32,
    pub pub_date: Option<Date>,
    pub articles: Seq<Article>,
}

/// The content of an issue shown on the home page.
pub open spec fn home_issue_view(h: HomeIssue) -> HomeIssueView {
    HomeIssueView {
        slug: h.slug@,
        title: h.title@,
        number: h.number,
        pub_date: h.pub_date,
        articles: derefs(h.articles@),
    }
}

/// The published issues of `issues` as the home page shows them, with their
/// featured articles.
pub open spec fn home_issues_of(issues: Seq<Issue>, mode: Mode) -> Seq<HomeIssueView>
    decreases issues.len(),
{
    if issues.len() == 0 {
        Seq::empty()
    } else {
        let p = home_issues_of(issues.drop_last(), mode);
        let i = issues.last();
        if published(i.publish, mode) {
            p.push(
                HomeIssueView {
                    slug: i.slug@,
                    title: i.title@,
                    number: i.number,
                    pub_date: i.pub_date,
                    articles: featured_articles_of(i.articles@, mode),
                },
            )
        } else {
            p
        }
    }
}

impl Zine {
    /// Sets the id of each topic from its key, and its name where missing.
    pub fn prepare_topics(&mut self)
        ensures
            final(self).topics@.len() == old(self).topics@.len(),
            forall|i: int| 0 <= i < old(self).topics@.len() ==> topic_prepared(
                old(self).topics@[i],
                #[trigger] final(self).topics@[i],
            ),
            final(self).site == old(self).site,
            final(self).theme == old(self).theme,
            final(self).authors == old(self).authors,
            final(self).issues == old(self).issues,
            final(self).pages == old(self).pages,
            final(self).markdown_config == old(self).markdown_config,
            final(self).keys_ordered() == old(self).keys_ordered(),
    {
        let mut i: usize = 0;
        while i < self.topics.len()
            invariant
                i <= self.topics.len(),
                self.topics@.len() == old(self).topics@.len(),
                forall|j: int| 0 <= j < i ==> topic_prepared(old(self).topics@[j], #[trigger] self.topics@[j]),
                forall|j: int| i <= j < self.topics@.len() ==> #[trigger] self.topics@[j] == old(self).topics@[j],
                self.site == old(self).site,
                self.theme == old(self).theme,
                self.authors == old(self).authors,
                self.issues == old(self).issues,
                self.pages == old(self).pages,
                self.markdown_config == old(self).markdown_config,
            decreases self.topics.len() - i,
        {
            let id = self.topics[i].0.clone();
            self.topics[i].1.id = id;
            self.topics[i].1.parse();
            i = i + 1;
        }
        proof {
            lemma_same_keys(old(self).topics@, self.topics@);
        }
    }

    /// Sets the id of each author from its key, its avatar where missing or
    /// empty, and its name where missing.
    pub fn prepare_authors(&mut self)
        ensures
            final(self).authors@.len() == old(self).authors@.len(),
            forall|i: int| 0 <= i < old(self).authors@.len() ==> author_prepared(
                old(self).authors@[i],
                #[trigger] final(self).authors@[i],
                old(self).theme.default_avatar,
            ),
            final(self).site == old(self).site,
            final(self).theme == old(self).theme,
            final(self).topics == old(self).topics,
            final(self).issues == old(self).issues,
            final(self).pages == old(self).pages,
            final(self).markdown_config == old(self).markdown_config,
            final(self).keys_ordered() == old(self).keys_ordered(),
    {
        let mut i: usize = 0;
        while i < self.authors.len()
            invariant
                i <= self.authors.len(),
                self.authors@.len() == old(self).authors@.len(),
                forall|j: int| 0 <= j < i ==> author_prepared(
                    old(self).authors@[j],
                    #[trigger] self.authors@[j],
                    old(self).theme.default_avatar,
                ),
                forall|j: int| i <= j < self.authors@.len() ==> #[trigger] self.authors@[j] == old(self).authors@[j],
                self.site == old(self).site,
                self.theme == old(self).theme,
                self.topics == old(self).topics,
                self.issues == old(self).issues,
                self.pages == old(self).pages,
                self.markdown_config == old(self).markdown_config,
            decreases self.authors.len() - i,
        {
            let id = self.authors[i].0.clone();
            let avatar_missing = match &self.authors[i].1.avatar {
                Some(a) => a.as_str().is_empty(),
                None => true,
            };
            let default_avatar = clone_opt(&self.theme.default_avatar);
            let name = if self.authors[i].1.name.is_none() {
                Some(capitalize(id.as_str()))
            } else {
                clone_opt(&self.authors[i].1.name)
            };
            self.authors[i].1.id = id;
            if avatar_missing {
                self.authors[i].1.avatar = default_avatar;
            }
            self.authors[i].1.name = name;
            i = i + 1;
        }
        proof {
            lemma_same_keys(old(self).authors@, self.authors@);
        }
    }

    /// Sorts the issues by ascending number.
    pub fn sort_issues(&mut self)
        ensures
            final(self).issues@ == sort_by_key(old(self).issues@),
            final(self).site == old(self).site,
            final(self).theme == old(self).theme,
            final(self).authors == old(self).authors,
            final(self).topics == old(self).topics,
            final(self).pages == old(self).pages,
            final(self).markdown_config == old(self).markdown_config,
    {
        let mut issues: Vec<Issue> = Vec::new();
        std::mem::swap(&mut issues, &mut self.issues);
        self.issues = sort_vec_by_key(issues);
    }

    /// The published issues with their featured articles, as the home page
    /// shows them.
    pub fn home_issues(&self, mode: Mode) -> (r: Vec<HomeIssue<'_>>)
        ensures
            r@.map_values(|h: HomeIssue| home_issue_view(h)) == home_issues_of(self.issues@, mode),
    {
        let mut r: Vec<HomeIssue<'_>> = Vec::new();
        let mut k: usize = 0;
        assert(self.issues@.take(0) =~= Seq::<Issue>::empty());
        while k < self.issues.len()
            invariant
                k <= self.issues.len(),
                r@.map_values(|h: HomeIssue| home_issue_view(h)) == home_issues_of(self.issues@.take(k as int), mode),
            decreases self.issues.len() - k,
        {
            let issue = &self.issues[k];
            assert(self.issues@.take(k + 1).drop_last() =~= self.issues@.take(k as int));
            assert(self.issues@.take(k + 1).last() == *issue);
            if issue.need_publish_in(mode) {
                let ghost before = r@.map_values(|h: HomeIssue| home_issue_view(h));
                let h = HomeIssue {
                    slug: &issue.slug,
                    title: &issue.title,
                    number: issue.number,
                    pub_date: issue.pub_date,
                    articles: issue.featured_articles(mode),
                };
                r.push(h);
                assert(r@.map_values(|h: HomeIssue| home_issue_view(h)) =~= before.push(home_issue_view(h)));
            }
            k = k + 1;
        }
        assert(self.issues@.take(k as int) =~= self.issues@);
        r
    }
}


impl Zine {
    /// The list page of `authors`, each with the number of its published
    /// articles, translations included.
    pub fn author_list<'a>(&self, authors: &'a Vec<Author>, mode: Mode) -> (r: List<'a, Author>)
        ensures
            r.name@ == "authors"@,
            r.entities@.len() == authors@.len(),
            forall|i: int|
                0 <= i < authors@.len() ==> {
                    &&& *(#[trigger] r.entities@[i]).entity == authors@[i]
                    &&& r.entities@[i].article_count == issues_authored(self.issues@, authors@[i].id@, mode).len()
                },
    {
        let mut list = List::author_list();
        let mut i: usize = 0;
        while i < authors.len()
            invariant
                i <= authors.len(),
                list.name@ == "authors"@,
                list.entities@.len() == i,
                forall|j: int|
                    0 <= j < i ==> {
                        &&& *(#[trigger] list.entities@[j]).entity == authors@[j]
                        &&& list.entities@[j].article_count == issues_authored(self.issues@, authors@[j].id@, mode).len()
                    },
            decreases authors.len() - i,
        {
            let author = &authors[i];
            let articles = self.get_articles_by_author(author.id.as_str(), mode);
            proof {
                lemma_sort_sorted(issues_authored(self.issues@, author.id@, mode));
            }
            list.push_author(author, articles.len());
            i = i + 1;
        }
        list
    }

    /// The list page of the topics, each with the number of its published
    /// articles.
    pub fn topic_list(&self, mode: Mode) -> (r: List<'_, Topic>)
        requires
            self.keys_ordered(),
        ensures
            r.name@ == "topics"@,
            r.entities@.len() == self.topics@.len(),
            forall|i: int|
                0 <= i < self.topics@.len() ==> {
                    &&& *(#[trigger] r.entities@[i]).entity == self.topics@[i].1
                    &&& r.entities@[i].article_count == issues_topic(self.issues@, self.topics@[i].1.id@, mode).len()
                },
    {
        let mut list = List::topic_list();
        let mut i: usize = 0;
        while i < self.topics.len()
            invariant
                i <= self.topics.len(),
                list.name@ == "topics"@,
                list.entities@.len() == i,
                forall|j: int|
                    0 <= j < i ==> {
                        &&& *(#[trigger] list.entities@[j]).entity == self.topics@[j].1
                        &&& list.entities@[j].article_count == issues_topic(self.issues@, self.topics@[j].1.id@, mode).len()
                    },
            decreases self.topics.len() - i,
        {
            let topic = &self.topics[i].1;
            let articles = self.get_articles_by_topic(topic.id.as_str(), mode);
            proof {
                lemma_sort_sorted(issues_topic(self.issues@, topic.id@, mode));
            }
            list.push_topic(topic, articles.len());
            i = i + 1;
        }
        list
    }
}


/// Whether every text of `s` starts with `base`.
pub open spec fn all_start_with(s: Seq<Seq<char>>, base: Seq<char>) -> bool {
    forall|i: int| 0 <= i < s.len() ==> base.is_prefix_of(#[trigger] s[i])
}

proof fn lemma_prefix_add(base: Seq<char>, s: Seq<char>, t: Seq<char>)
    requires
        base.is_prefix_of(s),
    ensures
        base.is_prefix_of(s + t),
{
    assert((s + t).subrange(0, base.len() as int) =~= s.subrange(0, base.len() as int));
}

proof fn lemma_all_start_with_add(a: Seq<Seq<char>>, b: Seq<Seq<char>>, base: Seq<char>)
    requires
        all_start_with(a, base),
        all_start_with(b, base),
    ensures
        all_start_with(a + b, base),
{
    assert forall|i: int| 0 <= i < (a + b).len() implies base.is_prefix_of(#[trigger] (a + b)[i]) by {
        if i < a.len() {
            assert((a + b)[i] == a[i]);
        } else {
            assert((a + b)[i] == b[i - a.len()]);
        }
    }
}

proof fn lemma_article_url_prefix(base: Seq<char>, slug: Seq<char>, a: Article)
    ensures
        base.is_prefix_of(article_url(base, slug, a)),
{
    assert(base.is_prefix_of(base)) by {
        assert(base.subrange(0, base.len() as int) =~= base);
    }
    match a.meta.path {
        Some(p) => lemma_prefix_add(base, base, p@),
        None => {
            lemma_prefix_add(base, base, "/"@);
            lemma_prefix_add(base, base + "/"@, slug);
            lemma_prefix_add(base, base + "/"@ + slug, "/"@);
            lemma_prefix_add(base, base + "/"@ + slug + "/"@, a.meta.slug@);
        },
    }
}

proof fn lemma_article_urls_prefix(base: Seq<char>, slug: Seq<char>, arts: Seq<Article>)
    ensures
        all_start_with(article_urls(base, slug, arts), base),
    decreases arts.len(),
{
    if arts.len() > 0 {
        lemma_article_urls_prefix(base, slug, arts.drop_last());
        let m = with_translations(arts.last()).map_values(|a: Article| article_url(base, slug, a));
        assert forall|i: int| 0 <= i < m.len() implies base.is_prefix_of(#[trigger] m[i]) by {
            lemma_article_url_prefix(base, slug, with_translations(arts.last())[i]);
        }
        lemma_all_start_with_add(article_urls(base, slug, arts.drop_last()), m, base);
    }
}

proof fn lemma_issues_urls_prefix(base: Seq<char>, issues: Seq<Issue>, mode: Mode)
    ensures
        all_start_with(issues_urls(base, issues, mode), base),
    decreases issues.len(),
{
    if issues.len() > 0 {
        let i = issues.last();
        lemma_issues_urls_prefix(base, issues.drop_last(), mode);
        assert(base.is_prefix_of(base)) by {
            assert(base.subrange(0, base.len() as int) =~= base);
        }
        lemma_prefix_add(base, base, "/"@);
        lemma_prefix_add(base, base + "/"@, i.slug@);
        lemma_prefix_add(base, base + "/"@ + i.slug@, "/"@);
        let head = seq![base + "/"@ + i.slug@ + "/"@];
        assert(all_start_with(head, base));
        lemma_all_start_with_add(issues_urls(base, issues.drop_last(), mode), head, base);
        lemma_article_urls_prefix(base, i.slug@, issue_articles(i, mode));
        lemma_all_start_with_add(
            issues_urls(base, issues.drop_last(), mode) + head,
            article_urls(base, i.slug@, issue_articles(i, mode)),
            base,
        );
    }
}

/// Every entry of the sitemap starts with the site url.
pub proof fn lemma_sitemap_starts_with_site_url(z: Zine, mode: Mode)
    ensures
        all_start_with(sitemap(z, mode), z.site.url@),
{
    let base = z.site.url@;
    assert(base.is_prefix_of(base)) by {
        assert(base.subrange(0, base.len() as int) =~= base);
    }
    let home = seq![base + "/"@];
    lemma_prefix_add(base, base, "/"@);
    assert(all_start_with(home, base));
    lemma_issues_urls_prefix(base, z.issues@, mode);
    lemma_prefix_add(base, base, "/authors/"@);
    let authors = seq![base + "/authors/"@];
    assert(all_start_with(authors, base));
    let ka = keyed_urls(base, "/@"@, z.authors@);
    assert forall|i: int| 0 <= i < ka.len() implies base.is_prefix_of(#[trigger] ka[i]) by {
        lemma_prefix_add(base, base, "/@"@);
        lemma_prefix_add(base, base + "/@"@, spec_to_lowercase(z.authors@[i].0@));
        lemma_prefix_add(base, base + "/@"@ + spec_to_lowercase(z.authors@[i].0@), "/"@);
    }
    let topics = if z.topics@.len() > 0 {
        seq![base + "/topics/"@] + keyed_urls(base, "/topic/"@, z.topics@)
    } else {
        Seq::empty()
    };
    assert(all_start_with(topics, base)) by {
        if z.topics@.len() > 0 {
            lemma_prefix_add(base, base, "/topics/"@);
            let kt = keyed_urls(base, "/topic/"@, z.topics@);
            assert forall|i: int| 0 <= i < kt.len() implies base.is_prefix_of(#[trigger] kt[i]) by {
                lemma_prefix_add(base, base, "/topic/"@);
                lemma_prefix_add(base, base + "/topic/"@, spec_to_lowercase(z.topics@[i].0@));
                lemma_prefix_add(base, base + "/topic/"@ + spec_to_lowercase(z.topics@[i].0@), "/"@);
            }
            assert(all_start_with(seq![base + "/topics/"@], base));
            lemma_all_start_with_add(seq![base + "/topics/"@], kt, base);
        }
    }
    let pages = z.pages@.map_values(|p: Page| page_url(base, p));
    assert forall|i: int| 0 <= i < pages.len() implies base.is_prefix_of(#[trigger] pages[i]) by {
        lemma_prefix_add(base, base, "/"@);
        lemma_prefix_add(base, base + "/"@, remove_all(z.pages@[i].file_path@, ".md"@));
        lemma_prefix_add(base, base + "/"@ + remove_all(z.pages@[i].file_path@, ".md"@), "/"@);
    }
    let s1 = home + issues_urls(base, z.issues@, mode);
    lemma_all_start_with_add(home, issues_urls(base, z.issues@, mode), base);
    lemma_all_start_with_add(s1, authors, base);
    lemma_all_start_with_add(s1 + authors, ka, base);
    lemma_all_start_with_add(s1 + authors + ka, topics, base);
    lemma_all_start_with_add(s1 + authors + ka + topics, pages, base);
}


/// The topic page of an issue lists, in order, exactly the articles that
/// have the topic among any of their topics.
pub proof fn lemma_topic_refs_are_the_articles_with_topic(i: Issue, ts: Seq<Article>, topic: Seq<char>)
    ensures
        refs_by_topic(i, ts, topic) == ts.filter(
            |a: Article| exists|k: int| 0 <= k < a.topics@.len() && a.topics@[k]@ == topic,
        ).map_values(|a: Article| ref_of(i, a)),
    decreases ts.len(),
{
    reveal(Seq::filter);
    let pred = |a: Article| exists|k: int| 0 <= k < a.topics@.len() && a.topics@[k]@ == topic;
    if ts.len() == 0 {
        assert(ts.filter(pred) =~= Seq::<Article>::empty());
        assert(ts.filter(pred).map_values(|a: Article| ref_of(i, a)) =~= Seq::<ArticleRefView>::empty());
    } else {
        lemma_topic_refs_are_the_articles_with_topic(i, ts.drop_last(), topic);
        let f = ts.drop_last().filter(pred);
        let a = ts.last();
        assert(has_topic(a, topic) == pred(a));
        if pred(a) {
            assert(ts.filter(pred) == f.push(a));
            assert(f.push(a).map_values(|a: Article| ref_of(i, a)) =~= f.map_values(|a: Article| ref_of(i, a)).push(
                ref_of(i, a),
            ));
        } else {
            assert(ts.filter(pred) == f);
        }
    }
}

/// An article with the topic in any place of its topics is on the topic
/// page of its issue, and one without it is not counted there.
pub proof fn lemma_topic_page_counts_any_topic(i: Issue, ts: Seq<Article>, topic: Seq<char>, j: int, k: int)
    requires
        0 <= j < ts.len(),
        0 <= k < ts[j].topics@.len(),
        ts[j].topics@[k]@ == topic,
    ensures
        refs_by_topic(i, ts, topic).contains(ref_of(i, ts[j])),
    decreases ts.len(),
{
    if j == ts.len() - 1 {
        assert(has_topic(ts.last(), topic));
        let p = refs_by_topic(i, ts.drop_last(), topic);
        assert(refs_by_topic(i, ts, topic) == p.push(ref_of(i, ts[j])));
        assert(p.push(ref_of(i, ts[j]))[p.len() as int] == ref_of(i, ts[j]));
    } else {
        assert(ts.drop_last()[j] == ts[j]);
        lemma_topic_page_counts_any_topic(i, ts.drop_last(), topic, j, k);
        let p = refs_by_topic(i, ts.drop_last(), topic);
        let x = choose|x: int| 0 <= x < p.len() && p[x] == ref_of(i, ts[j]);
        if has_topic(ts.last(), topic) {
            assert(p.push(ref_of(i, ts.last()))[x] == ref_of(i, ts[j]));
        }
    }
}

/// The sitemap url of each author is the site url followed by the author's
/// page (`/@` and the lower case id), and that of each topic the site url
/// followed by `/topic/` and the lower case id, the directory of the topic's
/// page.
pub proof fn lemma_sitemap_keyed_pages(z: Zine, mode: Mode)
    ensures
        ({
            let base = z.site.url@;
            let off = 2 + issues_urls(base, z.issues@, mode).len();
            &&& forall|i: int| 0 <= i < z.authors@.len() ==> sitemap(z, mode)[off + i] == base + "/"@ + author_slug(
                (#[trigger] z.authors@[i]).0@,
            ) + "/"@
            &&& z.topics@.len() > 0 ==> forall|i: int|
                0 <= i < z.topics@.len() ==> sitemap(z, mode)[off + z.authors@.len() + 1 + i] == base + "/topic/"@
                    + spec_to_lowercase((#[trigger] z.topics@[i]).0@) + "/"@
        }),
{
    let base = z.site.url@;
    let iu = issues_urls(base, z.issues@, mode);
    let au = keyed_urls(base, "/@"@, z.authors@);
    let tu = if z.topics@.len() > 0 {
        seq![base + "/topics/"@] + keyed_urls(base, "/topic/"@, z.topics@)
    } else {
        Seq::empty()
    };
    let pu = z.pages@.map_values(|p: Page| page_url(base, p));
    let head = seq![base + "/"@] + iu + seq![base + "/authors/"@];
    assert(sitemap(z, mode) == head + au + tu + pu);
    let off = 2 + iu.len();
    assert forall|i: int| 0 <= i < z.authors@.len() implies sitemap(z, mode)[off + i] == base + "/"@ + author_slug(
        (#[trigger] z.authors@[i]).0@,
    ) + "/"@ by {
        assert((head + au + tu + pu)[off + i] == au[i]);
        reveal_strlit("/@");
        reveal_strlit("/");
        reveal_strlit("@");
        assert("/@"@ =~= "/"@ + "@"@);
        assert(base + "/@"@ + spec_to_lowercase(z.authors@[i].0@) + "/"@ =~= base + "/"@ + ("@"@ + spec_to_lowercase(
            z.authors@[i].0@,
        )) + "/"@);
    }
    if z.topics@.len() > 0 {
        assert forall|i: int| 0 <= i < z.topics@.len() implies sitemap(z, mode)[off + z.authors@.len() + 1 + i] == base
            + "/topic/"@ + spec_to_lowercase((#[trigger] z.topics@[i]).0@) + "/"@ by {
            assert((head + au + tu + pu)[off + z.authors@.len() + 1 + i] == tu[1 + i]);
            assert(tu[1 + i] == keyed_urls(base, "/topic/"@, z.topics@)[i]);
        }
    }
}

} // verus!

