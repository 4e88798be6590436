//! The data shared by the pages of a build: authors, articles, topics, the
//! site and the theme.
use vstd::prelude::*;
use crate::entity::article::same_meta;
use crate::entity::site::is_default_site;
use crate::entity::theme::is_default_theme;
use crate::entity::{Author, MetaArticle, Site, Theme};
use crate::text::{eq_ignore_ascii_case, eq_ignore_ascii_case_str, str_eq, string_from};

verus! {

/// The data shared by the pages of a build.
#[derive(Debug)]
pub struct ZineData {
    authors: Vec<Author>,
    /// Issue slug and article pairs.
    articles: Vec<(String, MetaArticle)>,
    /// The topic names.
    topics: Vec<String>,
    site: Site,
    theme: Theme,
}

/// The content of the shared data.
pub struct ZineDataView {
    pub authors: Seq<Author>,
    pub articles: Seq<(Seq<char>, MetaArticle)>,
    pub topics: Seq<Seq<char>>,
    pub site: Site,
    pub theme: Theme,
}

impl View for ZineData {
    type V = ZineDataView;

    closed spec fn view(&self) -> ZineDataView {
        ZineDataView {
            authors: self.authors@,
            articles: self.articles@.map_values(|p: (String, MetaArticle)| (p.0@, p.1)),
            topics: self.topics@.map_values(|t: String| t@),
            site: self.site,
            theme: self.theme,
        }
    }
}

/// The first author whose id is `id`, ignoring ASCII case.
pub open spec fn author_by_id(authors: Seq<Author>, id: Seq<char>) -> Option<Author>
    decreases authors.len(),
{
    if authors.len() == 0 {
        None
    } else if eq_ignore_ascii_case(authors[0].id@, id) {
        Some(authors[0])
    } else {
        author_by_id(authors.drop_first(), id)
    }
}

/// An author found by id is one of the authors, with that id ignoring ASCII
/// case, and no author before it has that id.
pub proof fn lemma_author_by_id(authors: Seq<Author>, id: Seq<char>)
    ensures
        author_by_id(authors, id) matches Some(a) ==> exists|i: int|
            0 <= i < authors.len() && authors[i] == a && eq_ignore_ascii_case(a.id@, id) && forall|j: int|
                0 <= j < i ==> !eq_ignore_ascii_case(#[trigger] authors[j].id@, id),
        author_by_id(authors, id) is None ==> forall|i: int|
            0 <= i < authors.len() ==> !eq_ignore_ascii_case(#[trigger] authors[i].id@, id),
    decreases authors.len(),
{
    if authors.len() > 0 {
        let rest = authors.drop_first();
        lemma_author_by_id(rest, id);
        if !eq_ignore_ascii_case(authors[0].id@, id) {
            if let Some(a) = author_by_id(rest, id) {
                let k = choose|k: int|
                    0 <= k < rest.len() && rest[k] == a && eq_ignore_ascii_case(a.id@, id) && forall|j: int|
                        0 <= j < k ==> !eq_ignore_ascii_case(#[trigger] rest[j].id@, id);
                assert(authors[k + 1] == a);
                assert forall|j: int| 0 <= j < k + 1 implies !eq_ignore_ascii_case(#[trigger] authors[j].id@, id) by {
                    if j > 0 {
                        assert(authors[j] == rest[j - 1]);
                    }
                }
            } else {
                assert forall|i: int| 0 <= i < authors.len() implies !eq_ignore_ascii_case(#[trigger] authors[i].id@, id) by {
                    if i > 0 {
                        assert(authors[i] == rest[i - 1]);
                    }
                }
            }
        }
    }
}

/// Whether the article `a` of the issue `issue_slug` is found at `path`: by
/// its own path, or by `/issue-slug/article-slug`.
pub open spec fn article_at(issue_slug: Seq<char>, a: MetaArticle, path: Seq<char>) -> bool {
    ||| (a.path matches Some(p) && p@ == path)
    ||| "/"@ + issue_slug + "/"@ + a.slug@ == path
}

/// The first article found at `path`.
pub open spec fn article_by_path(articles: Seq<(Seq<char>, MetaArticle)>, path: Seq<char>) -> Option<MetaArticle>
    decreases articles.len(),
{
    if articles.len() == 0 {
        None
    } else if article_at(articles[0].0, articles[0].1, path) {
        Some(articles[0].1)
    } else {
        article_by_path(articles.drop_first(), path)
    }
}

/// Whether `topic` is one of `topics`, ignoring ASCII case.
pub open spec fn valid_topic(topics: Seq<Seq<char>>, topic: Seq<char>) -> bool {
    exists|i: int| 0 <= i < topics.len() && #[trigger] eq_ignore_ascii_case(topics[i], topic)
}

/// The content of `d` with other authors.
pub open spec fn with_authors(d: ZineDataView, authors: Seq<Author>) -> ZineDataView {
    ZineDataView { authors, ..d }
}

/// The content of `d` with other articles.
pub open spec fn with_articles(d: ZineDataView, articles: Seq<(Seq<char>, MetaArticle)>) -> ZineDataView {
    ZineDataView { articles, ..d }
}

/// The content of `d` with other topics.
pub open spec fn with_topics(d: ZineDataView, topics: Seq<Seq<char>>) -> ZineDataView {
    ZineDataView { topics, ..d }
}

/// The content of `d` with another site.
pub open spec fn with_site(d: ZineDataView, site: Site) -> ZineDataView {
    ZineDataView { site, ..d }
}

/// The content of `d` with another theme.
pub open spec fn with_theme(d: ZineDataView, theme: Theme) -> ZineDataView {
    ZineDataView { theme, ..d }
}

/// What is set is what is read back: each setter replaces its part of the
/// data and keeps the others.
pub proof fn lemma_set_then_read(
    d: ZineDataView,
    authors: Seq<Author>,
    articles: Seq<(Seq<char>, MetaArticle)>,
    topics: Seq<Seq<char>>,
    site: Site,
    theme: Theme,
)
    ensures
        with_authors(d, authors).authors == authors,
        with_articles(d, articles).articles == articles,
        with_topics(d, topics).topics == topics,
        with_site(d, site).site == site,
        with_theme(d, theme).theme == theme,
        with_authors(d, authors).site == d.site && with_authors(d, authors).theme == d.theme
            && with_authors(d, authors).articles == d.articles && with_authors(d, authors).topics == d.topics,
        with_site(d, site).authors == d.authors && with_site(d, site).theme == d.theme
            && with_site(d, site).articles == d.articles && with_site(d, site).topics == d.topics,
{
}

impl ZineData {
    pub fn set_authors(&mut self, authors: Vec<Author>) -> (r: &mut Self)
        ensures
            r@ == with_authors(old(self)@, authors@),
            *final(self) == *final(r),
    {
        self.authors = authors;
        self
    }

    pub fn set_topics(&mut self, topics: Vec<String>) -> (r: &mut Self)
        ensures
            r@ == with_topics(old(self)@, topics@.map_values(|t: String| t@)),
            *final(self) == *final(r),
    {
        self.topics = topics;
        self
    }

    pub fn set_articles(&mut self, articles: Vec<(String, MetaArticle)>) -> (r: &mut Self)
        ensures
            r@ == with_articles(
                old(self)@,
                articles@.map_values(|p: (String, MetaArticle)| (p.0@, p.1)),
            ),
            *final(self) == *final(r),
    {
        self.articles = articles;
        self
    }

    pub fn set_site(&mut self, site: Site) -> (r: &mut Self)
        ensures
            r@ == with_site(old(self)@, site),
            *final(self) == *final(r),
    {
        self.site = site;
        self
    }

    pub fn set_theme(&mut self, theme: Theme) -> (r: &mut Self)
        ensures
            r@ == with_theme(old(self)@, theme),
            *final(self) == *final(r),
    {
        self.theme = theme;
        self
    }

    /// The authors, in the order they were set.
    pub fn get_authors(&self) -> (r: Vec<&Author>)
        ensures
            r@.map_values(|a: &Author| *a) == self@.authors,
    {
        let mut r: Vec<&Author> = Vec::new();
        let mut i: usize = 0;
        while i < self.authors.len()
            invariant
                i <= self.authors.len(),
                self@.authors == self.authors@,
                r@.map_values(|a: &Author| *a) == self@.authors.take(i as int),
            decreases self.authors.len() - i,
        {
            let a = &self.authors[i];
            let ghost before = r@.map_values(|a: &Author| *a);
            r.push(a);
            assert(r@.map_values(|a: &Author| *a) =~= before.push(*a));
            i = i + 1;
            assert(r@.map_values(|a: &Author| *a) =~= self@.authors.take(i as int));
        }
        assert(self@.authors.take(i as int) =~= self@.authors);
        r
    }

    /// The first author whose id is `author_id`, ignoring ASCII case.
    pub fn get_author_by_id(&self, author_id: &str) -> (r: Option<&Author>)
        ensures
            match r {
                Some(a) => author_by_id(self@.authors, author_id@) == Some(*a),
                None => author_by_id(self@.authors, author_id@) is None,
            },
    {
        let mut i: usize = 0;
        assert(self@.authors.skip(0) =~= self@.authors);
        while i < self.authors.len()
            invariant
                i <= self.authors.len(),
                self@.authors == self.authors@,
                author_by_id(self@.authors, author_id@) == author_by_id(
                    self@.authors.skip(i as int),
                    author_id@,
                ),
            decreases self.authors.len() - i,
        {
            let a = &self.authors[i];
            assert(self@.authors.skip(i as int)[0] == *a);
            assert(self@.authors.skip(i as int).drop_first() =~= self@.authors.skip(i + 1));
            if eq_ignore_ascii_case_str(a.id.as_str(), author_id) {
                return Some(a);
            }
            i = i + 1;
        }
        assert(self@.authors.skip(i as int) =~= Seq::<Author>::empty());
        None
    }

    /// A copy of the first article found at `article_path`: by its own path,
    /// or by `/issue-slug/article-slug`.
    pub fn get_article_by_path(&self, article_path: &str) -> (r: Option<MetaArticle>)
        ensures
            match r {
                Some(m) => article_by_path(self@.articles, article_path@) matches Some(a) && same_meta(m, a),
                None => article_by_path(self@.articles, article_path@) is None,
            },
    {
        let ghost arts = self@.articles;
        let mut i: usize = 0;
        assert(arts.skip(0) =~= arts);
        while i < self.articles.len()
            invariant
                i <= self.articles.len(),
                arts == self@.articles,
                arts.len() == self.articles.len(),
                forall|k: int| 0 <= k < arts.len() ==> #[trigger] arts[k] == (self.articles@[k].0@, self.articles@[k].1),
                article_by_path(arts, article_path@) == article_by_path(arts.skip(i as int), article_path@),
            decreases self.articles.len() - i,
        {
            let (slug, article) = (&self.articles[i].0, &self.articles[i].1);
            assert(arts[i as int] == (slug@, *article));
            assert(arts.skip(i as int)[0] == (slug@, *article));
            assert(arts.skip(i as int).drop_first() =~= arts.skip(i + 1));
            let by_path = match &article.path {
                Some(p) => str_eq(p.as_str(), article_path),
                None => false,
            };
            let mut url = string_from("/");
            url.append(slug.as_str());
            url.append("/");
            url.append(article.slug.as_str());
            if by_path || str_eq(url.as_str(), article_path) {
                return Some(article.duplicate());
            }
            i = i + 1;
        }
        assert(arts.skip(i as int) =~= Seq::<(Seq<char>, MetaArticle)>::empty());
        None
    }

    pub fn get_site(&self) -> (r: &Site)
        ensures
            *r == self@.site,
    {
        &self.site
    }

    pub fn get_theme(&self) -> (r: &Theme)
        ensures
            *r == self@.theme,
    {
        &self.theme
    }

    /// Whether `topic` is a declared topic, ignoring ASCII case.
    pub fn is_valid_topic(&self, topic: &str) -> (r: bool)
        ensures
            r == valid_topic(self@.topics, topic@),
    {
        let mut i: usize = 0;
        while i < self.topics.len()
            invariant
                i <= self.topics.len(),
                self@.topics == self.topics@.map_values(|t: String| t@),
                forall|k: int| 0 <= k < i ==> !eq_ignore_ascii_case(#[trigger] self@.topics[k], topic@),
            decreases self.topics.len() - i,
        {
            let t = &self.topics[i];
            assert(self@.topics[i as int] == t@);
            if eq_ignore_ascii_case_str(t.as_str(), topic) {
                return true;
            }
            i = i + 1;
        }
        false
    }
}

impl Default for ZineData {
    fn default() -> (r: Self)
        ensures
            r@.authors.len() == 0,
            r@.articles.len() == 0,
            r@.topics.len() == 0,
            is_default_site(r@.site),
            is_default_theme(r@.theme),
    {
        let d = ZineData {
            authors: Vec::new(),
            articles: Vec::new(),
            topics: Vec::new(),
            site: Site::default(),
            theme: Theme::default(),
        };
        assert(d@.articles =~= Seq::<(Seq<char>, MetaArticle)>::empty());
        assert(d@.topics =~= Seq::<Seq<char>>::empty());
        d
    }
}

} // verus!
