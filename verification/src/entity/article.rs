//! Articles and their meta information.
use vstd::prelude::*;
use crate::date::{date_min, Date};
use crate::i18n::{get_locale_name, locale_name};
use crate::meta::{extract_description, spec_extract_description, Meta};
use crate::mode::{current_mode, published, Mode};
use crate::sort::{lemma_sort_map, sort_by_key, sort_vec_by_key, SortKey, SpecKey};
use crate::text::{
    chars_of, clone_opt, clone_strings, remove_all, remove_all_vec, starts_with, str_starts_with,
    string_from, string_of, sub_vec,
};
use crate::keyed::{keys_ascending, keys_in_order, lemma_same_keys};
use super::author::{author_id_matches, AuthorId, AuthorIdView};

verus! {

/// The meta info of an article.
#[derive(Debug, Clone, PartialEq, Eq)]
pub struct MetaArticle {
    pub file: String,
    /// The slug after the article is rendered; falls back to the file name.
    pub slug: String,
    /// The absolute path of the article; it takes precedence over `slug`.
    pub path: Option<String>,
    pub title: String,
    /// The author(s) of the article.
    pub author: Option<AuthorId>,
    pub cover: Option<String>,
    /// The publish date.
    pub pub_date: Date,
}

/// An article.
#[derive(Debug)]
pub struct Article {
    pub meta: MetaArticle,
    /// The markdown content.
    pub markdown: String,
    /// The topics of this article.
    pub topics: Vec<String>,
    /// Whether the article is featured on the home page.
    pub featured: bool,
    /// Whether to publish the article.
    pub publish: bool,
    /// The canonical link of this article.
    pub canonical: Option<String>,
    /// The translations, by locale, in ascending locale order.
    pub i18n: Vec<(String, Article)>,
}

/// Whether a cover is missing or empty.
pub open spec fn empty_cover(cover: Option<String>) -> bool {
    match cover {
        Some(c) => c@.len() == 0,
        None => true,
    }
}

/// The article itself followed by its translations.
pub open spec fn with_translations(a: Article) -> Seq<Article> {
    seq![a] + a.i18n@.map_values(|p: (String, Article)| p.1)
}

/// The path of the page of an article inside the issue `issue_slug`: its
/// absolute path without the leading `/`, else `issue_slug/slug`.
pub open spec fn article_page_url(meta: MetaArticle, issue_slug: Seq<char>) -> Seq<char> {
    match meta.path {
        Some(p) => if starts_with(p@, "/"@) {
            p@.drop_first()
        } else {
            issue_slug + "/"@ + meta.slug@
        },
        None => issue_slug + "/"@ + meta.slug@,
    }
}

impl MetaArticle {
    /// Whether the cover is missing or empty.
    pub fn has_empty_cover(&self) -> (r: bool)
        ensures
            r == empty_cover(self.cover),
    {
        match &self.cover {
            Some(c) => c.as_str().is_empty(),
            None => true,
        }
    }

    /// The publish date of an article that gives none.
    pub fn default_pub_date() -> (r: Date)
        ensures
            r == date_min(),
    {
        Date::min()
    }

    /// Whether the publish date is the default one.
    pub fn is_default_pub_date(&self) -> (r: bool)
        ensures
            r == (self.pub_date == date_min()),
    {
        self.pub_date == Date::min()
    }
}

/// A translation of an article: the locale's display name, slug and path.
#[derive(Debug, Clone, Copy)]
pub struct Translation<'a> {
    pub name: &'static str,
    pub slug: &'a String,
    pub path: &'a Option<String>,
}

/// The place of a locale display name in the alphabetical order of all of them.
pub open spec fn name_rank(name: Seq<char>) -> int {
    if name == "English"@ {
        0
    } else if name == "Español"@ {
        1
    } else if name == "Français"@ {
        2
    } else if name == "中文"@ {
        3
    } else if name == "日本語"@ {
        4
    } else if name == "简体中文"@ {
        5
    } else {
        6
    }
}

fn name_rank_exec(name: &str) -> (r: i64)
    ensures
        r as int == name_rank(name@),
{
    if crate::text::str_eq(name, "English") {
        0
    } else if crate::text::str_eq(name, "Español") {
        1
    } else if crate::text::str_eq(name, "Français") {
        2
    } else if crate::text::str_eq(name, "中文") {
        3
    } else if crate::text::str_eq(name, "日本語") {
        4
    } else if crate::text::str_eq(name, "简体中文") {
        5
    } else {
        6
    }
}

impl<'a> SpecKey for Translation<'a> {
    open spec fn key_of(&self) -> int {
        name_rank(self.name@)
    }
}

impl<'a> SortKey for Translation<'a> {
    fn sort_key(&self) -> (r: i64) {
        name_rank_exec(self.name)
    }
}

/// A translation as texts: locale display name, slug and path.
pub struct TranslationView {
    pub name: Seq<char>,
    pub slug: Seq<char>,
    pub path: Option<Seq<char>>,
}

impl SpecKey for TranslationView {
    open spec fn key_of(&self) -> int {
        name_rank(self.name)
    }
}

/// The view of an optional text.
pub open spec fn opt_text(o: Option<String>) -> Option<Seq<char>> {
    match o {
        Some(s) => Some(s@),
        None => None,
    }
}

/// The texts of a translation.
pub open spec fn translation_view(t: Translation) -> TranslationView {
    TranslationView { name: t.name@, slug: t.slug@, path: opt_text(*t.path) }
}

/// Whether every translation locale has a display name, and, when there are
/// translations, the site locale too.
pub open spec fn translations_supported(a: Article, site_locale: Seq<char>) -> bool {
    &&& forall|i: int| 0 <= i < a.i18n@.len() ==> (#[trigger] locale_name(a.i18n@[i].0@)) is Some
    &&& a.i18n@.len() > 0 ==> locale_name(site_locale) is Some
}

/// The translation entries of an article before sorting: one per translation,
/// then the article itself under the site locale when there are translations.
pub open spec fn translation_entries(a: Article, site_locale: Seq<char>) -> Seq<TranslationView> {
    let ts = a.i18n@.map_values(
        |p: (String, Article)|
            TranslationView {
                name: locale_name(p.0@)->0,
                slug: p.1.meta.slug@,
                path: opt_text(p.1.meta.path),
            },
    );
    if ts.len() == 0 {
        ts
    } else {
        ts.push(
            TranslationView {
                name: locale_name(site_locale)->0,
                slug: a.meta.slug@,
                path: opt_text(a.meta.path),
            },
        )
    }
}

impl Article {
    /// Whether `author` is (one of) the author(s) of this article.
    pub fn is_author(&self, author: &str) -> (r: bool)
        ensures
            r == match self.meta.author {
                Some(a) => author_id_matches(a, author@),
                None => false,
            },
    {
        match &self.meta.author {
            Some(a) => a.is_author(author),
            None => false,
        }
    }

    /// Whether the article is published in `mode`.
    pub fn need_publish_in(&self, mode: Mode) -> (r: bool)
        ensures
            r == published(self.publish, mode),
    {
        self.publish || mode == Mode::Serve
    }

    /// Whether the article is published in the current run mode; it always is
    /// when its `publish` flag is set.
    pub fn need_publish(&self) -> (r: bool)
        ensures
            self.publish ==> r,
    {
        let mode = current_mode();
        self.need_publish_in(mode)
    }

    /// The translations of this article, with the article itself under the site
    /// locale when there is any, sorted by locale name.
    pub fn get_translations(&self, site_locale: &str) -> (r: Vec<Translation<'_>>)
        requires
            translations_supported(*self, site_locale@),
        ensures
            r@.map_values(|t: Translation| translation_view(t)) == sort_by_key(
                translation_entries(*self, site_locale@),
            ),
    {
        let mut ts: Vec<Translation<'_>> = Vec::new();
        let ghost entries = translation_entries(*self, site_locale@);
        let ghost body = self.i18n@.map_values(
            |p: (String, Article)|
                TranslationView {
                    name: locale_name(p.0@)->0,
                    slug: p.1.meta.slug@,
                    path: opt_text(p.1.meta.path),
                },
        );
        let mut i: usize = 0;
        while i < self.i18n.len()
            invariant
                i <= self.i18n.len(),
                translations_supported(*self, site_locale@),
                body == self.i18n@.map_values(
                    |p: (String, Article)|
                        TranslationView {
                            name: locale_name(p.0@)->0,
                            slug: p.1.meta.slug@,
                            path: opt_text(p.1.meta.path),
                        },
                ),
                ts@.map_values(|t: Translation| translation_view(t)) == body.take(i as int),
            decreases self.i18n.len() - i,
        {
            let (locale, article) = &self.i18n[i];
            assert(locale_name(self.i18n@[i as int].0@) is Some);
            let name = get_locale_name(locale.as_str()).unwrap();
            let ghost before = ts@.map_values(|t: Translation| translation_view(t));
            let t = Translation { name, slug: &article.meta.slug, path: &article.meta.path };
            assert(self.i18n@[i as int].0 == *locale && self.i18n@[i as int].1 == *article);
            assert(translation_view(t) == body[i as int]);
            ts.push(t);
            assert(ts@.map_values(|t: Translation| translation_view(t)) =~= before.push(translation_view(t)));
            i = i + 1;
            assert(ts@.map_values(|t: Translation| translation_view(t)) =~= body.take(i as int));
        }
        assert(body.take(i as int) =~= body);
        if ts.len() > 0 {
            let name = get_locale_name(site_locale).unwrap();
            ts.push(Translation { name, slug: &self.meta.slug, path: &self.meta.path });
            assert(ts@.map_values(|t: Translation| translation_view(t)) =~= entries);
        } else {
            assert(ts@.map_values(|t: Translation| translation_view(t)) =~= entries);
        }
        let ghost unsorted = ts@;
        let r = sort_vec_by_key(ts);
        proof {
            let f = |t: Translation| translation_view(t);
            assert forall|a: Translation| #[trigger] f(a).key_of() == a.key_of() by {}
            lemma_sort_map(unsorted, f);
        }
        r
    }

    /// Fills in what an article does not give: the slug from the file name
    /// (when there is neither path nor slug), the cover from `default_cover`
    /// (when it is missing or empty), and a leading `/` on the path.
    pub fn prepare(&mut self, default_cover: &Option<String>)
        ensures
            final(self).meta.slug@ == if old(self).meta.path is None && old(self).meta.slug@.len() == 0 {
                remove_all(old(self).meta.file@, ".md"@)
            } else {
                old(self).meta.slug@
            },
            final(self).meta.cover == if empty_cover(old(self).meta.cover) {
                *default_cover
            } else {
                old(self).meta.cover
            },
            opt_text(final(self).meta.path) == match old(self).meta.path {
                Some(p) => if starts_with(p@, "/"@) {
                    Some(p@)
                } else {
                    Some("/"@ + p@)
                },
                None => None::<Seq<char>>,
            },
            final(self).meta.file == old(self).meta.file,
            final(self).meta.title == old(self).meta.title,
            final(self).meta.author == old(self).meta.author,
            final(self).meta.pub_date == old(self).meta.pub_date,
            final(self).markdown == old(self).markdown,
            final(self).topics == old(self).topics,
            final(self).featured == old(self).featured,
            final(self).publish == old(self).publish,
            final(self).canonical == old(self).canonical,
            final(self).i18n == old(self).i18n,
    {
        if self.meta.path.is_none() && self.meta.slug.as_str().is_empty() {
            let v = chars_of(self.meta.file.as_str());
            let s = remove_all_vec(&v, ".md");
            self.meta.slug = string_of(s.as_slice());
        }
        if self.meta.has_empty_cover() {
            self.meta.cover = clone_opt(default_cover);
        }
        let needs_slash = match &self.meta.path {
            Some(p) => !str_starts_with(p.as_str(), "/"),
            None => false,
        };
        if needs_slash {
            let mut np = string_from("/");
            match &self.meta.path {
                Some(p) => np.append(p.as_str()),
                None => {},
            }
            self.meta.path = Some(np);
        }
    }

    /// Fails when the article gives no publish date.
    pub fn check_pub_date(&self) -> (r: Result<(), String>)
        ensures
            match r {
                Ok(_) => self.meta.pub_date != date_min(),
                Err(m) => self.meta.pub_date == date_min() && m@ == "`pub_date` is required for article `"@
                    + self.meta.title@ + "`"@,
            },
    {
        if self.meta.is_default_pub_date() {
            let mut m = string_from("`pub_date` is required for article `");
            m.append(self.meta.title.as_str());
            m.append("`");
            Err(m)
        } else {
            Ok(())
        }
    }

    /// The meta of the article's page inside the issue `issue_slug`: its
    /// title, the description of its markdown, its page path, its cover.
    pub fn page_meta(&self, issue_slug: &str) -> (r: Meta)
        ensures
            r.title == self.meta.title,
            r.description@ == spec_extract_description(self.markdown@),
            r.url is Some && r.url->0@ == article_page_url(self.meta, issue_slug@),
            r.image == self.meta.cover,
    {
        Meta {
            title: self.meta.title.clone(),
            description: extract_description(self.markdown.as_str()),
            url: Some(self.page_url(issue_slug)),
            image: clone_opt(&self.meta.cover),
        }
    }

    /// The path of the page of this article inside the issue `issue_slug`.
    pub fn page_url(&self, issue_slug: &str) -> (r: String)
        ensures
            r@ == article_page_url(self.meta, issue_slug@),
    {
        match &self.meta.path {
            Some(p) => {
                if str_starts_with(p.as_str(), "/") {
                    proof {
                        reveal_strlit("/");
                    }
                    let v = chars_of(p.as_str());
                    let t = sub_vec(&v, 1, v.len());
                    assert(t@ =~= p@.drop_first());
                    return string_of(t.as_slice());
                }
            },
            None => {},
        }
        let mut r = string_from(issue_slug);
        r.append("/");
        r.append(self.meta.slug.as_str());
        r
    }
}

/// The view of an optional author id.
pub open spec fn opt_author(a: Option<AuthorId>) -> Option<AuthorIdView> {
    match a {
        Some(x) => Some(x@),
        None => None,
    }
}

/// Whether `n` is the translation `t` after it takes what it lacks from the
/// original article: the topics always, and the author, the cover and the
/// publish date when missing.
pub open spec fn inherits_from(n: Article, t: Article, origin: Article) -> bool {
    &&& opt_author(n.meta.author) == opt_author(
        if t.meta.author is None { origin.meta.author } else { t.meta.author },
    )
    &&& n.meta.cover == if empty_cover(t.meta.cover) { origin.meta.cover } else { t.meta.cover }
    &&& n.meta.pub_date == if t.meta.pub_date == date_min() { origin.meta.pub_date } else { t.meta.pub_date }
    &&& n.meta.file == t.meta.file
    &&& n.meta.slug == t.meta.slug
    &&& n.meta.path == t.meta.path
    &&& n.meta.title == t.meta.title
    &&& n.topics@ == origin.topics@
    &&& n.markdown == t.markdown
    &&& n.featured == t.featured
    &&& n.publish == t.publish
    &&& n.canonical == t.canonical
    &&& n.i18n == t.i18n
}

impl AuthorId {
    /// A copy of this author id.
    pub fn duplicate(&self) -> (r: AuthorId)
        ensures
            r@ == self@,
            author_id_matches(r, Seq::empty()) == author_id_matches(*self, Seq::empty()),
            forall|id: Seq<char>| author_id_matches(r, id) == author_id_matches(*self, id),
    {
        match self {
            AuthorId::One(a) => AuthorId::One(a.clone()),
            AuthorId::List(v) => {
                let c = clone_strings(v);
                let r = AuthorId::List(c);
                assert(r@ =~= self@) by {
                    assert(c@.map_values(|x: String| x@) =~= v@.map_values(|x: String| x@));
                }
                r
            },
        }
    }
}

impl Article {
    /// Whether the translations are in ascending locale order, each locale
    /// once, as a map keyed by locale holds them.
    pub open spec fn translations_ordered(&self) -> bool {
        keys_ascending(self.i18n@)
    }

    /// Whether the translations are in ascending locale order.
    pub fn has_ordered_translations(&self) -> (r: bool)
        ensures
            r == self.translations_ordered(),
    {
        keys_in_order(&self.i18n)
    }

    /// Lets every translation take the topics of this article, and its author,
    /// cover and publish date where the translation lacks them.
    pub fn inherit_translations(&mut self)
        ensures
            final(self).i18n@.len() == old(self).i18n@.len(),
            forall|i: int|
                0 <= i < old(self).i18n@.len() ==> #[trigger] final(self).i18n@[i].0 == old(self).i18n@[i].0
                    && inherits_from(final(self).i18n@[i].1, old(self).i18n@[i].1, *old(self)),
            final(self).meta == old(self).meta,
            final(self).markdown == old(self).markdown,
            final(self).topics == old(self).topics,
            final(self).featured == old(self).featured,
            final(self).publish == old(self).publish,
            final(self).canonical == old(self).canonical,
            final(self).translations_ordered() == old(self).translations_ordered(),
    {
        let ghost origin = *self;
        let mut rest: Vec<(String, Article)> = Vec::new();
        std::mem::swap(&mut rest, &mut self.i18n);
        let ghost all = rest@;
        let mut done: Vec<(String, Article)> = Vec::new();
        while rest.len() > 0
            invariant
                done@.len() + rest@.len() == all.len(),
                rest@ == all.skip(done@.len() as int),
                forall|i: int|
                    0 <= i < done@.len() ==> #[trigger] done@[i].0 == all[i].0 && inherits_from(
                        done@[i].1,
                        all[i].1,
                        origin,
                    ),
                self.meta == origin.meta,
                self.topics == origin.topics,
                self.markdown == origin.markdown,
                self.featured == origin.featured,
                self.publish == origin.publish,
                self.canonical == origin.canonical,
            decreases rest@.len(),
        {
            let (locale, mut t) = rest.remove(0);
            let ghost k = done@.len() as int;
            assert(all[k] == (locale, t));
            t.topics = clone_strings(&self.topics);
            if t.meta.author.is_none() {
                t.meta.author = match &self.meta.author {
                    Some(a) => Some(a.duplicate()),
                    None => None,
                };
            }
            if t.meta.has_empty_cover() {
                t.meta.cover = clone_opt(&self.meta.cover);
            }
            if t.meta.is_default_pub_date() {
                t.meta.pub_date = self.meta.pub_date;
            }
            done.push((locale, t));
            assert(rest@ =~= all.skip(done@.len() as int));
        }
        self.i18n = done;
        proof {
            lemma_same_keys(all, self.i18n@);
        }
    }
}

/// Whether two article metas hold the same texts.
pub open spec fn same_meta(a: MetaArticle, b: MetaArticle) -> bool {
    &&& a.file == b.file
    &&& a.slug == b.slug
    &&& a.path == b.path
    &&& a.title == b.title
    &&& opt_author(a.author) == opt_author(b.author)
    &&& a.cover == b.cover
    &&& a.pub_date == b.pub_date
}

impl MetaArticle {
    /// A copy of this meta.
    pub fn duplicate(&self) -> (r: MetaArticle)
        ensures
            same_meta(r, *self),
    {
        MetaArticle {
            file: self.file.clone(),
            slug: self.slug.clone(),
            path: clone_opt(&self.path),
            title: self.title.clone(),
            author: match &self.author {
                Some(a) => Some(a.duplicate()),
                None => None,
            },
            cover: clone_opt(&self.cover),
            pub_date: self.pub_date,
        }
    }
}

} // verus!
