//! Seasons: numbered collections of articles, kept in a directory of their own.
use vstd::prelude::*;
use crate::meta::{spec_strip_markdown, strip_markdown, Meta};
use crate::sort::{sort_by_key, sort_vec_by_key};
use crate::text::{chars_of, clone_opt, string_of, sub_vec, take_chars};
use super::article::Article;

verus! {

/// A season, configured by the `zine.toml` of its directory.
#[derive(Debug)]
pub struct Season {
    pub slug: String,
    pub number: u32,
    pub title: String,
    /// The introduction of the season (markdown).
    pub intro: Option<String>,
    pub cover: Option<String>,
    /// The path of the season directory.
    pub path: String,
    pub articles: Vec<Article>,
}

impl Season {
    /// The description of the season: its introduction cut to 200 characters
    /// and stripped of markdown.
    pub fn description(&self) -> (r: String)
        ensures
            r@ == match self.intro {
                Some(i) => spec_strip_markdown(take_chars(i@, 200)),
                None => Seq::empty(),
            },
    {
        match &self.intro {
            Some(intro) => {
                let v = chars_of(intro.as_str());
                let raw = if v.len() > 200 {
                    sub_vec(&v, 0, 200)
                } else {
                    v
                };
                assert(raw@ =~= take_chars(intro@, 200));
                let text = string_of(raw.as_slice());
                strip_markdown(text.as_str())
            },
            None => String::new(),
        }
    }

    /// The articles before and after the one at `current`.
    pub fn sibling_articles(&self, current: usize) -> (r: (Option<&Article>, Option<&Article>))
        ensures
            match r.0 {
                Some(a) => current > 0 && current - 1 < self.articles@.len() && *a == self.articles@[current - 1],
                None => current == 0 || current - 1 >= self.articles@.len(),
            },
            match r.1 {
                Some(a) => current + 1 < self.articles@.len() && *a == self.articles@[current + 1],
                None => current + 1 >= self.articles@.len(),
            },
    {
        let next = if current < usize::MAX && current + 1 < self.articles.len() {
            Some(&self.articles[current + 1])
        } else {
            None
        };
        if current == 0 {
            return (None, next);
        }
        let prev = if current - 1 < self.articles.len() {
            Some(&self.articles[current - 1])
        } else {
            None
        };
        (prev, next)
    }

    /// Sorts the articles by publish date, keeping the order of equal dates.
    pub fn sort_articles(&mut self)
        ensures
            final(self).articles@ == sort_by_key(old(self).articles@),
            final(self).slug == old(self).slug,
            final(self).number == old(self).number,
            final(self).title == old(self).title,
            final(self).intro == old(self).intro,
            final(self).cover == old(self).cover,
            final(self).path == old(self).path,
    {
        let mut articles: Vec<Article> = Vec::new();
        std::mem::swap(&mut articles, &mut self.articles);
        self.articles = sort_vec_by_key(articles);
    }

    /// The meta of the season's page: its title, description, slug and cover.
    pub fn page_meta(&self) -> (r: Meta)
        ensures
            r.title == self.title,
            r.description@ == match self.intro {
                Some(i) => spec_strip_markdown(take_chars(i@, 200)),
                None => Seq::empty(),
            },
            r.url is Some && r.url->0 == self.slug,
            r.image == self.cover,
    {
        Meta {
            title: self.title.clone(),
            description: self.description(),
            url: Some(self.slug.clone()),
            image: clone_opt(&self.cover),
        }
    }
}

} // verus!
