//! Lists of authors and topics, with article counts.
use vstd::prelude::*;
use super::{Author, Topic};

verus! {

/// An entity with the number of articles it has.
pub struct EntityExt<'a, E> {
    pub entity: &'a E,
    /// How many articles this entity has.
    pub article_count: usize,
}

/// A list page of entities.
pub struct List<'a, E> {
    pub entities: Vec<EntityExt<'a, E>>,
    pub name: &'static str,
    pub template: &'static str,
    pub fluent_key: &'static str,
}

impl<'a> List<'a, Author> {
    /// The empty list of authors.
    pub fn author_list() -> (r: Self)
        ensures
            r.entities@.len() == 0,
            r.name@ == "authors"@,
            r.template@ == "author-list.jinja"@,
            r.fluent_key@ == "author-list"@,
    {
        List {
            entities: Vec::new(),
            name: "authors",
            template: "author-list.jinja",
            fluent_key: "author-list",
        }
    }

    /// Adds an author with its article count.
    pub fn push_author(&mut self, author: &'a Author, article_count: usize)
        ensures
            final(self).entities@.len() == old(self).entities@.len() + 1,
            forall|i: int| 0 <= i < old(self).entities@.len() ==> final(self).entities@[i] == old(self).entities@[i],
            final(self).entities@.last().entity == author,
            final(self).entities@.last().article_count == article_count,
            final(self).name == old(self).name,
            final(self).template == old(self).template,
            final(self).fluent_key == old(self).fluent_key,
    {
        self.entities.push(EntityExt { entity: author, article_count });
    }
}

impl<'a> List<'a, Topic> {
    /// The empty list of topics.
    pub fn topic_list() -> (r: Self)
        ensures
            r.entities@.len() == 0,
            r.name@ == "topics"@,
            r.template@ == "topic-list.jinja"@,
            r.fluent_key@ == "topic-list"@,
    {
        List {
            entities: Vec::new(),
            name: "topics",
            template: "topic-list.jinja",
            fluent_key: "topic-list",
        }
    }

    /// Adds a topic with its article count.
    pub fn push_topic(&mut self, topic: &'a Topic, article_count: usize)
        ensures
            final(self).entities@.len() == old(self).entities@.len() + 1,
            forall|i: int| 0 <= i < old(self).entities@.len() ==> final(self).entities@[i] == old(self).entities@[i],
            final(self).entities@.last().entity == topic,
            final(self).entities@.last().article_count == article_count,
            final(self).name == old(self).name,
            final(self).template == old(self).template,
            final(self).fluent_key == old(self).fluent_key,
    {
        self.entities.push(EntityExt { entity: topic, article_count });
    }
}

} // verus!
