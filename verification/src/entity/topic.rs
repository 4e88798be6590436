//! Article topics.
use vstd::prelude::*;
use crate::helpers::{capitalize, spec_capitalize, spec_to_lowercase, to_lowercase};
use crate::meta::Meta;
use crate::text::string_from;

verus! {

/// A topic, declared in the `[topics]` table of the root config.
#[derive(Debug, Clone, PartialEq, Eq)]
pub struct Topic {
    pub id: String,
    pub name: Option<String>,
    pub description: Option<String>,
}

impl Topic {
    /// The directory of the topic's page: the lower case id.
    pub fn dir(&self) -> (r: String)
        ensures
            r@ == spec_to_lowercase(self.id@),
    {
        to_lowercase(self.id.as_str())
    }

    /// The meta of the topic's page: the name (else the id), the description,
    /// the url `/topic/` and the lower case id.
    pub fn page_meta(&self) -> (r: Meta)
        ensures
            r.title@ == match self.name {
                Some(n) => n@,
                None => self.id@,
            },
            r.description@ == match self.description {
                Some(d) => d@,
                None => Seq::empty(),
            },
            r.url is Some && r.url->0@ == "/topic/"@ + spec_to_lowercase(self.id@),
            r.image is None,
    {
        let mut url = string_from("/topic/");
        let lower = to_lowercase(self.id.as_str());
        url.append(lower.as_str());
        Meta {
            title: match &self.name {
                Some(n) => n.clone(),
                None => self.id.clone(),
            },
            description: match &self.description {
                Some(d) => d.clone(),
                None => String::new(),
            },
            url: Some(url),
            image: None,
        }
    }

    /// Falls back to the capitalized id when the topic has no name.
    pub fn parse(&mut self)
        ensures
            final(self).id == old(self).id,
            final(self).description == old(self).description,
            old(self).name is Some ==> final(self).name == old(self).name,
            old(self).name is None ==> final(self).name is Some && final(self).name->0@
                == spec_capitalize(old(self).id@),
    {
        if self.name.is_none() {
            self.name = Some(capitalize(self.id.as_str()));
        }
    }
}

} // verus!
