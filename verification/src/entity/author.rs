//! Authors of the magazine.
use vstd::prelude::*;
use crate::helpers::{spec_to_lowercase, to_lowercase};
use crate::meta::{extract_description, spec_extract_description, Meta};
use crate::text::{clone_opt, eq_ignore_ascii_case, eq_ignore_ascii_case_str, string_from};

verus! {

/// The author id of an article: one author, or co-authors.
#[derive(Debug, Clone, PartialEq, Eq)]
pub enum AuthorId {
    /// Single author.
    One(String),
    /// Co-authors.
    List(Vec<String>),
}

/// The author of an article, declared in the `[authors]` table of the root config.
#[derive(Debug, Clone, PartialEq, Eq)]
pub struct Author {
    /// The author id, the key in the `[authors]` table.
    pub id: String,
    /// The author's name; falls back to the capitalized id.
    pub name: Option<String>,
    /// The avatar url; falls back to the default avatar.
    pub avatar: Option<String>,
    /// The bio of the author (markdown).
    pub bio: Option<String>,
    /// Whether the author is an editor.
    pub editor: bool,
    /// Whether the author is a team account.
    pub team: bool,
}

/// The texts of an author id.
pub enum AuthorIdView {
    One(Seq<char>),
    List(Seq<Seq<char>>),
}

impl View for AuthorId {
    type V = AuthorIdView;

    open spec fn view(&self) -> AuthorIdView {
        match self {
            AuthorId::One(a) => AuthorIdView::One(a@),
            AuthorId::List(v) => AuthorIdView::List(v@.map_values(|x: String| x@)),
        }
    }
}

/// Whether `author_id` names `id`, ignoring ASCII case.
pub open spec fn author_id_matches(author: AuthorId, id: Seq<char>) -> bool {
    match author {
        AuthorId::One(a) => eq_ignore_ascii_case(a@, id),
        AuthorId::List(v) => exists|i: int| 0 <= i < v.len() && #[trigger] eq_ignore_ascii_case(v@[i]@, id),
    }
}

/// The texts of `s` in order, each kept only at its first occurrence.
pub open spec fn dedup(s: Seq<Seq<char>>) -> Seq<Seq<char>>
    decreases s.len(),
{
    if s.len() == 0 {
        Seq::empty()
    } else {
        let d = dedup(s.drop_last());
        if d.contains(s.last()) {
            d
        } else {
            d.push(s.last())
        }
    }
}

/// The views of a list of texts.
pub open spec fn names_view(v: Seq<String>) -> Seq<Seq<char>> {
    v.map_values(|x: String| x@)
}

fn any_author_matches(authors: &Vec<String>, id: &str) -> (r: bool)
    ensures
        r == exists|i: int| 0 <= i < authors.len() && #[trigger] eq_ignore_ascii_case(authors@[i]@, id@),
{
    let mut i: usize = 0;
    while i < authors.len()
        invariant
            i <= authors.len(),
            forall|k: int| 0 <= k < i ==> !#[trigger] eq_ignore_ascii_case(authors@[k]@, id@),
        decreases authors.len() - i,
    {
        if eq_ignore_ascii_case_str(authors[i].as_str(), id) {
            assert(eq_ignore_ascii_case(authors@[i as int]@, id@));
            return true;
        }
        i = i + 1;
    }
    false
}

/// The page slug of an author: `@` and the lower case id.
pub open spec fn author_slug(id: Seq<char>) -> Seq<char> {
    "@"@ + spec_to_lowercase(id)
}

impl Author {
    /// The directory and url of the author's page.
    pub fn slug(&self) -> (r: String)
        ensures
            r@ == author_slug(self.id@),
    {
        let mut s = string_from("@");
        let lower = to_lowercase(self.id.as_str());
        s.append(lower.as_str());
        s
    }

    /// The meta of the author's page: the name (else the id), the description
    /// of the bio, the page slug.
    pub fn page_meta(&self) -> (r: Meta)
        ensures
            r.title@ == match self.name {
                Some(n) => n@,
                None => self.id@,
            },
            r.description@ == match self.bio {
                Some(b) => spec_extract_description(b@),
                None => Seq::empty(),
            },
            r.url is Some && r.url->0@ == author_slug(self.id@),
            r.image is None,
    {
        Meta {
            title: match &self.name {
                Some(n) => n.clone(),
                None => self.id.clone(),
            },
            description: match &self.bio {
                Some(b) => extract_description(b.as_str()),
                None => String::new(),
            },
            url: Some(self.slug()),
            image: None,
        }
    }

    /// A copy of this author.
    pub fn duplicate(&self) -> (r: Author)
        ensures
            r == *self,
    {
        Author {
            id: self.id.clone(),
            name: clone_opt(&self.name),
            avatar: clone_opt(&self.avatar),
            bio: clone_opt(&self.bio),
            editor: self.editor,
            team: self.team,
        }
    }
}

impl AuthorId {
    /// Whether `id` is (one of) the author(s), ignoring ASCII case.
    pub fn is_author(&self, id: &str) -> (r: bool)
        ensures
            r == author_id_matches(*self, id@),
    {
        match self {
            AuthorId::One(author_id) => eq_ignore_ascii_case_str(author_id.as_str(), id),
            AuthorId::List(authors) => any_author_matches(authors, id),
        }
    }

    /// The co-authors of a list of names, a repeated name kept once at its
    /// first place.
    pub fn from_names(names: Vec<String>) -> (r: Self)
        ensures
            r matches AuthorId::List(v) && names_view(v@) == dedup(names_view(names@)),
    {
        let mut authors: Vec<String> = Vec::new();
        let mut i: usize = 0;
        assert(names_view(names@).take(0) =~= Seq::<Seq<char>>::empty());
        while i < names.len()
            invariant
                i <= names.len(),
                names_view(authors@) == dedup(names_view(names@).take(i as int)),
            decreases names.len() - i,
        {
            let name = &names[i];
            let ghost t = names_view(names@).take(i + 1);
            assert(t.drop_last() =~= names_view(names@).take(i as int));
            assert(t.last() == name@);
            let mut found = false;
            let mut j: usize = 0;
            while j < authors.len()
                invariant
                    j <= authors.len(),
                    found == exists|k: int| 0 <= k < j && authors@[k]@ == name@,
                decreases authors.len() - j,
            {
                if authors[j] == *name {
                    found = true;
                }
                j = j + 1;
            }
            proof {
                let d = names_view(authors@);
                if found {
                    let k = choose|k: int| 0 <= k < authors.len() && authors@[k]@ == name@;
                    assert(d[k] == name@);
                } else {
                    assert forall|k: int| 0 <= k < d.len() implies d[k] != name@ by {
                        assert(d[k] == authors@[k]@);
                    }
                }
            }
            if !found {
                let ghost before = names_view(authors@);
                authors.push(name.clone());
                assert(names_view(authors@) =~= before.push(name@));
            }
            i = i + 1;
        }
        assert(names_view(names@).take(names.len() as int) =~= names_view(names@));
        AuthorId::List(authors)
    }
}

/// The texts of `dedup(s)` are those of `s`, each once.
pub proof fn lemma_dedup(s: Seq<Seq<char>>)
    ensures
        forall|x: Seq<char>| dedup(s).contains(x) <==> s.contains(x),
        forall|i: int, j: int| 0 <= i < j < dedup(s).len() ==> dedup(s)[i] != dedup(s)[j],
    decreases s.len(),
{
    if s.len() > 0 {
        let p = s.drop_last();
        lemma_dedup(p);
        let d = dedup(p);
        assert forall|x: Seq<char>| dedup(s).contains(x) implies s.contains(x) by {
            if d.contains(x) {
                assert(p.contains(x));
                let k = choose|k: int| 0 <= k < p.len() && p[k] == x;
                assert(s[k] == x);
            } else {
                let k = choose|k: int| 0 <= k < dedup(s).len() && dedup(s)[k] == x;
                assert(dedup(s) == d.push(s.last()));
                if k < d.len() {
                    assert(d[k] == x);
                }
                assert(x == s.last());
                assert(s[s.len() - 1] == x);
            }
        }
        assert forall|x: Seq<char>| s.contains(x) implies dedup(s).contains(x) by {
            let k = choose|k: int| 0 <= k < s.len() && s[k] == x;
            if k < s.len() - 1 {
                assert(p[k] == x);
                assert(p.contains(x));
                assert(d.contains(x));
                let m = choose|m: int| 0 <= m < d.len() && d[m] == x;
                if !d.contains(s.last()) {
                    assert(d.push(s.last())[m] == x);
                }
            } else if d.contains(s.last()) {
            } else {
                assert(d.push(s.last())[d.len() as int] == x);
            }
        }
    }
}

} // verus!
