//! A small text-to-text map for `key: value` options, where a later entry
//! for a key replaces an earlier one.
use vstd::prelude::*;
use vstd::std_specs::cmp::PartialEqSpecImpl;
use crate::text::{
    lemma_split_nonempty, replace_char, replace_char_vec, split, split_vec, str_eq, string_of, trim,
    trim_vec, vviews,
};

verus! {

/// The map denoted by a list of key/value entries, a later entry winning.
pub open spec fn entries_map(es: Seq<(Seq<char>, Seq<char>)>) -> Map<Seq<char>, Seq<char>>
    decreases es.len(),
{
    if es.len() == 0 {
        Map::empty()
    } else {
        entries_map(es.drop_last()).insert(es.last().0, es.last().1)
    }
}

/// The `key: value` pair written in `p`: the text before the first `:` and
/// the text up to the next `:`, both trimmed; a `-` in the key becomes `_` when
/// `dash` is set. No pair when `p` holds no `:`.
pub open spec fn option_pair(p: Seq<char>, dash: bool) -> Option<(Seq<char>, Seq<char>)> {
    let kv = split(p, ':');
    if kv.len() >= 2 {
        let key = trim(kv[0]);
        Some((if dash { replace_char(key, '-', '_') } else { key }, trim(kv[1])))
    } else {
        None
    }
}

/// The map of the pairs written in the pieces `ps`, a later pair winning.
pub open spec fn pairs_map(ps: Seq<Seq<char>>, dash: bool) -> Map<Seq<char>, Seq<char>>
    decreases ps.len(),
{
    if ps.len() == 0 {
        Map::empty()
    } else {
        let m = pairs_map(ps.drop_last(), dash);
        match option_pair(ps.last(), dash) {
            Some(kv) => m.insert(kv.0, kv.1),
            None => m,
        }
    }
}

/// The pairs written in the pieces `ps`, in order.
pub open spec fn option_pairs(ps: Seq<Seq<char>>, dash: bool) -> Seq<(Seq<char>, Seq<char>)>
    decreases ps.len(),
{
    if ps.len() == 0 {
        Seq::empty()
    } else {
        let p = option_pairs(ps.drop_last(), dash);
        match option_pair(ps.last(), dash) {
            Some(kv) => p.push(kv),
            None => p,
        }
    }
}

/// The index of the entry for `k` in `es`, if any.
pub open spec fn key_index(es: Seq<(Seq<char>, Seq<char>)>, k: Seq<char>) -> Option<int>
    decreases es.len(),
{
    if es.len() == 0 {
        None
    } else if es.last().0 == k {
        Some(es.len() - 1)
    } else {
        key_index(es.drop_last(), k)
    }
}

/// The entries of `es` merged by key: each key once, at the place of its
/// first entry, with the value of its last entry.
pub open spec fn merged(es: Seq<(Seq<char>, Seq<char>)>) -> Seq<(Seq<char>, Seq<char>)>
    decreases es.len(),
{
    if es.len() == 0 {
        Seq::empty()
    } else {
        let m = merged(es.drop_last());
        match key_index(m, es.last().0) {
            Some(p) => m.update(p, es.last()),
            None => m.push(es.last()),
        }
    }
}

/// Whether no key occurs twice in `es`.
pub open spec fn keys_distinct(es: Seq<(Seq<char>, Seq<char>)>) -> bool {
    forall|i: int, j: int| 0 <= i < j < es.len() ==> es[i].0 != es[j].0
}

proof fn lemma_key_index(es: Seq<(Seq<char>, Seq<char>)>, k: Seq<char>)
    ensures
        key_index(es, k) matches Some(p) ==> 0 <= p < es.len() && es[p].0 == k,
        key_index(es, k) is None ==> forall|i: int| 0 <= i < es.len() ==> es[i].0 != k,
    decreases es.len(),
{
    if es.len() > 0 {
        lemma_key_index(es.drop_last(), k);
        assert forall|i: int| 0 <= i < es.len() - 1 implies es[i] == es.drop_last()[i] by {}
    }
}

proof fn lemma_distinct_map(es: Seq<(Seq<char>, Seq<char>)>)
    requires
        keys_distinct(es),
    ensures
        forall|i: int| 0 <= i < es.len() ==> entries_map(es).contains_key(#[trigger] es[i].0) && entries_map(es)[es[i].0] == es[i].1,
        forall|k: Seq<char>| entries_map(es).contains_key(k) ==> exists|i: int| 0 <= i < es.len() && #[trigger] es[i].0 == k,
{
    assert forall|i: int| 0 <= i < es.len() implies entries_map(es).contains_key(#[trigger] es[i].0) && entries_map(es)[es[i].0] == es[i].1 by {
        lemma_map_last(es, es[i].0, i);
    }
    assert forall|k: Seq<char>| entries_map(es).contains_key(k) implies exists|i: int| 0 <= i < es.len() && #[trigger] es[i].0 == k by {
        if forall|i: int| 0 <= i < es.len() ==> es[i].0 != k {
            lemma_map_absent(es, k);
        }
    }
}

proof fn lemma_update_map(s: Seq<(Seq<char>, Seq<char>)>, p: int, k: Seq<char>, v: Seq<char>)
    requires
        keys_distinct(s),
        0 <= p < s.len(),
        s[p].0 == k,
    ensures
        keys_distinct(s.update(p, (k, v))),
        entries_map(s.update(p, (k, v))) == entries_map(s).insert(k, v),
{
    let u = s.update(p, (k, v));
    assert(keys_distinct(u)) by {
        assert forall|i: int, j: int| 0 <= i < j < u.len() implies u[i].0 != u[j].0 by {
            assert(u[i].0 == s[i].0 && u[j].0 == s[j].0);
        }
    }
    lemma_distinct_map(s);
    lemma_distinct_map(u);
    let a = entries_map(u);
    let b = entries_map(s).insert(k, v);
    assert forall|x: Seq<char>| #[trigger] a.contains_key(x) <==> b.contains_key(x) by {
        if a.contains_key(x) {
            let i = choose|i: int| 0 <= i < u.len() && #[trigger] u[i].0 == x;
            assert(s[i].0 == x);
        }
        if b.contains_key(x) && x != k {
            let i = choose|i: int| 0 <= i < s.len() && #[trigger] s[i].0 == x;
            assert(u[i].0 == x);
        }
        if x == k {
            assert(u[p].0 == k);
        }
    }
    assert forall|x: Seq<char>| a.contains_key(x) implies #[trigger] a[x] == b[x] by {
        let i = choose|i: int| 0 <= i < u.len() && #[trigger] u[i].0 == x;
        if i != p {
            assert(u[i] == s[i]);
        }
    }
    assert(a =~= b);
}

/// After an option is set, reading it gives the value set, and the other
/// options are unchanged.
pub proof fn lemma_insert_then_get(m: Map<Seq<char>, Seq<char>>, k: Seq<char>, v: Seq<char>, other: Seq<char>)
    requires
        other != k,
    ensures
        m.insert(k, v).contains_key(k),
        m.insert(k, v)[k] == v,
        m.insert(k, v).contains_key(other) == m.contains_key(other),
        m.contains_key(other) ==> m.insert(k, v)[other] == m[other],
{
}

/// Merging entries keeps the map they denote and leaves each key once.
pub proof fn lemma_merged(es: Seq<(Seq<char>, Seq<char>)>)
    ensures
        keys_distinct(merged(es)),
        entries_map(merged(es)) == entries_map(es),
    decreases es.len(),
{
    if es.len() > 0 {
        let m = merged(es.drop_last());
        let (k, v) = es.last();
        lemma_merged(es.drop_last());
        lemma_key_index(m, k);
        match key_index(m, k) {
            Some(p) => {
                lemma_update_map(m, p, k, v);
                assert(es.last() == (k, v));
            },
            None => {
                assert(keys_distinct(m.push((k, v)))) by {
                    assert forall|i: int, j: int| 0 <= i < j < m.push((k, v)).len() implies m.push((k, v))[i].0
                        != m.push((k, v))[j].0 by {
                        if j == m.len() {
                            assert(m[i].0 != k);
                        } else {
                            assert(m.push((k, v))[i] == m[i] && m.push((k, v))[j] == m[j]);
                        }
                    }
                }
                assert(m.push((k, v)).drop_last() =~= m);
            },
        }
    }
}

/// Options given as `key: value` text.
#[derive(Debug, Clone, Eq)]
pub struct OptionMap {
    entries: Vec<(String, String)>,
}

impl OptionMap {
    /// The entries as texts.
    pub closed spec fn pairs(&self) -> Seq<(Seq<char>, Seq<char>)> {
        self.entries@.map_values(|e: (String, String)| (e.0@, e.1@))
    }

    /// The number of entries held, a replaced key counted as often as it was set.
    pub closed spec fn entry_count(&self) -> nat {
        self.entries@.len()
    }
}

impl View for OptionMap {
    type V = Map<Seq<char>, Seq<char>>;

    closed spec fn view(&self) -> Map<Seq<char>, Seq<char>> {
        entries_map(self.pairs())
    }
}

proof fn lemma_map_last(es: Seq<(Seq<char>, Seq<char>)>, k: Seq<char>, i: int)
    requires
        0 <= i < es.len(),
        es[i].0 == k,
        forall|j: int| i < j < es.len() ==> es[j].0 != k,
    ensures
        entries_map(es).contains_key(k),
        entries_map(es)[k] == es[i].1,
    decreases es.len(),
{
    if i < es.len() - 1 {
        lemma_map_last(es.drop_last(), k, i);
    }
}

proof fn lemma_map_absent(es: Seq<(Seq<char>, Seq<char>)>, k: Seq<char>)
    requires
        forall|j: int| 0 <= j < es.len() ==> es[j].0 != k,
    ensures
        !entries_map(es).contains_key(k),
    decreases es.len(),
{
    if es.len() > 0 {
        lemma_map_absent(es.drop_last(), k);
    }
}

impl OptionMap {
    /// An empty map.
    pub fn new() -> (r: Self)
        ensures
            r@ == Map::<Seq<char>, Seq<char>>::empty(),
            r.entry_count() == 0,
            r.pairs() == Seq::<(Seq<char>, Seq<char>)>::empty(),
    {
        let r = OptionMap { entries: Vec::new() };
        assert(r.pairs() =~= Seq::<(Seq<char>, Seq<char>)>::empty());
        r
    }

    /// Sets `key` to `value`.
    pub fn insert(&mut self, key: String, value: String)
        ensures
            final(self)@ == old(self)@.insert(key@, value@),
            final(self).entry_count() == old(self).entry_count() + 1,
            final(self).pairs() == old(self).pairs().push((key@, value@)),
    {
        let ghost k = key@;
        let ghost v = value@;
        self.entries.push((key, value));
        assert(self.pairs().drop_last() =~= old(self).pairs());
        assert(self.pairs().last() == (k, v));
        assert(self.pairs() =~= old(self).pairs().push((k, v)));
    }

    /// The value set for `key`, if any.
    pub fn get(&self, key: &str) -> (r: Option<&String>)
        ensures
            match r {
                Some(v) => self@.contains_key(key@) && self@[key@] == v@,
                None => !self@.contains_key(key@),
            },
    {
        let mut i = self.entries.len();
        while i > 0
            invariant
                i <= self.entries.len(),
                forall|j: int| i <= j < self.entries.len() ==> self.pairs()[j].0 != key@,
            decreases i,
        {
            let e = &self.entries[i - 1];
            if str_eq(e.0.as_str(), key) {
                proof {
                    assert(self.pairs()[i - 1] == (e.0@, e.1@));
                    lemma_map_last(self.pairs(), key@, i - 1);
                }
                return Some(&e.1);
            }
            assert(self.pairs()[i - 1].0 == e.0@);
            i = i - 1;
        }
        proof {
            lemma_map_absent(self.pairs(), key@);
        }
        None
    }

    /// The options merged by key: each key once, at the place where it was
    /// first set, with the value it was last set to.
    pub fn merged_entries(&self) -> (r: Vec<(String, String)>)
        ensures
            r@.map_values(|e: (String, String)| (e.0@, e.1@)) == merged(self.pairs()),
    {
        let mut r: Vec<(String, String)> = Vec::new();
        let mut i: usize = 0;
        assert(self.pairs().take(0) =~= Seq::<(Seq<char>, Seq<char>)>::empty());
        while i < self.entries.len()
            invariant
                i <= self.entries.len(),
                r@.map_values(|e: (String, String)| (e.0@, e.1@)) == merged(self.pairs().take(i as int)),
            decreases self.entries.len() - i,
        {
            let e = &self.entries[i];
            let ghost es = self.pairs().take(i + 1);
            assert(es.drop_last() =~= self.pairs().take(i as int));
            assert(es.last() == (e.0@, e.1@));
            let ghost m = r@.map_values(|e: (String, String)| (e.0@, e.1@));
            let mut p = r.len();
            let mut found = false;
            assert(m.take(p as int) =~= m);
            while p > 0 && !found
                invariant
                    p <= r.len(),
                    m == r@.map_values(|e: (String, String)| (e.0@, e.1@)),
                    found ==> p > 0,
                    key_index(m, e.0@) == if found {
                        Some(p - 1)
                    } else {
                        key_index(m.take(p as int), e.0@)
                    },
                decreases p + if found { 0int } else { 1int },
            {
                assert(m.take(p as int).drop_last() =~= m.take(p - 1));
                assert(m.take(p as int).last() == m[p - 1]);
                assert(m[p - 1].0 == r@[p - 1].0@);
                if str_eq(r[p - 1].0.as_str(), e.0.as_str()) {
                    found = true;
                } else {
                    p = p - 1;
                }
            }
            if found {
                r.set(p - 1, (e.0.clone(), e.1.clone()));
                assert(r@.map_values(|e: (String, String)| (e.0@, e.1@)) =~= m.update(p - 1, es.last()));
            } else {
                assert(m.take(0) =~= Seq::<(Seq<char>, Seq<char>)>::empty());
                r.push((e.0.clone(), e.1.clone()));
                assert(r@.map_values(|e: (String, String)| (e.0@, e.1@)) =~= m.push(es.last()));
            }
            i = i + 1;
        }
        assert(self.pairs().take(i as int) =~= self.pairs());
        r
    }

    /// Whether no option is set.
    pub fn is_empty(&self) -> (r: bool)
        ensures
            r == (self@ == Map::<Seq<char>, Seq<char>>::empty()),
    {
        if self.entries.len() == 0 {
            assert(self.pairs() =~= Seq::<(Seq<char>, Seq<char>)>::empty());
            true
        } else {
            let ghost es = self.pairs();
            proof {
                lemma_map_last(es, es.last().0, es.len() - 1);
                assert(!Map::<Seq<char>, Seq<char>>::empty().contains_key(es.last().0));
            }
            false
        }
    }
}

/// Every key of an entry is in the map the entries denote.
proof fn lemma_entry_in_map(es: Seq<(Seq<char>, Seq<char>)>, i: int)
    requires
        0 <= i < es.len(),
    ensures
        entries_map(es).contains_key(es[i].0),
    decreases es.len(),
{
    if i < es.len() - 1 {
        lemma_entry_in_map(es.drop_last(), i);
    }
}

impl OptionMap {
    /// Whether every option of `self` is set to the same value in `other`.
    fn covered_by(&self, other: &OptionMap) -> (r: bool)
        ensures
            r == forall|k: Seq<char>| #[trigger] self@.contains_key(k) ==> other@.contains_key(k) && other@[k] == self@[k],
    {
        let mut i: usize = 0;
        while i < self.entries.len()
            invariant
                i <= self.entries.len(),
                forall|j: int|
                    0 <= j < i ==> other@.contains_key(#[trigger] self.pairs()[j].0) && other@[self.pairs()[j].0]
                        == self@[self.pairs()[j].0],
            decreases self.entries.len() - i,
        {
            let k = self.entries[i].0.as_str();
            proof {
                assert(self.pairs()[i as int].0 == k@);
                lemma_entry_in_map(self.pairs(), i as int);
            }
            let a = self.get(k);
            let b = other.get(k);
            match a {
                Some(x) => match b {
                    Some(y) => {
                        if !str_eq(x.as_str(), y.as_str()) {
                            return false;
                        }
                    },
                    None => {
                        return false;
                    },
                },
                None => {
                    return false;
                },
            }
            i = i + 1;
        }
        proof {
            assert forall|k: Seq<char>| #[trigger] self@.contains_key(k) implies other@.contains_key(k) && other@[k]
                == self@[k] by {
                if !exists|j: int| 0 <= j < self.pairs().len() && #[trigger] self.pairs()[j].0 == k {
                    lemma_map_absent(self.pairs(), k);
                } else {
                    let j = choose|j: int| 0 <= j < self.pairs().len() && #[trigger] self.pairs()[j].0 == k;
                    assert(other@.contains_key(self.pairs()[j].0));
                }
            }
        }
        true
    }
}

/// Two option maps are equal when they set the same options to the same
/// values, whatever the order or the replaced entries.
impl PartialEq for OptionMap {
    fn eq(&self, other: &Self) -> (r: bool) {
        let r = self.covered_by(other) && other.covered_by(self);
        proof {
            if r {
                assert(self@ =~= other@);
            }
        }
        r
    }
}

impl PartialEqSpecImpl for OptionMap {
    open spec fn obeys_eq_spec() -> bool {
        true
    }

    open spec fn eq_spec(&self, other: &Self) -> bool {
        self@ == other@
    }
}

/// The pair written in `p`, as `option_pair` states.
pub fn parse_option_pair(p: &Vec<char>, dash: bool) -> (r: Option<(String, String)>)
    ensures
        match r {
            Some(kv) => option_pair(p@, dash) == Some((kv.0@, kv.1@)),
            None => option_pair(p@, dash) is None,
        },
{
    let kv = split_vec(p, ':');
    proof {
        lemma_split_nonempty(p@, ':');
    }
    if kv.len() >= 2 {
        assert(kv@[0]@ == split(p@, ':')[0]);
        assert(kv@[1]@ == split(p@, ':')[1]);
        let key0 = trim_vec(&kv[0]);
        let key = if dash {
            replace_char_vec(&key0, '-', '_')
        } else {
            key0
        };
        let value = trim_vec(&kv[1]);
        Some((string_of(key.as_slice()), string_of(value.as_slice())))
    } else {
        None
    }
}

/// The map of the pairs written in `ps` from index `from` on.
pub fn parse_pairs(ps: &Vec<Vec<char>>, from: usize, dash: bool) -> (r: OptionMap)
    requires
        from <= ps.len(),
    ensures
        r@ == pairs_map(vviews(ps@).skip(from as int), dash),
        r.pairs() == option_pairs(vviews(ps@).skip(from as int), dash),
{
    let mut m = OptionMap::new();
    let mut i = from;
    assert(vviews(ps@).skip(from as int).take(0) =~= Seq::<Seq<char>>::empty());
    while i < ps.len()
        invariant
            from <= i <= ps.len(),
            m@ == pairs_map(vviews(ps@).skip(from as int).take(i - from), dash),
            m.pairs() == option_pairs(vviews(ps@).skip(from as int).take(i - from), dash),
        decreases ps.len() - i,
    {
        let ghost t = vviews(ps@).skip(from as int).take(i + 1 - from);
        assert(t.drop_last() =~= vviews(ps@).skip(from as int).take(i - from));
        assert(t.last() == ps@[i as int]@);
        match parse_option_pair(&ps[i], dash) {
            Some(kv) => {
                m.insert(kv.0, kv.1);
            },
            None => {},
        }
        i = i + 1;
    }
    assert(vviews(ps@).skip(from as int).take(ps.len() - from) =~= vviews(ps@).skip(from as int));
    m
}

} // verus!
