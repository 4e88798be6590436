//! Stable sorting by an integer key.
use vstd::prelude::*;

verus! {

/// A value that is ordered by an integer key.
pub trait SpecKey {
    /// The key of this value.
    spec fn key_of(&self) -> int;
}

/// A value whose integer key can be computed.
pub trait SortKey: SpecKey {
    /// The key of this value.
    fn sort_key(&self) -> (r: i64)
        ensures
            r as int == self.key_of(),
    ;
}

/// `x` inserted into `s` before the first element whose key is not less than its own.
pub open spec fn insert_by_key<A: SpecKey>(s: Seq<A>, x: A) -> Seq<A>
    decreases s.len(),
{
    if s.len() == 0 {
        seq![x]
    } else if x.key_of() <= s[0].key_of() {
        seq![x] + s
    } else {
        seq![s[0]] + insert_by_key(s.drop_first(), x)
    }
}

/// `s` sorted by ascending key, equal keys kept in their order (insertion sort).
pub open spec fn sort_by_key<A: SpecKey>(s: Seq<A>) -> Seq<A>
    decreases s.len(),
{
    if s.len() == 0 {
        s
    } else {
        insert_by_key(sort_by_key(s.drop_first()), s[0])
    }
}

/// Whether the keys of `s` do not decrease.
pub open spec fn sorted_by_key<A: SpecKey>(s: Seq<A>) -> bool {
    forall|i: int, j: int| 0 <= i < j < s.len() ==> s[i].key_of() <= s[j].key_of()
}

proof fn lemma_insert_at<A: SpecKey>(s: Seq<A>, x: A, p: int)
    requires
        0 <= p <= s.len(),
        forall|i: int| 0 <= i < p ==> s[i].key_of() < x.key_of(),
        p == s.len() || x.key_of() <= s[p].key_of(),
    ensures
        insert_by_key(s, x) == s.take(p) + seq![x] + s.skip(p),
    decreases s.len(),
{
    if s.len() == 0 {
        assert(s.take(p) + seq![x] + s.skip(p) =~= seq![x]);
    } else if p == 0 {
        assert(s.take(p) + seq![x] + s.skip(p) =~= seq![x] + s);
    } else {
        lemma_insert_at(s.drop_first(), x, p - 1);
        assert(seq![s[0]] + (s.drop_first().take(p - 1) + seq![x] + s.drop_first().skip(p - 1))
            =~= s.take(p) + seq![x] + s.skip(p));
    }
}

/// The elements of `sort_by_key(s)` are those of `s`.
pub proof fn lemma_sort_permutes<A: SpecKey>(s: Seq<A>)
    ensures
        sort_by_key(s).to_multiset() == s.to_multiset(),
    decreases s.len(),
{
    broadcast use vstd::seq_lib::group_to_multiset_ensures;

    if s.len() > 0 {
        lemma_sort_permutes(s.drop_first());
        lemma_insert_permutes(sort_by_key(s.drop_first()), s[0]);
        assert(s =~= seq![s[0]] + s.drop_first());
        vstd::seq_lib::lemma_multiset_commutative(seq![s[0]], s.drop_first());
    }
}

proof fn lemma_insert_permutes<A: SpecKey>(s: Seq<A>, x: A)
    ensures
        insert_by_key(s, x).to_multiset() == s.to_multiset().insert(x),
    decreases s.len(),
{
    broadcast use vstd::seq_lib::group_to_multiset_ensures;

    if s.len() == 0 {
        assert(seq![x] =~= Seq::<A>::empty().push(x));
    } else if x.key_of() <= s[0].key_of() {
        vstd::seq_lib::lemma_multiset_commutative(seq![x], s);
        assert(seq![x] =~= Seq::<A>::empty().push(x));
    } else {
        lemma_insert_permutes(s.drop_first(), x);
        vstd::seq_lib::lemma_multiset_commutative(seq![s[0]], insert_by_key(s.drop_first(), x));
        vstd::seq_lib::lemma_multiset_commutative(seq![s[0]], s.drop_first());
        assert(s =~= seq![s[0]] + s.drop_first());
        assert(seq![s[0]] =~= Seq::<A>::empty().push(s[0]));
    }
}

proof fn lemma_insert_sorted<A: SpecKey>(s: Seq<A>, x: A)
    requires
        sorted_by_key(s),
    ensures
        sorted_by_key(insert_by_key(s, x)),
        insert_by_key(s, x).len() == s.len() + 1,
        forall|i: int| 0 <= i < insert_by_key(s, x).len() ==> (insert_by_key(s, x)[i] == x
            || s.contains(insert_by_key(s, x)[i])),
    decreases s.len(),
{
    if s.len() > 0 && x.key_of() > s[0].key_of() {
        let t = s.drop_first();
        lemma_insert_sorted(t, x);
        let r = insert_by_key(t, x);
        assert forall|i: int| 0 <= i < r.len() implies s[0].key_of() <= #[trigger] r[i].key_of() by {
            if r[i] != x {
                let k = choose|k: int| 0 <= k < t.len() && t[k] == r[i];
                assert(s[k + 1] == t[k]);
            }
        }
        let full = seq![s[0]] + r;
        assert forall|i: int| 0 <= i < full.len() implies (full[i] == x || s.contains(full[i])) by {
            if i == 0 {
                assert(s[0] == full[0]);
            } else if full[i] != x {
                assert(full[i] == r[i - 1]);
                let k = choose|k: int| 0 <= k < t.len() && t[k] == r[i - 1];
                assert(s[k + 1] == t[k]);
            }
        }
    } else if s.len() > 0 {
        let full = seq![x] + s;
        assert forall|i: int| 0 <= i < full.len() implies (full[i] == x || s.contains(full[i])) by {
            if i > 0 {
                assert(full[i] == s[i - 1]);
            }
        }
    }
}

/// `sort_by_key(s)` is sorted by key.
pub proof fn lemma_sort_sorted<A: SpecKey>(s: Seq<A>)
    ensures
        sorted_by_key(sort_by_key(s)),
        sort_by_key(s).len() == s.len(),
    decreases s.len(),
{
    if s.len() > 0 {
        lemma_sort_sorted(s.drop_first());
        lemma_insert_sorted(sort_by_key(s.drop_first()), s[0]);
    }
}

proof fn lemma_insert_map<A: SpecKey, B: SpecKey>(s: Seq<A>, x: A, f: spec_fn(A) -> B)
    requires
        forall|a: A| #[trigger] f(a).key_of() == a.key_of(),
    ensures
        insert_by_key(s, x).map_values(f) == insert_by_key(s.map_values(f), f(x)),
    decreases s.len(),
{
    if s.len() == 0 {
        assert(insert_by_key(s, x).map_values(f) =~= seq![f(x)]);
    } else {
        assert(f(s[0]).key_of() == s[0].key_of());
        assert(f(x).key_of() == x.key_of());
        assert(s.map_values(f)[0] == f(s[0]));
        if x.key_of() <= s[0].key_of() {
            assert((seq![x] + s).map_values(f) =~= seq![f(x)] + s.map_values(f));
        } else {
            lemma_insert_map(s.drop_first(), x, f);
            assert(s.map_values(f).drop_first() =~= s.drop_first().map_values(f));
            assert((seq![s[0]] + insert_by_key(s.drop_first(), x)).map_values(f) =~= seq![f(s[0])]
                + insert_by_key(s.drop_first(), x).map_values(f));
        }
    }
}

/// Sorting commutes with a map that keeps keys.
pub proof fn lemma_sort_map<A: SpecKey, B: SpecKey>(s: Seq<A>, f: spec_fn(A) -> B)
    requires
        forall|a: A| #[trigger] f(a).key_of() == a.key_of(),
    ensures
        sort_by_key(s).map_values(f) == sort_by_key(s.map_values(f)),
    decreases s.len(),
{
    if s.len() > 0 {
        lemma_sort_map(s.drop_first(), f);
        lemma_insert_map(sort_by_key(s.drop_first()), s[0], f);
        assert(s.map_values(f).drop_first() =~= s.drop_first().map_values(f));
        assert(s.map_values(f)[0] == f(s[0]));
    }
}

/// Sorts `v` by ascending key, keeping the order of equal keys.
pub fn sort_vec_by_key<A: SortKey>(v: Vec<A>) -> (r: Vec<A>)
    ensures
        r@ == sort_by_key(v@),
{
    let ghost s = v@;
    let mut input = v;
    let mut out: Vec<A> = Vec::new();
    assert(s.skip(s.len() as int) =~= Seq::<A>::empty());
    assert(s.take(s.len() as int) =~= s);
    while input.len() > 0
        invariant
            input.len() <= s.len(),
            input@ == s.take(input.len() as int),
            out@ == sort_by_key(s.skip(input.len() as int)),
        decreases input.len(),
    {
        let ghost k = input.len() as int;
        let x = input.pop().unwrap();
        assert(x == s[k - 1]);
        assert(input@ =~= s.take(k - 1));
        assert(s.skip(k - 1).drop_first() =~= s.skip(k));
        assert(s.skip(k - 1)[0] == x);
        let kx = x.sort_key();
        let mut p: usize = 0;
        while p < out.len() && out[p].sort_key() < kx
            invariant
                p <= out.len(),
                kx as int == x.key_of(),
                forall|i: int| 0 <= i < p ==> out@[i].key_of() < x.key_of(),
            decreases out.len() - p,
        {
            p = p + 1;
        }
        proof {
            lemma_insert_at(out@, x, p as int);
        }
        out.insert(p, x);
        assert(out@ =~= sort_by_key(s.skip(k - 1)));
    }
    assert(s.skip(0) =~= s);
    out
}

} // verus!
