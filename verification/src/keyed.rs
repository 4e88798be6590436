//! Lists keyed by text, kept in ascending key order as a map keyed by
//! `String` walks them.
use vstd::prelude::*;
use crate::text::chars_of;

verus! {

/// Whether the text `a` comes strictly before `b` in the order of `String`:
/// character by character, a proper prefix first.
pub open spec fn text_lt(a: Seq<char>, b: Seq<char>) -> bool
    decreases a.len(),
{
    if b.len() == 0 {
        false
    } else if a.len() == 0 {
        true
    } else if a[0] != b[0] {
        a[0] < b[0]
    } else {
        text_lt(a.drop_first(), b.drop_first())
    }
}

/// No text comes before itself.
pub proof fn lemma_text_lt_irreflexive(a: Seq<char>)
    ensures
        !text_lt(a, a),
    decreases a.len(),
{
    if a.len() > 0 {
        lemma_text_lt_irreflexive(a.drop_first());
    }
}

/// The order of texts is transitive.
pub proof fn lemma_text_lt_transitive(a: Seq<char>, b: Seq<char>, c: Seq<char>)
    requires
        text_lt(a, b),
        text_lt(b, c),
    ensures
        text_lt(a, c),
    decreases a.len(),
{
    if a.len() > 0 && a[0] == b[0] && b[0] == c[0] {
        lemma_text_lt_transitive(a.drop_first(), b.drop_first(), c.drop_first());
    }
}

/// Of two different texts, one comes before the other.
pub proof fn lemma_text_lt_total(a: Seq<char>, b: Seq<char>)
    requires
        a != b,
    ensures
        text_lt(a, b) || text_lt(b, a),
    decreases a.len(),
{
    if a.len() == 0 && b.len() == 0 {
        assert(a =~= b);
    } else if a.len() > 0 && b.len() > 0 && a[0] == b[0] {
        if a.drop_first() == b.drop_first() {
            assert(a =~= seq![a[0]] + a.drop_first());
            assert(b =~= seq![b[0]] + b.drop_first());
        } else {
            lemma_text_lt_total(a.drop_first(), b.drop_first());
        }
    }
}

/// Whether every key of `v` comes strictly before the keys after it.
pub open spec fn keys_ascending<T>(v: Seq<(String, T)>) -> bool {
    forall|i: int, j: int| 0 <= i < j < v.len() ==> text_lt(#[trigger] v[i].0@, #[trigger] v[j].0@)
}

/// With ascending keys, no key occurs twice.
pub proof fn lemma_ascending_keys_distinct<T>(v: Seq<(String, T)>, i: int, j: int)
    requires
        keys_ascending(v),
        0 <= i < v.len(),
        0 <= j < v.len(),
        i != j,
    ensures
        v[i].0@ != v[j].0@,
{
    if i < j {
        assert(text_lt(v[i].0@, v[j].0@));
    } else {
        assert(text_lt(v[j].0@, v[i].0@));
    }
    lemma_text_lt_irreflexive(v[i].0@);
}

/// Two lists with the same keys at the same places have their keys in
/// order alike.
pub proof fn lemma_same_keys<T>(a: Seq<(String, T)>, b: Seq<(String, T)>)
    requires
        a.len() == b.len(),
        forall|i: int| 0 <= i < a.len() ==> (#[trigger] a[i]).0 == b[i].0,
    ensures
        keys_ascending(a) == keys_ascending(b),
{
    if keys_ascending(a) {
        assert forall|i: int, j: int| 0 <= i < j < b.len() implies text_lt(#[trigger] b[i].0@, #[trigger] b[j].0@) by {
            assert(a[i].0 == b[i].0 && a[j].0 == b[j].0);
            assert(text_lt(a[i].0@, a[j].0@));
        }
    }
    if keys_ascending(b) {
        assert forall|i: int, j: int| 0 <= i < j < a.len() implies text_lt(#[trigger] a[i].0@, #[trigger] a[j].0@) by {
            assert(a[i].0 == b[i].0 && a[j].0 == b[j].0);
            assert(text_lt(b[i].0@, b[j].0@));
        }
    }
}

/// Whether the text `a` comes strictly before `b`.
pub fn text_less(a: &str, b: &str) -> (r: bool)
    ensures
        r == text_lt(a@, b@),
{
    let va = chars_of(a);
    let vb = chars_of(b);
    let mut i: usize = 0;
    assert(va@.skip(0) =~= va@);
    assert(vb@.skip(0) =~= vb@);
    while i < va.len() && i < vb.len()
        invariant
            i <= va.len(),
            i <= vb.len(),
            va@ == a@,
            vb@ == b@,
            text_lt(a@, b@) == text_lt(va@.skip(i as int), vb@.skip(i as int)),
        decreases va.len() - i,
    {
        assert(va@.skip(i as int)[0] == va@[i as int]);
        assert(vb@.skip(i as int)[0] == vb@[i as int]);
        if va[i] != vb[i] {
            return va[i] < vb[i];
        }
        assert(va@.skip(i as int).drop_first() =~= va@.skip(i + 1));
        assert(vb@.skip(i as int).drop_first() =~= vb@.skip(i + 1));
        i = i + 1;
    }
    i < vb.len()
}

/// Whether the keys of `v` are in ascending order, each once.
pub fn keys_in_order<T>(v: &Vec<(String, T)>) -> (r: bool)
    ensures
        r == keys_ascending(v@),
{
    let mut i: usize = 1;
    while i < v.len()
        invariant
            1 <= i,
            forall|k: int, j: int| 0 <= k < j < i && j < v@.len() ==> text_lt(#[trigger] v@[k].0@, #[trigger] v@[j].0@),
        decreases v.len() - i,
    {
        if !text_less(v[i - 1].0.as_str(), v[i].0.as_str()) {
            assert(!text_lt(v@[i - 1].0@, v@[i as int].0@));
            return false;
        }
        assert forall|k: int, j: int| 0 <= k < j < i + 1 && j < v@.len() implies text_lt(#[trigger] v@[k].0@, #[trigger] v@[j].0@) by {
            if j == i && k < i - 1 {
                lemma_text_lt_transitive(v@[k].0@, v@[i - 1].0@, v@[j].0@);
            }
        }
        i = i + 1;
    }
    true
}

} // verus!
