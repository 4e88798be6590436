//! Values handed to the templates: how they print and whether they count as
//! true.
use vstd::prelude::*;
use crate::keyed::{keys_ascending, lemma_ascending_keys_distinct, lemma_text_lt_irreflexive, lemma_text_lt_total, lemma_text_lt_transitive, text_less, text_lt};
use crate::text::{decimal, decimal_of, str_eq, string_from, string_of};

verus! {

/// A number of a template value.
pub enum JsonNumber {
    /// A number that fits an `i64`.
    Int(i64),
    /// A number above `i64::MAX`.
    UInt(u64),
    /// A floating-point number, held by its printed text and whether it is
    /// neither zero nor NaN.
    Float { text: String, nonzero: bool },
}

/// A template value: the shape of a JSON value.
pub enum JsonValue {
    Null,
    Bool(bool),
    Number(JsonNumber),
    String(String),
    Array(Vec<JsonValue>),
    Object(Vec<(String, JsonValue)>),
}

/// The printed text of a number.
pub open spec fn number_text(n: JsonNumber) -> Seq<char> {
    match n {
        JsonNumber::Int(i) => if i >= 0 {
            decimal(i as nat)
        } else {
            "-"@ + decimal((-i) as nat)
        },
        JsonNumber::UInt(u) => decimal(u as nat),
        JsonNumber::Float { text, .. } => text@,
    }
}

/// The printed text of a value: nothing for null, `[a, b]` for an array,
/// `[object]` for an object.
pub open spec fn value_text(v: JsonValue) -> Seq<char>
    decreases v, 0int,
{
    match v {
        JsonValue::Null => Seq::empty(),
        JsonValue::Bool(b) => if b {
            "true"@
        } else {
            "false"@
        },
        JsonValue::Number(n) => number_text(n),
        JsonValue::String(s) => s@,
        JsonValue::Array(a) => "["@ + items_text(a@, a@.len()) + "]"@,
        JsonValue::Object(_) => "[object]"@,
    }
}

/// The printed texts of the first `n` items of `s`, separated by `, `.
pub open spec fn items_text(s: Seq<JsonValue>, n: nat) -> Seq<char>
    decreases s, n,
{
    if n == 0 || n > s.len() {
        Seq::empty()
    } else if n == 1 {
        value_text(s[0])
    } else {
        items_text(s, (n - 1) as nat) + ", "@ + value_text(s[n - 1])
    }
}

/// Whether a value counts as true: a number other than zero (and NaN), a
/// true boolean, a non-empty string, array or object.
pub open spec fn truthy(v: JsonValue) -> bool {
    match v {
        JsonValue::Number(JsonNumber::Int(i)) => i != 0,
        JsonValue::Number(JsonNumber::UInt(u)) => u != 0,
        JsonValue::Number(JsonNumber::Float { nonzero, .. }) => nonzero,
        JsonValue::Bool(b) => b,
        JsonValue::Null => false,
        JsonValue::String(s) => s@.len() > 0,
        JsonValue::Array(a) => a@.len() > 0,
        JsonValue::Object(o) => o@.len() > 0,
    }
}

/// A value that prints itself for a template.
pub trait ValueRender {
    /// The printed text of this value.
    fn render(&self) -> String;
}

/// A value that counts as true or false in a template.
pub trait ValueTruthy {
    /// Whether this value counts as true.
    fn is_truthy(&self) -> bool;
}

fn number_string(n: &JsonNumber) -> (r: String)
    ensures
        r@ == number_text(*n),
{
    match n {
        JsonNumber::Int(i) => {
            if *i >= 0 {
                let d = decimal_of(*i as u64);
                string_of(d.as_slice())
            } else {
                let m: u64 = if *i == i64::MIN {
                    0x8000_0000_0000_0000u64
                } else {
                    (-*i) as u64
                };
                let d = decimal_of(m);
                let mut s = string_from("-");
                let t = string_of(d.as_slice());
                s.append(t.as_str());
                s
            }
        },
        JsonNumber::UInt(u) => {
            let d = decimal_of(*u);
            string_of(d.as_slice())
        },
        JsonNumber::Float { text, .. } => text.clone(),
    }
}

/// The printed text of a value.
fn value_string(v: &JsonValue) -> (r: String)
    ensures
        r@ == value_text(*v),
    decreases v,
{
    match v {
        JsonValue::Null => String::new(),
        JsonValue::Bool(b) => if *b {
            string_from("true")
        } else {
            string_from("false")
        },
        JsonValue::Number(n) => number_string(n),
        JsonValue::String(s) => s.clone(),
        JsonValue::Array(a) => {
            let mut out = string_from("[");
            let mut i: usize = 0;
            while i < a.len()
                invariant
                    i <= a.len(),
                    *v == JsonValue::Array(*a),
                    out@ == "["@ + items_text(a@, i as nat),
                decreases a.len() - i,
            {
                if i > 0 {
                    out.append(", ");
                }
                proof {
                    assert(decreases_to!(*v => (*v)->Array_0));
                    assert(decreases_to!(*a => a@));
                    assert(decreases_to!(a@ => a@[i as int]));
                }
                let item = value_string(&a[i]);
                out.append(item.as_str());
                i = i + 1;
            }
            out.append("]");
            out
        },
        JsonValue::Object(_) => string_from("[object]"),
    }
}

impl ValueRender for JsonValue {
    fn render(&self) -> (r: String)
        ensures
            r@ == value_text(*self),
    {
        value_string(self)
    }
}

impl ValueTruthy for JsonValue {
    fn is_truthy(&self) -> (r: bool)
        ensures
            r == truthy(*self),
    {
        match self {
            JsonValue::Number(JsonNumber::Int(i)) => *i != 0,
            JsonValue::Number(JsonNumber::UInt(u)) => *u != 0,
            JsonValue::Number(JsonNumber::Float { nonzero, .. }) => *nonzero,
            JsonValue::Bool(b) => *b,
            JsonValue::Null => false,
            JsonValue::String(s) => !s.as_str().is_empty(),
            JsonValue::Array(a) => a.len() > 0,
            JsonValue::Object(o) => o.len() > 0,
        }
    }
}


/// The value under `key` in the entries of an object: the first entry with
/// that key.
pub open spec fn object_get(entries: Seq<(String, JsonValue)>, key: Seq<char>) -> Option<JsonValue>
    decreases entries.len(),
{
    if entries.len() == 0 {
        None
    } else if entries[0].0@ == key {
        Some(entries[0].1)
    } else {
        object_get(entries.drop_first(), key)
    }
}

/// Whether a value is an object whose `featured` entry is `true`.
pub open spec fn is_featured(v: JsonValue) -> bool {
    match v {
        JsonValue::Object(entries) => object_get(entries@, "featured"@) == Some(JsonValue::Bool(true)),
        _ => false,
    }
}

/// The items of `s` that are featured, in order.
pub open spec fn featured_items(s: Seq<JsonValue>) -> Seq<JsonValue>
    decreases s.len(),
{
    if s.len() == 0 {
        Seq::empty()
    } else {
        let p = featured_items(s.drop_last());
        if is_featured(s.last()) { p.push(s.last()) } else { p }
    }
}

fn is_featured_value(v: &JsonValue) -> (r: bool)
    ensures
        r == is_featured(*v),
{
    match v {
        JsonValue::Object(entries) => {
            let mut i: usize = 0;
            assert(entries@.skip(0) =~= entries@);
            while i < entries.len()
                invariant
                    i <= entries.len(),
                    *v == JsonValue::Object(*entries),
                    object_get(entries@, "featured"@) == object_get(entries@.skip(i as int), "featured"@),
                decreases entries.len() - i,
            {
                assert(entries@.skip(i as int)[0] == entries@[i as int]);
                assert(entries@.skip(i as int).drop_first() =~= entries@.skip(i + 1));
                if str_eq(entries[i].0.as_str(), "featured") {
                    return match &entries[i].1 {
                        JsonValue::Bool(b) => *b,
                        _ => false,
                    };
                }
                i = i + 1;
            }
            assert(entries@.skip(i as int) =~= Seq::<(String, JsonValue)>::empty());
            false
        },
        _ => false,
    }
}

/// The featured articles of a template's arguments: the items of the
/// `articles` array that are objects with `featured` set to `true`; none when
/// there is no such array.
pub fn featured(articles: Option<&JsonValue>) -> (r: Vec<&JsonValue>)
    ensures
        r@.map_values(|v: &JsonValue| *v) == match articles {
            Some(JsonValue::Array(items)) => featured_items(items@),
            _ => Seq::empty(),
        },
{
    let mut r: Vec<&JsonValue> = Vec::new();
    match articles {
        Some(JsonValue::Array(items)) => {
            let mut i: usize = 0;
            assert(items@.take(0) =~= Seq::<JsonValue>::empty());
            while i < items.len()
                invariant
                    i <= items.len(),
                    r@.map_values(|v: &JsonValue| *v) == featured_items(items@.take(i as int)),
                decreases items.len() - i,
            {
                assert(items@.take(i + 1).drop_last() =~= items@.take(i as int));
                assert(items@.take(i + 1).last() == items@[i as int]);
                let ghost before = r@.map_values(|v: &JsonValue| *v);
                if is_featured_value(&items[i]) {
                    r.push(&items[i]);
                    assert(r@.map_values(|v: &JsonValue| *v) =~= before.push(items@[i as int]));
                }
                i = i + 1;
            }
            assert(items@.take(i as int) =~= items@);
            r
        },
        _ => {
            assert(r@.map_values(|v: &JsonValue| *v) =~= Seq::<JsonValue>::empty());
            r
        },
    }
}


/// The value under `key` in `entries` where a later entry overrides an
/// earlier one: the last entry with that key.
pub open spec fn object_last(entries: Seq<(String, JsonValue)>, key: Seq<char>) -> Option<JsonValue>
    decreases entries.len(),
{
    if entries.len() == 0 {
        None
    } else if entries.last().0@ == key {
        Some(entries.last().1)
    } else {
        object_last(entries.drop_last(), key)
    }
}

/// The entries after the first keep their keys in order.
proof fn lemma_ascending_tail(s: Seq<(String, JsonValue)>)
    requires
        keys_ascending(s),
        s.len() > 0,
    ensures
        keys_ascending(s.drop_first()),
{
    assert forall|i: int, j: int| 0 <= i < j < s.drop_first().len() implies text_lt(
        #[trigger] s.drop_first()[i].0@,
        #[trigger] s.drop_first()[j].0@,
    ) by {
        assert(s.drop_first()[i] == s[i + 1] && s.drop_first()[j] == s[j + 1]);
    }
}

/// In entries with keys in order, a key is found at its one place, and a
/// key found nowhere gives nothing.
proof fn lemma_lookup(s: Seq<(String, JsonValue)>, k: Seq<char>)
    requires
        keys_ascending(s),
    ensures
        forall|i: int| 0 <= i < s.len() && (#[trigger] s[i]).0@ == k ==> object_get(s, k) == Some(s[i].1),
        (forall|i: int| 0 <= i < s.len() ==> (#[trigger] s[i]).0@ != k) ==> object_get(s, k) is None,
    decreases s.len(),
{
    if s.len() > 0 {
        lemma_ascending_tail(s);
        lemma_lookup(s.drop_first(), k);
        assert forall|i: int| 0 <= i < s.len() && (#[trigger] s[i]).0@ == k implies object_get(s, k) == Some(s[i].1) by {
            if i > 0 {
                lemma_ascending_keys_distinct(s, 0, i);
                assert(s.drop_first()[i - 1] == s[i]);
            }
        }
        if forall|i: int| 0 <= i < s.len() ==> (#[trigger] s[i]).0@ != k {
            assert forall|i: int| 0 <= i < s.drop_first().len() implies (#[trigger] s.drop_first()[i]).0@ != k by {
                assert(s.drop_first()[i] == s[i + 1]);
            }
            assert(s[0].0@ != k);
        }
    }
}

/// Why a context cannot be made from a value.
#[derive(Debug, PartialEq, Eq)]
pub enum ContextError {
    /// The value is not an object.
    NotAnObject,
}

/// The data of a template rendering: values by key, in ascending key order,
/// each key once.
pub struct Context {
    data: Vec<(String, JsonValue)>,
}

impl View for Context {
    type V = Seq<(String, JsonValue)>;

    closed spec fn view(&self) -> Seq<(String, JsonValue)> {
        self.data@
    }
}

impl Context {
    /// Whether the keys are in ascending order, each once.
    pub open spec fn wf(&self) -> bool {
        keys_ascending(self@)
    }

    /// An empty context.
    pub fn new() -> (r: Self)
        ensures
            r@ == Seq::<(String, JsonValue)>::empty(),
            r.wf(),
    {
        Context { data: Vec::new() }
    }

    /// The first place whose key does not come before `key`.
    fn position(&self, key: &str) -> (p: usize)
        ensures
            p <= self@.len(),
            forall|i: int| 0 <= i < p ==> text_lt((#[trigger] self@[i]).0@, key@),
            p < self@.len() ==> !text_lt(self@[p as int].0@, key@),
    {
        let mut p: usize = 0;
        while p < self.data.len() && text_less(self.data[p].0.as_str(), key)
            invariant
                p <= self.data@.len(),
                forall|i: int| 0 <= i < p ==> text_lt((#[trigger] self.data@[i]).0@, key@),
            decreases self.data.len() - p,
        {
            p = p + 1;
        }
        p
    }

    /// The value under `index`, if any.
    pub fn get(&self, index: &str) -> (r: Option<&JsonValue>)
        ensures
            match r {
                Some(v) => object_get(self@, index@) == Some(*v),
                None => object_get(self@, index@) is None,
            },
    {
        let mut i: usize = 0;
        assert(self.data@.skip(0) =~= self.data@);
        while i < self.data.len()
            invariant
                i <= self.data@.len(),
                object_get(self.data@, index@) == object_get(self.data@.skip(i as int), index@),
            decreases self.data.len() - i,
        {
            assert(self.data@.skip(i as int)[0] == self.data@[i as int]);
            assert(self.data@.skip(i as int).drop_first() =~= self.data@.skip(i + 1));
            if str_eq(self.data[i].0.as_str(), index) {
                return Some(&self.data[i].1);
            }
            i = i + 1;
        }
        None
    }

    /// Whether there is a value under `index`.
    pub fn contains_key(&self, index: &str) -> (r: bool)
        ensures
            r == object_get(self@, index@) is Some,
    {
        self.get(index).is_some()
    }

    /// Puts `val` under `key`, in place of the value there was.
    pub fn insert(&mut self, key: String, val: JsonValue)
        requires
            old(self).wf(),
        ensures
            final(self).wf(),
            forall|k: Seq<char>| #[trigger] object_get(final(self)@, k) == if k == key@ {
                Some(val)
            } else {
                object_get(old(self)@, k)
            },
            (forall|i: int| 0 <= i < old(self)@.len() ==> text_lt((#[trigger] old(self)@[i]).0@, key@))
                ==> final(self)@ == old(self)@.push((key, val)),
    {
        let ghost s = self.data@;
        let ghost kv = key@;
        let ghost entry = (key, val);
        let p = self.position(key.as_str());
        let same = p < self.data.len() && str_eq(self.data[p].0.as_str(), key.as_str());
        if same {
            self.data.remove(p);
            self.data.insert(p, (key, val));
            assert(self.data@ =~= s.update(p as int, (self.data@[p as int].0, val)));
        } else {
            self.data.insert(p, (key, val));
        }
        let ghost t = self.data@;
        proof {
            if forall|i: int| 0 <= i < s.len() ==> text_lt((#[trigger] s[i]).0@, kv) {
                if p < s.len() {
                    assert(text_lt(s[p as int].0@, kv));
                }
                assert(!same);
                assert(t =~= s.push(entry));
            }
        }
        proof {
            assert(t[p as int].0@ == kv && t[p as int].1 == val);
            if !same && p < s.len() {
                lemma_text_lt_total(s[p as int].0@, kv);
            }
            assert forall|i: int, j: int| 0 <= i < j < t.len() implies text_lt(#[trigger] t[i].0@, #[trigger] t[j].0@) by {
                if same {
                    if i == p {
                        assert(s[i].0@ == kv);
                    } else if j == p {
                        assert(s[j].0@ == kv);
                    }
                    assert(text_lt(s[i].0@, s[j].0@));
                } else {
                    if j < p {
                        assert(text_lt(s[i].0@, s[j].0@));
                    } else if j == p {
                        assert(text_lt(s[i].0@, kv));
                    } else if i == p {
                        assert(t[j] == s[j - 1]);
                        if j - 1 > p {
                            assert(text_lt(s[p as int].0@, s[j - 1].0@));
                            lemma_text_lt_transitive(kv, s[p as int].0@, s[j - 1].0@);
                        }
                    } else if i < p {
                        assert(t[j] == s[j - 1]);
                        assert(text_lt(s[i].0@, s[j - 1].0@));
                    } else {
                        assert(t[i] == s[i - 1] && t[j] == s[j - 1]);
                        assert(text_lt(s[i - 1].0@, s[j - 1].0@));
                    }
                }
            }
            assert forall|k: Seq<char>| #[trigger] object_get(t, k) == if k == kv {
                Some(val)
            } else {
                object_get(s, k)
            } by {
                lemma_lookup(t, k);
                lemma_lookup(s, k);
                if k != kv {
                    if exists|i: int| 0 <= i < s.len() && (#[trigger] s[i]).0@ == k {
                        let i = choose|i: int| 0 <= i < s.len() && (#[trigger] s[i]).0@ == k;
                        if same || i < p {
                            assert(t[i] == s[i]);
                        } else {
                            assert(t[i + 1] == s[i]);
                        }
                    } else {
                        assert forall|i: int| 0 <= i < t.len() implies (#[trigger] t[i]).0@ != k by {
                            if same || i < p {
                                assert(t[i] == s[i] || i == p);
                            } else if i > p {
                                assert(t[i] == s[i - 1]);
                            }
                        }
                    }
                }
            }
        }
    }

    /// Takes out the value under `index`, if any.
    pub fn remove(&mut self, index: &str) -> (r: Option<JsonValue>)
        requires
            old(self).wf(),
        ensures
            final(self).wf(),
            r == object_get(old(self)@, index@),
            forall|k: Seq<char>| #[trigger] object_get(final(self)@, k) == if k == index@ {
                None
            } else {
                object_get(old(self)@, k)
            },
    {
        let ghost s = self.data@;
        let p = self.position(index);
        if p < self.data.len() && str_eq(self.data[p].0.as_str(), index) {
            let (_, v) = self.data.remove(p);
            let ghost t = self.data@;
            proof {
                assert forall|i: int, j: int| 0 <= i < j < t.len() implies text_lt(#[trigger] t[i].0@, #[trigger] t[j].0@) by {
                    if j < p {
                        assert(t[i] == s[i] && t[j] == s[j]);
                    } else if i < p {
                        assert(t[i] == s[i] && t[j] == s[j + 1]);
                    } else {
                        assert(t[i] == s[i + 1] && t[j] == s[j + 1]);
                    }
                }
                lemma_lookup(s, index@);
                assert forall|k: Seq<char>| #[trigger] object_get(t, k) == if k == index@ {
                    None
                } else {
                    object_get(s, k)
                } by {
                    lemma_lookup(t, k);
                    lemma_lookup(s, k);
                    if k == index@ {
                        assert forall|i: int| 0 <= i < t.len() implies (#[trigger] t[i]).0@ != k by {
                            if i < p {
                                assert(t[i] == s[i]);
                                lemma_ascending_keys_distinct(s, i, p as int);
                            } else {
                                assert(t[i] == s[i + 1]);
                                lemma_ascending_keys_distinct(s, i + 1, p as int);
                            }
                        }
                    } else if exists|i: int| 0 <= i < s.len() && (#[trigger] s[i]).0@ == k {
                        let i = choose|i: int| 0 <= i < s.len() && (#[trigger] s[i]).0@ == k;
                        if i < p {
                            assert(t[i] == s[i]);
                        } else {
                            assert(i != p);
                            assert(t[i - 1] == s[i]);
                        }
                    } else {
                        assert forall|i: int| 0 <= i < t.len() implies (#[trigger] t[i]).0@ != k by {
                            if i < p {
                                assert(t[i] == s[i]);
                            } else {
                                assert(t[i] == s[i + 1]);
                            }
                        }
                    }
                }
            }
            Some(v)
        } else {
            proof {
                assert forall|i: int| 0 <= i < s.len() implies (#[trigger] s[i]).0@ != index@ by {
                    if i < p {
                        lemma_text_lt_irreflexive_at(s[i].0@, index@);
                    } else if i > p {
                        assert(text_lt(s[p as int].0@, s[i].0@));
                    }
                }
                lemma_lookup(s, index@);
            }
            None
        }
    }

    /// Puts every value of `source` into this context, in place of the
    /// values under the same keys.
    pub fn extend(&mut self, source: Context)
        requires
            old(self).wf(),
            source.wf(),
        ensures
            final(self).wf(),
            forall|k: Seq<char>| #[trigger] object_get(final(self)@, k) == match object_get(source@, k) {
                Some(v) => Some(v),
                None => object_get(old(self)@, k),
            },
    {
        let ghost orig = source@;
        let ghost s0 = self.data@;
        let mut src = source.data;
        let ghost mut n: int = 0;
        assert(orig.skip(0) =~= orig);
        assert forall|k: Seq<char>| #[trigger] object_get(self.data@, k) == match object_get(orig.take(0), k) {
            Some(v) => Some(v),
            None => object_get(s0, k),
        } by {
            assert(orig.take(0) =~= Seq::<(String, JsonValue)>::empty());
        }
        while src.len() > 0
            invariant
                keys_ascending(self.data@),
                keys_ascending(orig),
                0 <= n <= orig.len(),
                src@ == orig.skip(n),
                forall|k: Seq<char>| #[trigger] object_get(self.data@, k) == match object_get(orig.take(n), k) {
                    Some(v) => Some(v),
                    None => object_get(s0, k),
                },
            decreases src@.len(),
        {
            let (k, v) = src.remove(0);
            proof {
                assert(orig.skip(n)[0] == orig[n]);
            }
            self.insert(k, v);
            proof {
                lemma_prefix_step(orig, n);
                n = n + 1;
                assert(src@ =~= orig.skip(n));
            }
        }
        proof {
            assert(orig.take(n) =~= orig);
        }
    }

    /// This context as an object value.
    pub fn into_json(self) -> (r: JsonValue)
        ensures
            r matches JsonValue::Object(e) && e@ == self@,
    {
        JsonValue::Object(self.data)
    }

    /// The context of an object value, a later entry overriding an earlier
    /// one with the same key; an error for any other value.
    pub fn from_value(obj: JsonValue) -> (r: Result<Context, ContextError>)
        ensures
            match obj {
                JsonValue::Object(m) => r matches Ok(c) && c.wf() && (forall|k: Seq<char>|
                    #[trigger] object_get(c@, k) == object_last(m@, k)) && (keys_ascending(m@) ==> c@ == m@),
                _ => r == Err::<Context, ContextError>(ContextError::NotAnObject),
            },
    {
        match obj {
            JsonValue::Object(m) => {
                let ghost orig = m@;
                let mut c = Context::new();
                let mut src = m;
                let ghost mut n: int = 0;
                assert(orig.skip(0) =~= orig);
                assert(orig.take(0) =~= Seq::<(String, JsonValue)>::empty());
                while src.len() > 0
                    invariant
                        c.wf(),
                        0 <= n <= orig.len(),
                        src@ == orig.skip(n),
                        keys_ascending(orig) ==> c@ == orig.take(n),
                        forall|k: Seq<char>| #[trigger] object_get(c@, k) == object_last(orig.take(n), k),
                    decreases src@.len(),
                {
                    let (k, v) = src.remove(0);
                    proof {
                        assert(orig.skip(n)[0] == orig[n]);
                    }
                    proof {
                        if keys_ascending(orig) {
                            assert forall|i: int| 0 <= i < c@.len() implies text_lt((#[trigger] c@[i]).0@, k@) by {
                                assert(c@[i] == orig[i]);
                            }
                        }
                    }
                    c.insert(k, v);
                    proof {
                        if keys_ascending(orig) {
                            assert(c@ =~= orig.take(n + 1));
                        }
                        assert(orig.take(n + 1).drop_last() =~= orig.take(n));
                        assert(orig.take(n + 1).last() == orig[n]);
                        n = n + 1;
                        assert(src@ =~= orig.skip(n));
                    }
                }
                proof {
                    assert(orig.take(n) =~= orig);
                }
                Ok(c)
            },
            _ => Err(ContextError::NotAnObject),
        }
    }
}

impl Default for Context {
    fn default() -> (r: Self)
        ensures
            r@ == Seq::<(String, JsonValue)>::empty(),
            r.wf(),
    {
        Context::new()
    }
}

/// A key that comes before another is not that other key.
proof fn lemma_text_lt_irreflexive_at(a: Seq<char>, b: Seq<char>)
    requires
        text_lt(a, b),
    ensures
        a != b,
{
    lemma_text_lt_irreflexive(a);
}

/// The entries up to `n + 1` of ordered entries give, for each key, the
/// value of entry `n` when it has that key, else what the entries up to
/// `n` give.
proof fn lemma_prefix_step(orig: Seq<(String, JsonValue)>, n: int)
    requires
        keys_ascending(orig),
        0 <= n < orig.len(),
    ensures
        forall|k: Seq<char>| #[trigger] object_get(orig.take(n + 1), k) == if k == orig[n].0@ {
            Some(orig[n].1)
        } else {
            object_get(orig.take(n), k)
        },
{
    let a = orig.take(n + 1);
    let b = orig.take(n);
    assert forall|i: int, j: int| 0 <= i < j < a.len() implies text_lt(#[trigger] a[i].0@, #[trigger] a[j].0@) by {
        assert(a[i] == orig[i] && a[j] == orig[j]);
    }
    assert forall|i: int, j: int| 0 <= i < j < b.len() implies text_lt(#[trigger] b[i].0@, #[trigger] b[j].0@) by {
        assert(b[i] == orig[i] && b[j] == orig[j]);
    }
    assert forall|k: Seq<char>| #[trigger] object_get(a, k) == if k == orig[n].0@ {
        Some(orig[n].1)
    } else {
        object_get(b, k)
    } by {
        lemma_lookup(a, k);
        lemma_lookup(b, k);
        assert(a[n] == orig[n]);
        if k != orig[n].0@ {
            if exists|i: int| 0 <= i < b.len() && (#[trigger] b[i]).0@ == k {
                let i = choose|i: int| 0 <= i < b.len() && (#[trigger] b[i]).0@ == k;
                assert(a[i] == b[i]);
            } else {
                assert forall|i: int| 0 <= i < a.len() implies (#[trigger] a[i]).0@ != k by {
                    if i < n {
                        assert(a[i] == b[i]);
                    }
                }
            }
        }
    }
}

} // verus!
