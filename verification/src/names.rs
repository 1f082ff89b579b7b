//! Maps keyed by name, walked in the order of the names.

use crate::text::{chars_of, same};
use vstd::prelude::*;

verus! {

/// Order of texts: by the first character in which they differ, a proper
/// prefix before its extensions.
pub open spec fn text_less(a: Seq<char>, b: Seq<char>) -> bool
    decreases a.len(),
{
    if b.len() == 0 {
        false
    } else if a.len() == 0 {
        true
    } else if a[0] != b[0] {
        a[0] < b[0]
    } else {
        text_less(a.skip(1), b.skip(1))
    }
}

pub proof fn lemma_less_irreflexive(a: Seq<char>)
    ensures
        !text_less(a, a),
    decreases a.len(),
{
    if a.len() > 0 {
        lemma_less_irreflexive(a.skip(1));
    }
}

pub proof fn lemma_less_transitive(a: Seq<char>, b: Seq<char>, c: Seq<char>)
    requires
        text_less(a, b),
        text_less(b, c),
    ensures
        text_less(a, c),
    decreases a.len(),
{
    if a.len() > 0 && b.len() > 0 && c.len() > 0 && a[0] == b[0] && b[0] == c[0] {
        lemma_less_transitive(a.skip(1), b.skip(1), c.skip(1));
    }
}

pub proof fn lemma_less_total(a: Seq<char>, b: Seq<char>)
    ensures
        a == b || text_less(a, b) || text_less(b, a),
    decreases a.len(),
{
    if a.len() > 0 && b.len() > 0 && a[0] == b[0] {
        lemma_less_total(a.skip(1), b.skip(1));
        if a.skip(1) == b.skip(1) {
            assert(a =~= b) by {
                assert forall|i: int| 0 <= i < a.len() implies a[i] == b[i] by {
                    if i > 0 {
                        assert(a.skip(1)[i - 1] == b.skip(1)[i - 1]);
                    }
                }
                assert(a.skip(1).len() == b.skip(1).len());
            }
        }
    } else if a.len() == 0 && b.len() == 0 {
        assert(a =~= b);
    }
}

/// Executable [`text_less`].
pub fn less(a: &str, b: &str) -> (r: bool)
    ensures
        r == text_less(a@, b@),
{
    let x: Vec<char> = chars_of(a);
    let y: Vec<char> = chars_of(b);
    let mut i: usize = 0;
    assert(x@.skip(0) =~= x@);
    assert(y@.skip(0) =~= y@);
    while i < x.len() && i < y.len()
        invariant
            i <= x.len(),
            i <= y.len(),
            x@ == a@,
            y@ == b@,
            text_less(a@, b@) == text_less(x@.skip(i as int), y@.skip(i as int)),
        decreases x.len() - i,
    {
        if x[i] != y[i] {
            return x[i] < y[i];
        }
        assert(x@.skip(i as int).skip(1) =~= x@.skip(i as int + 1));
        assert(y@.skip(i as int).skip(1) =~= y@.skip(i as int + 1));
        i = i + 1;
    }
    i < y.len()
}

/// Strictly increasing keys.
pub open spec fn increasing<A>(s: Seq<(Seq<char>, A)>) -> bool {
    forall|i: int, j: int|
        0 <= i < j < s.len() ==> text_less((#[trigger] s[i]).0, (#[trigger] s[j]).0)
}

/// The value of a key.
pub open spec fn lookup<A>(s: Seq<(Seq<char>, A)>, key: Seq<char>) -> Option<A>
    decreases s.len(),
{
    if s.len() == 0 {
        None
    } else if s.last().0 == key {
        Some(s.last().1)
    } else {
        lookup(s.drop_last(), key)
    }
}

/// Sets a key: an equal key takes the new value in place, a new key goes where
/// the order puts it.
pub open spec fn set_key<A>(s: Seq<(Seq<char>, A)>, key: Seq<char>, value: A) -> Seq<
    (Seq<char>, A),
>
    decreases s.len(),
{
    if s.len() == 0 || text_less(s.last().0, key) {
        s.push((key, value))
    } else if s.last().0 == key {
        s.drop_last().push((key, value))
    } else {
        set_key(s.drop_last(), key, value).push(s.last())
    }
}

pub proof fn lemma_set_key_bound<A>(
    s: Seq<(Seq<char>, A)>,
    key: Seq<char>,
    value: A,
    top: Seq<char>,
)
    requires
        increasing(s),
        text_less(key, top),
        forall|i: int| 0 <= i < s.len() ==> text_less((#[trigger] s[i]).0, top),
    ensures
        forall|i: int|
            0 <= i < set_key(s, key, value).len() ==> text_less(
                (#[trigger] set_key(s, key, value)[i]).0,
                top,
            ),
    decreases s.len(),
{
    let r = set_key(s, key, value);
    let d = s.drop_last();
    if s.len() == 0 || text_less(s.last().0, key) {
        assert(r == s.push((key, value)));
        assert forall|i: int| 0 <= i < r.len() implies text_less((#[trigger] r[i]).0, top) by {
            if i < s.len() {
                assert(r[i] == s[i]);
            }
        }
    } else if s.last().0 == key {
        assert(r == d.push((key, value)));
        assert forall|i: int| 0 <= i < r.len() implies text_less((#[trigger] r[i]).0, top) by {
            if i < d.len() {
                assert(r[i] == s[i]);
            }
        }
    } else {
        assert(increasing(d));
        assert(forall|i: int| 0 <= i < d.len() ==> #[trigger] d[i] == s[i]);
        lemma_set_key_bound(d, key, value, top);
        let q = set_key(d, key, value);
        assert(r == q.push(s.last()));
        assert forall|i: int| 0 <= i < r.len() implies text_less((#[trigger] r[i]).0, top) by {
            if i < q.len() {
                assert(r[i] == q[i]);
            } else {
                assert(r[i] == s[s.len() - 1]);
            }
        }
    }
}

/// Setting a key keeps the order.
pub proof fn lemma_set_key_increasing<A>(s: Seq<(Seq<char>, A)>, key: Seq<char>, value: A)
    requires
        increasing(s),
    ensures
        increasing(set_key(s, key, value)),
    decreases s.len(),
{
    if s.len() > 0 {
        let last = s.last().0;
        let d = s.drop_last();
        assert(increasing(d));
        let r = set_key(s, key, value);
        if text_less(last, key) {
            assert forall|i: int, j: int| 0 <= i < j < r.len() implies text_less(
                (#[trigger] r[i]).0,
                (#[trigger] r[j]).0,
            ) by {
                if j == s.len() && i < s.len() - 1 {
                    lemma_less_transitive(s[i].0, last, key);
                }
            }
        } else if last != key {
            lemma_set_key_increasing(d, key, value);
            lemma_less_total(last, key);
            lemma_set_key_bound(d, key, value, last);
        } else {
            assert forall|i: int, j: int| 0 <= i < j < r.len() implies text_less(
                (#[trigger] r[i]).0,
                (#[trigger] r[j]).0,
            ) by {
                assert(r[i].0 == s[i].0);
                assert(r[j].0 == s[j].0);
            }
        }
    }
}

/// Setting a key sets that key and leaves every other one.
pub proof fn lemma_set_key_lookup<A>(
    s: Seq<(Seq<char>, A)>,
    key: Seq<char>,
    value: A,
    other: Seq<char>,
)
    requires
        increasing(s),
    ensures
        lookup(set_key(s, key, value), key) == Some(value),
        other != key ==> lookup(set_key(s, key, value), other) == lookup(s, other),
    decreases s.len(),
{
    let r = set_key(s, key, value);
    if s.len() == 0 || text_less(s.last().0, key) {
        assert(r.drop_last() =~= s);
    } else if s.last().0 == key {
        assert(r.drop_last() =~= s.drop_last());
    } else {
        let d = s.drop_last();
        assert(increasing(d));
        lemma_set_key_lookup(d, key, value, other);
        assert(r.drop_last() =~= set_key(d, key, value));
    }
}

/// The values of a map seen through a function.
pub open spec fn values_through<A, B>(s: Seq<(Seq<char>, A)>, f: spec_fn(A) -> B) -> Seq<
    (Seq<char>, B),
> {
    s.map_values(|e: (Seq<char>, A)| (e.0, f(e.1)))
}

pub proof fn lemma_set_key_through<A, B>(
    s: Seq<(Seq<char>, A)>,
    key: Seq<char>,
    value: A,
    f: spec_fn(A) -> B,
)
    ensures
        values_through(set_key(s, key, value), f) == set_key(values_through(s, f), key, f(value)),
    decreases s.len(),
{
    let t = values_through(s, f);
    if s.len() == 0 || text_less(s.last().0, key) {
        assert(values_through(s.push((key, value)), f) =~= t.push((key, f(value))));
    } else if s.last().0 == key {
        assert(values_through(s.drop_last().push((key, value)), f) =~= t.drop_last().push(
            (key, f(value)),
        ));
    } else {
        let d = s.drop_last();
        lemma_set_key_through(d, key, value, f);
        assert(values_through(d, f) =~= t.drop_last());
        assert(values_through(set_key(d, key, value).push(s.last()), f) =~= values_through(
            set_key(d, key, value),
            f,
        ).push(t.last()));
    }
}

pub proof fn lemma_lookup_through<A, B>(
    s: Seq<(Seq<char>, A)>,
    key: Seq<char>,
    f: spec_fn(A) -> B,
)
    ensures
        lookup(values_through(s, f), key) == (match lookup(s, key) {
            Some(v) => Some(f(v)),
            None => None,
        }),
    decreases s.len(),
{
    if s.len() > 0 {
        let t = values_through(s, f);
        assert(t.drop_last() =~= values_through(s.drop_last(), f));
        lemma_lookup_through(s.drop_last(), key, f);
    }
}

/// A map from names to values, in the order of the names.
#[derive(Debug)]
pub struct NameMap<V> {
    entries: Vec<(String, V)>,
}

/// The pairs behind a list of entries.
pub closed spec fn pairs<V>(entries: Seq<(String, V)>) -> Seq<(Seq<char>, V)> {
    entries.map_values(|e: (String, V)| (e.0@, e.1))
}

impl<V> View for NameMap<V> {
    type V = Seq<(Seq<char>, V)>;

    closed spec fn view(&self) -> Seq<(Seq<char>, V)> {
        pairs(self.entries@)
    }
}

impl<V: Clone> NameMap<V> {
    /// A map with the same names, and a clone of each value.
    pub fn copy(&self) -> (r: Self)
        ensures
            r@.len() == self@.len(),
            forall|i: int|
                0 <= i < self@.len() ==> (#[trigger] r@[i]).0 == self@[i].0 && cloned(
                    self@[i].1,
                    r@[i].1,
                ),
    {
        proof {
            use_type_invariant(self);
        }
        let mut entries: Vec<(String, V)> = Vec::new();
        let mut i: usize = 0;
        while i < self.entries.len()
            invariant
                i <= self.entries.len(),
                entries@.len() == i,
                forall|j: int|
                    0 <= j < i ==> (#[trigger] entries@[j]).0@ == self.entries@[j].0@ && cloned(
                        self.entries@[j].1,
                        entries@[j].1,
                    ),
            decreases self.entries.len() - i,
        {
            let value: V = self.entries[i].1.clone();
            entries.push((self.entries[i].0.clone(), value));
            i = i + 1;
        }
        proof {
            let p = pairs(entries@);
            let q = pairs(self.entries@);
            assert forall|i: int, j: int| 0 <= i < j < p.len() implies text_less(
                (#[trigger] p[i]).0,
                (#[trigger] p[j]).0,
            ) by {
                assert(p[i].0 == q[i].0 && p[j].0 == q[j].0);
            }
        }
        NameMap { entries }
    }
}

impl<V> NameMap<V> {
    #[verifier::type_invariant]
    spec fn ordered(self) -> bool {
        increasing(self@)
    }

    /// A map without entries.
    pub fn new() -> (r: Self)
        ensures
            r@ == Seq::<(Seq<char>, V)>::empty(),
    {
        let entries: Vec<(String, V)> = Vec::new();
        assert(pairs(entries@) =~= Seq::<(Seq<char>, V)>::empty());
        NameMap { entries }
    }

    /// The names come out in strictly increasing order.
    pub fn len(&self) -> (r: usize)
        ensures
            r == self@.len(),
            increasing(self@),
    {
        proof {
            use_type_invariant(self);
        }
        self.entries.len()
    }

    /// The name at a position.
    pub fn name(&self, i: usize) -> (r: &String)
        requires
            i < self@.len(),
        ensures
            r@ == self@[i as int].0,
    {
        &self.entries[i].0
    }

    /// The value at a position.
    pub fn value(&self, i: usize) -> (r: &V)
        requires
            i < self@.len(),
        ensures
            *r == self@[i as int].1,
    {
        &self.entries[i].1
    }

    /// The value of a name.
    pub fn get(&self, key: &str) -> (r: Option<&V>)
        ensures
            match r {
                Some(v) => lookup(self@, key@) == Some(*v),
                None => lookup(self@, key@) is None,
            },
    {
        let ghost all = self@;
        let mut i: usize = self.entries.len();
        assert(all.take(all.len() as int) =~= all);
        while i > 0
            invariant
                i <= self.entries.len(),
                all == self@,
                all.len() == self.entries.len(),
                lookup(all, key@) == lookup(all.take(i as int), key@),
            decreases i,
        {
            i = i - 1;
            assert(all.take(i as int + 1).last() == all[i as int]);
            assert(all.take(i as int + 1).drop_last() =~= all.take(i as int));
            assert(all[i as int] == (self.entries@[i as int].0@, self.entries@[i as int].1));
            if same(self.entries[i].0.as_str(), key) {
                return Some(&self.entries[i].1);
            }
        }
        None
    }

    /// Whether a name has a value.
    pub fn contains(&self, key: &str) -> (r: bool)
        ensures
            r == (lookup(self@, key@) is Some),
    {
        self.get(key).is_some()
    }

    /// Sets the value of a name.
    pub fn insert(&mut self, key: String, value: V)
        ensures
            final(self)@ == set_key(old(self)@, key@, value),
    {
        proof {
            use_type_invariant(&*self);
        }
        let ghost all = self@;
        let ghost k = key@;
        let ghost v = value;
        let mut entries: Vec<(String, V)> = Vec::new();
        std::mem::swap(&mut entries, &mut self.entries);
        let mut i: usize = entries.len();
        let ghost given = entries@;
        assert(all.take(all.len() as int) =~= all);
        assert(all.skip(all.len() as int) =~= Seq::empty());
        assert(set_key(all, k, v) =~= set_key(all.take(i as int), k, v) + all.skip(i as int));
        while i > 0 && !less(entries[i - 1].0.as_str(), key.as_str()) && !same(
            entries[i - 1].0.as_str(),
            key.as_str(),
        )
            invariant
                i <= entries.len(),
                entries@ == given,
                all == pairs(given),
                all.len() == given.len(),
                k == key@,
                set_key(all, k, v) == set_key(all.take(i as int), k, v) + all.skip(i as int),
            decreases i,
        {
            let ghost head = all.take(i as int);
            i = i - 1;
            assert(head.last() == all[i as int]);
            assert(all[i as int].0 == given[i as int].0@);
            assert(head.drop_last() =~= all.take(i as int));
            assert(set_key(head, k, v) == set_key(all.take(i as int), k, v).push(all[i as int]));
            assert(set_key(all, k, v) =~= set_key(all.take(i as int), k, v) + all.skip(i as int));
        }
        if i > 0 {
            assert(all.take(i as int).last() == all[i - 1]);
            assert(all[i - 1].0 == given[i - 1].0@);
        }
        if i > 0 && same(entries[i - 1].0.as_str(), key.as_str()) {
            proof {
                lemma_less_irreflexive(k);
            }
            entries.set(i - 1, (key, value));
            assert(pairs(entries@) =~= all.take(i as int).drop_last().push((k, v)) + all.skip(
                i as int,
            ));
        } else {
            entries.insert(i, (key, value));
            assert(pairs(entries@) =~= all.take(i as int).push((k, v)) + all.skip(i as int));
        }
        proof {
            lemma_set_key_increasing(all, k, v);
        }
        self.entries = entries;
    }
}

} // verus!
