//! A table from names to values.

use crate::text::same;
use vstd::prelude::*;

verus! {

/// A table from names to values; it has at most one value for a name.
#[derive(Debug)]
pub struct Table<V> {
    entries: Vec<(String, V)>,
}

spec fn distinct<V>(e: Seq<(String, V)>) -> bool {
    forall|i: int, j: int| 0 <= i < j < e.len() ==> (#[trigger] e[i]).0@ != (#[trigger] e[j]).0@
}

/// The map that a list of entries spells.
spec fn spelled<V>(e: Seq<(String, V)>) -> Map<Seq<char>, V>
    decreases e.len(),
{
    if e.len() == 0 {
        Map::empty()
    } else {
        spelled(e.drop_last()).insert(e.last().0@, e.last().1)
    }
}

proof fn lemma_spelled<V>(e: Seq<(String, V)>)
    requires
        distinct(e),
    ensures
        forall|k: Seq<char>| #[trigger]
            spelled(e).dom().contains(k) ==> exists|i: int|
                0 <= i < e.len() && (#[trigger] e[i]).0@ == k && spelled(e)[k] == e[i].1,
        forall|i: int|
            0 <= i < e.len() ==> spelled(e).dom().contains((#[trigger] e[i]).0@)
                && spelled(e)[e[i].0@] == e[i].1,
    decreases e.len(),
{
    if e.len() > 0 {
        let d = e.drop_last();
        assert(distinct(d));
        lemma_spelled(d);
        assert forall|i: int| 0 <= i < e.len() implies spelled(e).dom().contains(
            (#[trigger] e[i]).0@,
        ) && spelled(e)[e[i].0@] == e[i].1 by {
            if i < d.len() {
                assert(d[i] == e[i]);
                assert(e[i].0@ != e[e.len() - 1].0@);
            }
        }
        assert forall|k: Seq<char>| #[trigger] spelled(e).dom().contains(k) implies exists|i: int|
            0 <= i < e.len() && (#[trigger] e[i]).0@ == k && spelled(e)[k] == e[i].1 by {
            if k == e.last().0@ {
                assert(e[e.len() - 1].0@ == k);
            } else {
                let i = choose|i: int|
                    0 <= i < d.len() && (#[trigger] d[i]).0@ == k && spelled(d)[k] == d[i].1;
                assert(e[i] == d[i]);
            }
        }
    }
}

proof fn lemma_spelled_len<V>(e: Seq<(String, V)>)
    requires
        distinct(e),
    ensures
        spelled(e).dom().finite(),
        spelled(e).dom().len() == e.len(),
    decreases e.len(),
{
    if e.len() > 0 {
        let d = e.drop_last();
        assert(distinct(d));
        lemma_spelled_len(d);
        lemma_spelled(d);
        assert(!spelled(d).dom().contains(e.last().0@)) by {
            if spelled(d).dom().contains(e.last().0@) {
                let i = choose|i: int|
                    0 <= i < d.len() && (#[trigger] d[i]).0@ == e.last().0@ && spelled(
                        d,
                    )[e.last().0@] == d[i].1;
                assert(e[i].0@ != e[e.len() - 1].0@);
            }
        }
        assert(spelled(e).dom() =~= spelled(d).dom().insert(e.last().0@));
    }
}

/// The values of a table seen through a function.
pub open spec fn mapped<A, B>(m: Map<Seq<char>, A>, f: spec_fn(A) -> B) -> Map<Seq<char>, B> {
    Map::new(|k: Seq<char>| m.dom().contains(k), |k: Seq<char>| f(m[k]))
}

pub broadcast proof fn lemma_mapped_insert<A, B>(
    m: Map<Seq<char>, A>,
    k: Seq<char>,
    v: A,
    f: spec_fn(A) -> B,
)
    ensures
        #[trigger] mapped(m.insert(k, v), f) == mapped(m, f).insert(k, f(v)),
{
    assert(mapped(m.insert(k, v), f) =~= mapped(m, f).insert(k, f(v)));
}

pub broadcast proof fn lemma_mapped_remove<A, B>(
    m: Map<Seq<char>, A>,
    k: Seq<char>,
    f: spec_fn(A) -> B,
)
    ensures
        #[trigger] mapped(m.remove(k), f) == mapped(m, f).remove(k),
{
    assert(mapped(m.remove(k), f) =~= mapped(m, f).remove(k));
}

impl<V> View for Table<V> {
    type V = Map<Seq<char>, V>;

    closed spec fn view(&self) -> Map<Seq<char>, V> {
        spelled(self.entries@)
    }
}

impl<V> Table<V> {
    #[verifier::type_invariant]
    spec fn unambiguous(self) -> bool {
        distinct(self.entries@)
    }

    /// A table without values.
    pub fn new() -> (r: Self)
        ensures
            r@ == Map::<Seq<char>, V>::empty(),
    {
        Table { entries: Vec::new() }
    }

    /// The position of a name, or the number of entries.
    fn position(&self, key: &str) -> (r: usize)
        ensures
            r <= self.entries@.len(),
            r < self.entries@.len() ==> self.entries@[r as int].0@ == key@,
            r == self.entries@.len() ==> !self@.dom().contains(key@),
            distinct(self.entries@),
    {
        proof {
            use_type_invariant(self);
            lemma_spelled(self.entries@);
        }
        let mut i: usize = 0;
        while i < self.entries.len()
            invariant
                i <= self.entries.len(),
                distinct(self.entries@),
                forall|j: int| 0 <= j < i ==> (#[trigger] self.entries@[j]).0@ != key@,
            decreases self.entries.len() - i,
        {
            if same(self.entries[i].0.as_str(), key) {
                return i;
            }
            i = i + 1;
        }
        i
    }

    /// How many names have a value.
    pub fn len(&self) -> (r: usize)
        ensures
            r == self@.dom().len(),
            self@.dom().finite(),
    {
        proof {
            use_type_invariant(self);
            lemma_spelled_len(self.entries@);
        }
        self.entries.len()
    }

    /// The value of a name.
    pub fn get(&self, key: &str) -> (r: Option<&V>)
        ensures
            match r {
                Some(v) => self@.dom().contains(key@) && self@[key@] == *v,
                None => !self@.dom().contains(key@),
            },
    {
        let i: usize = self.position(key);
        proof {
            lemma_spelled(self.entries@);
        }
        if i < self.entries.len() {
            Some(&self.entries[i].1)
        } else {
            None
        }
    }

    /// Whether a name has a value.
    pub fn contains(&self, key: &str) -> (r: bool)
        ensures
            r == self@.dom().contains(key@),
    {
        self.get(key).is_some()
    }

    /// Takes the value of a name out of the table.
    pub fn remove(&mut self, key: &str) -> (r: Option<V>)
        ensures
            final(self)@ == old(self)@.remove(key@),
            match r {
                Some(v) => old(self)@.dom().contains(key@) && old(self)@[key@] == v,
                None => !old(self)@.dom().contains(key@),
            },
    {
        let i: usize = self.position(key);
        let mut entries: Vec<(String, V)> = Vec::new();
        std::mem::swap(&mut entries, &mut self.entries);
        let ghost given = entries@;
        proof {
            lemma_spelled(given);
        }
        if i < entries.len() {
            let (name, value): (String, V) = entries.remove(i);
            proof {
                let left = entries@;
                assert(left == given.remove(i as int));
                assert forall|a: int, b: int| 0 <= a < b < left.len() implies (
                #[trigger] left[a]).0@ != (#[trigger] left[b]).0@ by {
                    let x = if a < i {
                        a
                    } else {
                        a + 1
                    };
                    let y = if b < i {
                        b
                    } else {
                        b + 1
                    };
                    assert(left[a] == given[x] && left[b] == given[y]);
                }
                lemma_spelled(left);
                assert forall|k: Seq<char>| #[trigger] spelled(left).dom().contains(k)
                    == spelled(given).remove(key@).dom().contains(k) by {
                    if spelled(left).dom().contains(k) {
                        let a = choose|a: int|
                            0 <= a < left.len() && (#[trigger] left[a]).0@ == k && spelled(left)[k]
                                == left[a].1;
                        let x = if a < i {
                            a
                        } else {
                            a + 1
                        };
                        assert(left[a] == given[x]);
                        assert(given[x].0@ != given[i as int].0@);
                    }
                    if spelled(given).remove(key@).dom().contains(k) {
                        let x = choose|x: int|
                            0 <= x < given.len() && (#[trigger] given[x]).0@ == k && spelled(
                                given,
                            )[k] == given[x].1;
                        let a = if x < i {
                            x
                        } else {
                            x - 1
                        };
                        assert(left[a] == given[x]);
                    }
                }
                assert forall|k: Seq<char>| #[trigger]
                    spelled(left).dom().contains(k) implies spelled(left)[k] == spelled(
                    given,
                ).remove(key@)[k] by {
                    let a = choose|a: int|
                        0 <= a < left.len() && (#[trigger] left[a]).0@ == k && spelled(left)[k]
                            == left[a].1;
                    let x = if a < i {
                        a
                    } else {
                        a + 1
                    };
                    assert(left[a] == given[x]);
                }
                assert(spelled(left) =~= spelled(given).remove(key@));
            }
            self.entries = entries;
            Some(value)
        } else {
            assert(spelled(given).remove(key@) =~= spelled(given));
            self.entries = entries;
            None
        }
    }

    /// Sets the value of a name.
    pub fn insert(&mut self, key: String, value: V)
        ensures
            final(self)@ == old(self)@.insert(key@, value),
    {
        let before: Option<V> = self.remove(key.as_str());
        let mut entries: Vec<(String, V)> = Vec::new();
        proof {
            use_type_invariant(&*self);
        }
        std::mem::swap(&mut entries, &mut self.entries);
        let ghost given = entries@;
        let ghost k = key@;
        let ghost v = value;
        proof {
            lemma_spelled(given);
            assert(!spelled(given).dom().contains(k));
        }
        entries.push((key, value));
        proof {
            let e = entries@;
            assert(e.drop_last() =~= given);
            assert forall|i: int, j: int| 0 <= i < j < e.len() implies (#[trigger] e[i]).0@ != (
            #[trigger] e[j]).0@ by {
                if j == e.len() - 1 {
                    assert(given[i] == e[i]);
                    assert(spelled(given).dom().contains(given[i].0@));
                } else {
                    assert(given[i] == e[i] && given[j] == e[j]);
                }
            }
            assert(spelled(e) =~= spelled(given).insert(k, v));
            assert(spelled(e) =~= old(self)@.insert(k, v));
        }
        self.entries = entries;
    }
}

} // verus!
