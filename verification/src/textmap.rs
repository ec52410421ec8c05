//! A table keyed by text.

use crate::text::same;
use vstd::prelude::*;

verus! {

/// A table keyed by text. Each key stands in it once.
#[derive(Debug)]
pub struct TextMap<V> {
    entries: Vec<(String, V)>,
}

/// No key stands twice.
pub open spec fn distinct_keys<V>(s: Seq<(String, V)>) -> bool {
    forall|i: int, j: int|
        0 <= i < j < s.len() ==> (#[trigger] s[i]).0@ != (#[trigger] s[j]).0@
}

/// Entry `i` has the key `k`.
pub open spec fn has_key_at<V>(s: Seq<(String, V)>, k: Seq<char>, i: int) -> bool {
    0 <= i < s.len() && s[i].0@ == k
}

/// The map that a list of entries stands for.
pub open spec fn map_of<V>(s: Seq<(String, V)>) -> Map<Seq<char>, V> {
    Map::new(
        |k: Seq<char>| exists|i: int| has_key_at(s, k, i),
        |k: Seq<char>| s[choose|i: int| has_key_at(s, k, i)].1,
    )
}

/// What the map holds under the key of entry `i`.
proof fn lemma_map_of_at<V>(s: Seq<(String, V)>, i: int)
    requires
        distinct_keys(s),
        0 <= i < s.len(),
    ensures
        map_of(s).dom().contains(s[i].0@),
        map_of(s)[s[i].0@] == s[i].1,
{
    let k = s[i].0@;
    assert(has_key_at(s, k, i));
    let j = choose|j: int| has_key_at(s, k, j);
    assert(has_key_at(s, k, j));
    if i < j {
        assert(s[i].0@ != s[j].0@);
    } else if j < i {
        assert(s[j].0@ != s[i].0@);
    }
}

impl<V> TextMap<V> {
    /// No key stands twice.
    pub closed spec fn wf(self) -> bool {
        distinct_keys(self.entries@)
    }

    /// The entries, in the order in which their keys came.
    pub closed spec fn entries(self) -> Seq<(String, V)> {
        self.entries@
    }

    /// The map that the table stands for.
    pub closed spec fn map(self) -> Map<Seq<char>, V> {
        map_of(self.entries@)
    }

    /// A table without entries.
    pub fn new() -> (r: Self)
        ensures
            r.wf(),
            r.map() == Map::<Seq<char>, V>::empty(),
    {
        let r: TextMap<V> = TextMap { entries: Vec::new() };
        assert(r.map() =~= Map::<Seq<char>, V>::empty());
        r
    }

    /// How many entries there are.
    pub fn len(&self) -> (r: usize)
        ensures
            r == self.entries().len(),
    {
        self.entries.len()
    }

    /// Where the entry with the key `key` stands.
    fn find(&self, key: &str) -> (r: Option<usize>)
        ensures
            match r {
                Some(i) => has_key_at(self.entries@, key@, i as int),
                None => !self.map().dom().contains(key@),
            },
    {
        let mut i: usize = 0;
        while i < self.entries.len()
            invariant
                i <= self.entries@.len(),
                forall|j: int| 0 <= j < i ==> !has_key_at(self.entries@, key@, j),
            decreases self.entries@.len() - i,
        {
            if same(self.entries[i].0.as_str(), key) {
                return Some(i);
            }
            i = i + 1;
        }
        None
    }

    /// The value under `key`.
    pub fn get(&self, key: &str) -> (r: Option<&V>)
        requires
            self.wf(),
        ensures
            match r {
                Some(v) => self.map().dom().contains(key@) && self.map()[key@] == *v,
                None => !self.map().dom().contains(key@),
            },
    {
        match self.find(key) {
            Some(i) => {
                proof {
                    lemma_map_of_at(self.entries@, i as int);
                }
                Some(&self.entries[i].1)
            },
            None => None,
        }
    }

    /// Puts `value` under `key`.
    pub fn insert(&mut self, key: &str, value: V)
        requires
            old(self).wf(),
        ensures
            final(self).wf(),
            final(self).map() == old(self).map().insert(key@, value),
    {
        let ghost before = self.entries@;
        match self.find(key) {
            Some(i) => {
                let entry: (String, V) = (key.to_owned(), value);
                self.entries.set(i, entry);
                proof {
                    let after = self.entries@;
                    assert forall|a: int, b: int| 0 <= a < b < after.len() implies (
                    #[trigger] after[a]).0@ != (#[trigger] after[b]).0@ by {
                        assert(before[a].0@ != before[b].0@);
                    }
                    lemma_updated(before, after, i as int, key@, value);
                }
            },
            None => {
                self.entries.push((key.to_owned(), value));
                proof {
                    let after = self.entries@;
                    assert forall|a: int, b: int| 0 <= a < b < after.len() implies (
                    #[trigger] after[a]).0@ != (#[trigger] after[b]).0@ by {
                        if b < before.len() {
                            assert(before[a].0@ != before[b].0@);
                        } else {
                            assert(has_key_at(before, before[a].0@, a));
                        }
                    }
                    lemma_updated(before, after, before.len() as int, key@, value);
                }
            },
        }
    }

    /// The value of the entry at place `i`.
    pub fn value_at(&self, i: usize) -> (r: &V)
        requires
            i < self.entries().len(),
        ensures
            *r == self.entries()[i as int].1,
    {
        &self.entries[i].1
    }

    /// Takes the entry at place `i` away; those behind it move up.
    pub fn remove_at(&mut self, i: usize)
        requires
            old(self).wf(),
            i < old(self).entries().len(),
        ensures
            final(self).wf(),
            final(self).entries() == old(self).entries().remove(i as int),
            final(self).map() == old(self).map().remove(old(self).entries()[i as int].0@),
    {
        let ghost before = self.entries@;
        self.entries.remove(i);
        proof {
            let after = self.entries@;
            let gone = before[i as int].0@;
            assert forall|a: int, b: int| 0 <= a < b < after.len() implies (
            #[trigger] after[a]).0@ != (#[trigger] after[b]).0@ by {
                let x = if a < i {
                    a
                } else {
                    a + 1
                };
                let y = if b < i {
                    b
                } else {
                    b + 1
                };
                assert(before[x].0@ != before[y].0@);
            }
            assert forall|k: Seq<char>| #[trigger] map_of(after).dom().contains(k) implies k != gone
                && map_of(before).dom().contains(k) && map_of(after)[k] == map_of(before)[k] by {
                let j = choose|j: int| has_key_at(after, k, j);
                let x = if j < i {
                    j
                } else {
                    j + 1
                };
                assert(before[x] == after[j]);
                lemma_map_of_at(before, x);
                lemma_map_of_at(after, j);
                if x < i {
                    assert(before[x].0@ != before[i as int].0@);
                } else {
                    assert(before[i as int].0@ != before[x].0@);
                }
            }
            assert forall|k: Seq<char>| #[trigger]
                map_of(before).dom().contains(k) && k != gone implies map_of(
                after,
            ).dom().contains(k) by {
                let x = choose|x: int| has_key_at(before, k, x);
                let j = if x < i {
                    x
                } else {
                    x - 1
                };
                assert(after[j] == before[x]);
                assert(has_key_at(after, k, j));
            }
            assert(map_of(after) =~= map_of(before).remove(gone));
        }
    }
}

/// The map after the entry for a key was put at place `i`.
proof fn lemma_updated<V>(
    before: Seq<(String, V)>,
    after: Seq<(String, V)>,
    i: int,
    key: Seq<char>,
    value: V,
)
    requires
        distinct_keys(before),
        distinct_keys(after),
        0 <= i < after.len(),
        before.len() <= after.len() <= before.len() + 1,
        after.len() == before.len() + 1 ==> i == before.len(),
        i < before.len() ==> before[i].0@ == key,
        after[i].0@ == key,
        after[i].1 == value,
        forall|j: int| 0 <= j < before.len() && j != i ==> after[j] == before[j],
    ensures
        map_of(after) == map_of(before).insert(key, value),
{
    let m = map_of(before).insert(key, value);
    assert forall|k: Seq<char>| #[trigger] map_of(after).dom().contains(k) <==> m.dom().contains(
        k,
    ) by {
        if map_of(after).dom().contains(k) {
            let j = choose|j: int| has_key_at(after, k, j);
            if j != i {
                assert(has_key_at(before, k, j));
            }
        }
        if m.dom().contains(k) {
            if k == key {
                assert(has_key_at(after, k, i));
            } else {
                let j = choose|j: int| has_key_at(before, k, j);
                assert(has_key_at(after, k, j));
            }
        }
    }
    assert forall|k: Seq<char>| #[trigger] map_of(after).dom().contains(k) implies map_of(after)[k]
        == m[k] by {
        let j = choose|j: int| has_key_at(after, k, j);
        lemma_map_of_at(after, j);
        if j != i {
            lemma_map_of_at(before, j);
            if j < i {
                assert(after[j].0@ != after[i].0@);
            } else {
                assert(after[i].0@ != after[j].0@);
            }
        }
    }
    assert(map_of(after) =~= m);
}

impl<V> TextMap<V> {
    /// The map holds the values of the entries under their keys, and nothing else.
    pub proof fn lemma_entries(self)
        requires
            self.wf(),
        ensures
            forall|i: int|
                0 <= i < self.entries().len() ==> self.map().dom().contains(
                    (#[trigger] self.entries()[i]).0@,
                ) && self.map()[self.entries()[i].0@] == self.entries()[i].1,
            forall|k: Seq<char>| #[trigger]
                self.map().dom().contains(k) ==> exists|i: int|
                    has_key_at(self.entries(), k, i),
    {
        assert forall|i: int| 0 <= i < self.entries().len() implies self.map().dom().contains(
            (#[trigger] self.entries()[i]).0@,
        ) && self.map()[self.entries()[i].0@] == self.entries()[i].1 by {
            lemma_map_of_at(self.entries@, i);
        }
        assert forall|k: Seq<char>| #[trigger] self.map().dom().contains(k) implies exists|i: int|
            has_key_at(self.entries(), k, i) by {
            let i = choose|i: int| has_key_at(self.entries@, k, i);
            assert(has_key_at(self.entries(), k, i));
        }
    }
}

} // verus!
