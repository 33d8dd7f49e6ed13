//! A small map from string keys to values, kept as a vector of entries whose
//! keys are pairwise distinct; its model is a `Map` from key text to value.

use vstd::prelude::*;
use crate::text::str_eq;

verus! {

pub open spec fn keys_unique<V>(s: Seq<(String, V)>) -> bool {
    forall|i: int, j: int|
        0 <= i < s.len() && 0 <= j < s.len() && i != j ==> (#[trigger] s[i]).0@ != (#[trigger] s[j]).0@
}

pub open spec fn map_of<V>(s: Seq<(String, V)>) -> Map<Seq<char>, V>
    decreases s.len(),
{
    if s.len() == 0 {
        Map::empty()
    } else {
        map_of(s.drop_last()).insert(s.last().0@, s.last().1)
    }
}

pub proof fn lemma_map_of_contains<V>(s: Seq<(String, V)>, k: Seq<char>)
    ensures
        map_of(s).contains_key(k) <==> exists|i: int| 0 <= i < s.len() && (#[trigger] s[i]).0@ == k,
    decreases s.len(),
{
    if s.len() > 0 {
        lemma_map_of_contains(s.drop_last(), k);
        if map_of(s).contains_key(k) && s.last().0@ != k {
            let i = choose|i: int| 0 <= i < s.drop_last().len() && (#[trigger] s.drop_last()[i]).0@ == k;
            assert(s[i] == s.drop_last()[i]);
        }
        if exists|i: int| 0 <= i < s.len() && (#[trigger] s[i]).0@ == k {
            let i = choose|i: int| 0 <= i < s.len() && (#[trigger] s[i]).0@ == k;
            if i < s.len() - 1 {
                assert(s.drop_last()[i] == s[i]);
            }
        }
    }
}

pub proof fn lemma_map_of_value<V>(s: Seq<(String, V)>, i: int)
    requires
        keys_unique(s),
        0 <= i < s.len(),
    ensures
        map_of(s).contains_key(s[i].0@),
        map_of(s)[s[i].0@] == s[i].1,
    decreases s.len(),
{
    if i < s.len() - 1 {
        assert(s.drop_last()[i] == s[i]);
        assert(keys_unique(s.drop_last())) by {
            assert forall|a: int, b: int|
                0 <= a < s.drop_last().len() && 0 <= b < s.drop_last().len() && a != b implies (
            #[trigger] s.drop_last()[a]).0@ != (#[trigger] s.drop_last()[b]).0@ by {
                assert(s.drop_last()[a] == s[a]);
                assert(s.drop_last()[b] == s[b]);
            }
        }
        lemma_map_of_value(s.drop_last(), i);
        assert(s[i].0@ != s[s.len() - 1].0@);
    }
}

proof fn lemma_unique_drop_last<V>(s: Seq<(String, V)>)
    requires
        keys_unique(s),
        s.len() > 0,
    ensures
        keys_unique(s.drop_last()),
        forall|i: int| 0 <= i < s.len() - 1 ==> s.drop_last()[i] == s[i],
        !map_of(s.drop_last()).contains_key(s.last().0@),
{
    assert forall|a: int, b: int|
        0 <= a < s.drop_last().len() && 0 <= b < s.drop_last().len() && a != b implies (
    #[trigger] s.drop_last()[a]).0@ != (#[trigger] s.drop_last()[b]).0@ by {
        assert(s.drop_last()[a] == s[a]);
        assert(s.drop_last()[b] == s[b]);
    }
    lemma_map_of_contains(s.drop_last(), s.last().0@);
    if map_of(s.drop_last()).contains_key(s.last().0@) {
        let i = choose|i: int|
            0 <= i < s.drop_last().len() && (#[trigger] s.drop_last()[i]).0@ == s.last().0@;
        assert(s.drop_last()[i] == s[i]);
        assert(s[i].0@ == s[s.len() - 1].0@);
    }
}

pub proof fn lemma_map_of_update<V>(s: Seq<(String, V)>, i: int, v: V)
    requires
        keys_unique(s),
        0 <= i < s.len(),
    ensures
        map_of(s.update(i, (s[i].0, v))) == map_of(s).insert(s[i].0@, v),
        keys_unique(s.update(i, (s[i].0, v))),
    decreases s.len(),
{
    let t = s.update(i, (s[i].0, v));
    lemma_unique_drop_last(s);
    if i == s.len() - 1 {
        assert(t.drop_last() =~= s.drop_last());
        assert(map_of(t) =~= map_of(s).insert(s[i].0@, v));
    } else {
        assert(t.drop_last() =~= s.drop_last().update(i, (s[i].0, v)));
        assert(s.drop_last()[i] == s[i]);
        lemma_map_of_update(s.drop_last(), i, v);
        assert(s[i].0@ != s.last().0@);
        assert(map_of(t) =~= map_of(s).insert(s[i].0@, v));
    }
    assert forall|a: int, b: int|
        0 <= a < t.len() && 0 <= b < t.len() && a != b implies (#[trigger] t[a]).0@ != (
    #[trigger] t[b]).0@ by {
        assert(t[a].0 == s[a].0);
        assert(t[b].0 == s[b].0);
    }
}

pub proof fn lemma_map_of_remove<V>(s: Seq<(String, V)>, i: int)
    requires
        keys_unique(s),
        0 <= i < s.len(),
    ensures
        map_of(s.remove(i)) == map_of(s).remove(s[i].0@),
        keys_unique(s.remove(i)),
    decreases s.len(),
{
    let t = s.remove(i);
    lemma_unique_drop_last(s);
    if i == s.len() - 1 {
        assert(t =~= s.drop_last());
        assert(map_of(t) =~= map_of(s).remove(s[i].0@));
    } else {
        assert(t.drop_last() =~= s.drop_last().remove(i));
        assert(t.last() == s.last());
        assert(s.drop_last()[i] == s[i]);
        lemma_map_of_remove(s.drop_last(), i);
        assert(s[i].0@ != s.last().0@);
        assert(map_of(t) =~= map_of(s).remove(s[i].0@));
    }
    assert forall|a: int, b: int|
        0 <= a < t.len() && 0 <= b < t.len() && a != b implies (#[trigger] t[a]).0@ != (
    #[trigger] t[b]).0@ by {
        let a2 = if a < i {
            a
        } else {
            a + 1
        };
        let b2 = if b < i {
            b
        } else {
            b + 1
        };
        assert(t[a] == s[a2]);
        assert(t[b] == s[b2]);
    }
}

#[derive(Debug)]
pub struct KeyedVec<V> {
    pub entries: Vec<(String, V)>,
}

impl<V> KeyedVec<V> {
    pub open spec fn wf(&self) -> bool {
        keys_unique(self.entries@)
    }

    pub open spec fn map(&self) -> Map<Seq<char>, V> {
        map_of(self.entries@)
    }

    pub fn new() -> (r: Self)
        ensures
            r.wf(),
            r.map() == Map::<Seq<char>, V>::empty(),
            r.entries@.len() == 0,
    {
        KeyedVec { entries: Vec::new() }
    }

    pub fn index_of(&self, key: &str) -> (r: Option<usize>)
        requires
            self.wf(),
        ensures
            r is Some <==> self.map().contains_key(key@),
            r matches Some(i) ==> i < self.entries@.len() && self.entries@[i as int].0@ == key@
                && self.entries@[i as int].1 == self.map()[key@],
    {
        proof {
            lemma_map_of_contains(self.entries@, key@);
        }
        let mut i: usize = 0;
        while i < self.entries.len()
            invariant
                self.wf(),
                i <= self.entries@.len(),
                forall|j: int| 0 <= j < i ==> (#[trigger] self.entries@[j]).0@ != key@,
            decreases self.entries.len() - i,
        {
            if str_eq(self.entries[i].0.as_str(), key) {
                proof {
                    lemma_map_of_value(self.entries@, i as int);
                }
                return Some(i);
            }
            i = i + 1;
        }
        None
    }

    pub fn contains_key(&self, key: &str) -> (r: bool)
        requires
            self.wf(),
        ensures
            r == self.map().contains_key(key@),
    {
        self.index_of(key).is_some()
    }

    pub fn get(&self, key: &str) -> (r: Option<&V>)
        requires
            self.wf(),
        ensures
            r is Some <==> self.map().contains_key(key@),
            r matches Some(v) ==> *v == self.map()[key@],
    {
        match self.index_of(key) {
            Some(i) => Some(&self.entries[i].1),
            None => None,
        }
    }

    pub fn is_empty(&self) -> (r: bool)
        requires
            self.wf(),
        ensures
            r <==> self.map().dom() =~= Set::<Seq<char>>::empty(),
    {
        let r = self.entries.len() == 0;
        proof {
            if !r {
                lemma_map_of_value(self.entries@, 0);
            } else {
                assert(self.map() == Map::<Seq<char>, V>::empty());
            }
        }
        r
    }

    pub fn insert(&mut self, key: String, value: V)
        requires
            old(self).wf(),
        ensures
            final(self).wf(),
            final(self).map() == old(self).map().insert(key@, value),
    {
        match self.index_of(key.as_str()) {
            Some(i) => {
                let ghost s = self.entries@;
                let ghost k = s[i as int].0;
                let (old_key, _) = self.entries.remove(i);
                self.entries.insert(i, (old_key, value));
                proof {
                    assert(self.entries@ =~= s.update(i as int, (k, value)));
                    lemma_map_of_update(s, i as int, value);
                }
            },
            None => {
                let ghost s = self.entries@;
                proof {
                    lemma_map_of_contains(s, key@);
                }
                self.entries.push((key, value));
                proof {
                    assert(self.entries@.drop_last() =~= s);
                    assert forall|a: int, b: int|
                        0 <= a < self.entries@.len() && 0 <= b < self.entries@.len() && a != b implies (
                    #[trigger] self.entries@[a]).0@ != (#[trigger] self.entries@[b]).0@ by {
                        if a < s.len() {
                            assert(self.entries@[a] == s[a]);
                        }
                        if b < s.len() {
                            assert(self.entries@[b] == s[b]);
                        }
                    }
                }
            },
        }
    }

    pub fn remove(&mut self, key: &str) -> (r: Option<V>)
        requires
            old(self).wf(),
        ensures
            final(self).wf(),
            final(self).map() == old(self).map().remove(key@),
            r is Some <==> old(self).map().contains_key(key@),
            r matches Some(v) ==> v == old(self).map()[key@],
    {
        match self.index_of(key) {
            Some(i) => {
                let ghost s = self.entries@;
                let (_, v) = self.entries.remove(i);
                proof {
                    lemma_map_of_remove(s, i as int);
                }
                Some(v)
            },
            None => {
                assert(self.map().remove(key@) =~= self.map());
                None
            },
        }
    }

    /// Takes the entry at position `i` out; the others keep their order.
    pub fn take_at(&mut self, i: usize) -> (r: (String, V))
        requires
            i < old(self).entries@.len(),
        ensures
            r == old(self).entries@[i as int],
            final(self).entries@ == old(self).entries@.remove(i as int),
    {
        self.entries.remove(i)
    }

    /// Puts an entry in at position `i`, after the `i` entries before it.
    pub fn put_at(&mut self, i: usize, entry: (String, V))
        requires
            i <= old(self).entries@.len(),
        ensures
            final(self).entries@ == old(self).entries@.insert(i as int, entry),
    {
        self.entries.insert(i, entry);
    }

    /// The keys, in the order the entries are kept.
    pub fn keys(&self) -> (r: Vec<String>)
        requires
            self.wf(),
        ensures
            r@.len() == self.entries@.len(),
            forall|i: int| 0 <= i < r@.len() ==> (#[trigger] r@[i])@ == self.entries@[i].0@,
            forall|k: Seq<char>|
                self.map().contains_key(k) <==> exists|i: int| 0 <= i < r@.len() && (#[trigger] r@[i])@
                    == k,
    {
        let mut r: Vec<String> = Vec::new();
        let mut i: usize = 0;
        while i < self.entries.len()
            invariant
                i <= self.entries@.len(),
                r@.len() == i,
                forall|j: int| 0 <= j < i ==> (#[trigger] r@[j])@ == self.entries@[j].0@,
            decreases self.entries.len() - i,
        {
            r.push(self.entries[i].0.clone());
            i = i + 1;
        }
        proof {
            assert forall|k: Seq<char>|
                self.map().contains_key(k) <==> exists|i: int| 0 <= i < r@.len() && (#[trigger] r@[i])@
                    == k by {
                lemma_map_of_contains(self.entries@, k);
                if self.map().contains_key(k) {
                    let j = choose|j: int| 0 <= j < self.entries@.len() && (#[trigger] self.entries@[j]).0@ == k;
                    assert(r@[j]@ == k);
                }
                if exists|i: int| 0 <= i < r@.len() && (#[trigger] r@[i])@ == k {
                    let j = choose|j: int| 0 <= j < r@.len() && (#[trigger] r@[j])@ == k;
                    assert(self.entries@[j].0@ == k);
                }
            }
        }
        r
    }
}

} // verus!
