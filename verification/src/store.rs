//! A small map keyed by strings, kept as a list of distinct keys.

use vstd::prelude::*;

use crate::text::str_eq;

verus! {

/// Entries keyed by distinct strings, in insertion order.
pub struct KeyedStore<V> {
    entries: Vec<(String, V)>,
}

/// The keys of a list of entries.
pub open spec fn keys_of<V>(e: Seq<(String, V)>) -> Seq<Seq<char>> {
    Seq::new(e.len(), |i: int| e[i].0@)
}

/// The map a list of entries with distinct keys stands for.
pub open spec fn map_of<V>(e: Seq<(String, V)>) -> Map<Seq<char>, V> {
    Map::new(
        |k: Seq<char>| exists|i: int| 0 <= i < e.len() && e[i].0@ == k,
        |k: Seq<char>| e[choose|i: int| 0 <= i < e.len() && e[i].0@ == k].1,
    )
}

pub open spec fn distinct_keys<V>(e: Seq<(String, V)>) -> bool {
    forall|i: int, j: int| 0 <= i < j < e.len() ==> e[i].0@ != e[j].0@
}

proof fn lemma_map_of_at<V>(e: Seq<(String, V)>, i: int)
    requires
        distinct_keys(e),
        0 <= i < e.len(),
    ensures
        map_of(e).contains_key(e[i].0@),
        map_of(e)[e[i].0@] == e[i].1,
{
    let k = e[i].0@;
    assert(exists|j: int| 0 <= j < e.len() && e[j].0@ == k);
    let j = choose|j: int| 0 <= j < e.len() && e[j].0@ == k;
    if j != i {
        if i < j {
            assert(e[i].0@ != e[j].0@);
        } else {
            assert(e[j].0@ != e[i].0@);
        }
    }
}

impl<V> KeyedStore<V> {
    pub closed spec fn view(&self) -> Map<Seq<char>, V> {
        map_of(self.entries@)
    }

    /// The values in storage order.
    pub closed spec fn values_seq(&self) -> Seq<V> {
        Seq::new(self.entries@.len(), |i: int| self.entries@[i].1)
    }

    /// The keys in storage order.
    pub closed spec fn keys_seq(&self) -> Seq<Seq<char>> {
        keys_of(self.entries@)
    }

    pub closed spec fn wf(&self) -> bool {
        distinct_keys(self.entries@)
    }

    /// The stored order lists each key of the map exactly once.
    pub proof fn lemma_order(&self)
        requires
            self.wf(),
        ensures
            self.keys_seq().len() == self.values_seq().len(),
            self.keys_seq().no_duplicates(),
            forall|k: Seq<char>| self.view().contains_key(k) <==> self.keys_seq().contains(k),
            forall|i: int|
                0 <= i < self.keys_seq().len() ==> self.view()[#[trigger] self.keys_seq()[i]]
                    == self.values_seq()[i],
    {
        let e = self.entries@;
        assert forall|i: int| 0 <= i < self.keys_seq().len() implies self.view()[
            #[trigger] self.keys_seq()[i]] == self.values_seq()[i] by {
            lemma_map_of_at(e, i);
        }
        assert forall|k: Seq<char>| self.view().contains_key(k) implies self.keys_seq().contains(
            k,
        ) by {
            let i = choose|i: int| 0 <= i < e.len() && e[i].0@ == k;
            assert(self.keys_seq()[i] == k);
        }
        assert forall|k: Seq<char>| self.keys_seq().contains(k) implies self.view().contains_key(
            k,
        ) by {
            let i = choose|i: int| 0 <= i < self.keys_seq().len() && self.keys_seq()[i] == k;
            assert(e[i].0@ == k);
        }
    }

    pub fn new() -> (s: KeyedStore<V>)
        ensures
            s.wf(),
            s.view() == Map::<Seq<char>, V>::empty(),
    {
        let s = KeyedStore { entries: Vec::new() };
        assert(s.view() =~= Map::<Seq<char>, V>::empty());
        s
    }

    pub fn len(&self) -> (n: usize)
        requires
            self.wf(),
        ensures
            n == self.view().len(),
            n == self.values_seq().len(),
    {
        proof {
            self.lemma_order();
            self.keys_seq().unique_seq_to_set();
            assert(self.keys_seq().to_set() =~= self.view().dom());
        }
        self.entries.len()
    }

    fn position(&self, key: &str) -> (r: Option<usize>)
        requires
            self.wf(),
        ensures
            match r {
                Some(i) => i < self.entries@.len() && self.entries@[i as int].0@ == key@,
                None => !self.view().contains_key(key@),
            },
    {
        let mut i: usize = 0;
        while i < self.entries.len()
            invariant
                i <= self.entries@.len(),
                forall|j: int| 0 <= j < i ==> self.entries@[j].0@ != key@,
            decreases self.entries@.len() - i,
        {
            if str_eq(self.entries[i].0.as_str(), key) {
                return Some(i);
            }
            i = i + 1;
        }
        None
    }

    pub fn contains_key(&self, key: &str) -> (b: bool)
        requires
            self.wf(),
        ensures
            b == self.view().contains_key(key@),
    {
        match self.position(key) {
            Some(i) => {
                proof {
                    lemma_map_of_at(self.entries@, i as int);
                }
                true
            },
            None => false,
        }
    }

    pub fn get(&self, key: &str) -> (r: Option<&V>)
        requires
            self.wf(),
        ensures
            match r {
                Some(v) => self.view().contains_key(key@) && self.view()[key@] == *v,
                None => !self.view().contains_key(key@),
            },
    {
        match self.position(key) {
            Some(i) => {
                proof {
                    lemma_map_of_at(self.entries@, i as int);
                }
                Some(&self.entries[i].1)
            },
            None => None,
        }
    }

    /// Sets the value of `key`; a new key goes to the end of the order.
    pub fn insert(&mut self, key: String, value: V)
        requires
            old(self).wf(),
        ensures
            final(self).wf(),
            final(self).view() == old(self).view().insert(key@, value),
    {
        let ghost k = key@;
        match self.position(key.as_str()) {
            Some(i) => {
                let ghost before = self.entries@;
                self.entries.set(i, (key, value));
                assert(self.view() =~= map_of(before).insert(k, value)) by {
                    assert forall|x: Seq<char>| #[trigger] self.view().contains_key(x) implies map_of(
                        before,
                    ).insert(k, value).contains_key(x) by {
                        let j = choose|j: int|
                            0 <= j < self.entries@.len() && self.entries@[j].0@ == x;
                        if j != i {
                            assert(before[j].0@ == x);
                        }
                    }
                    assert forall|x: Seq<char>| map_of(before).insert(k, value).contains_key(
                        x,
                    ) implies #[trigger] self.view().contains_key(x) by {
                        if x == k {
                            assert(self.entries@[i as int].0@ == x);
                        } else {
                            let j = choose|j: int| 0 <= j < before.len() && before[j].0@ == x;
                            assert(self.entries@[j].0@ == x);
                        }
                    }
                    assert forall|x: Seq<char>| #[trigger] self.view().contains_key(x) implies self.view()[x]
                        == map_of(before).insert(k, value)[x] by {
                        let j = choose|j: int|
                            0 <= j < self.entries@.len() && self.entries@[j].0@ == x;
                        lemma_map_of_at(self.entries@, j);
                        if j != i {
                            lemma_map_of_at(before, j);
                        }
                    }
                }
            },
            None => {
                let ghost before = self.entries@;
                self.entries.push((key, value));
                assert(self.view() =~= map_of(before).insert(k, value)) by {
                    assert forall|x: Seq<char>| #[trigger] self.view().contains_key(x) implies map_of(
                        before,
                    ).insert(k, value).contains_key(x) by {
                        let j = choose|j: int|
                            0 <= j < self.entries@.len() && self.entries@[j].0@ == x;
                        if j < before.len() {
                            assert(before[j].0@ == x);
                        }
                    }
                    assert forall|x: Seq<char>| map_of(before).insert(k, value).contains_key(
                        x,
                    ) implies #[trigger] self.view().contains_key(x) by {
                        if x == k {
                            assert(self.entries@[before.len() as int].0@ == x);
                        } else {
                            let j = choose|j: int| 0 <= j < before.len() && before[j].0@ == x;
                            assert(self.entries@[j].0@ == x);
                        }
                    }
                    assert forall|x: Seq<char>| #[trigger] self.view().contains_key(x) implies self.view()[x]
                        == map_of(before).insert(k, value)[x] by {
                        let j = choose|j: int|
                            0 <= j < self.entries@.len() && self.entries@[j].0@ == x;
                        lemma_map_of_at(self.entries@, j);
                        if j < before.len() {
                            lemma_map_of_at(before, j);
                        }
                    }
                }
            },
        }
    }

    /// Removes `key`, handing back its value.
    pub fn remove(&mut self, key: &str) -> (r: Option<V>)
        requires
            old(self).wf(),
        ensures
            final(self).wf(),
            final(self).view() == old(self).view().remove(key@),
            match r {
                Some(v) => old(self).view().contains_key(key@) && old(self).view()[key@] == v,
                None => !old(self).view().contains_key(key@),
            },
    {
        match self.position(key) {
            Some(i) => {
                let ghost before = self.entries@;
                proof {
                    lemma_map_of_at(before, i as int);
                }
                let (_, v) = self.entries.remove(i);
                assert(self.view() =~= map_of(before).remove(key@)) by {
                    assert forall|x: Seq<char>| #[trigger] self.view().contains_key(x) implies map_of(
                        before,
                    ).remove(key@).contains_key(x) by {
                        let j = choose|j: int|
                            0 <= j < self.entries@.len() && self.entries@[j].0@ == x;
                        if j < i {
                            assert(before[j].0@ == x);
                            assert(before[j].0@ != before[i as int].0@);
                        } else {
                            assert(before[j + 1].0@ == x);
                            assert(before[i as int].0@ != before[j + 1].0@);
                        }
                    }
                    assert forall|x: Seq<char>| map_of(before).remove(key@).contains_key(
                        x,
                    ) implies #[trigger] self.view().contains_key(x) by {
                        let j = choose|j: int| 0 <= j < before.len() && before[j].0@ == x;
                        if j < i {
                            assert(self.entries@[j].0@ == x);
                        } else {
                            assert(j != i);
                            assert(self.entries@[j - 1].0@ == x);
                        }
                    }
                    assert forall|x: Seq<char>| #[trigger] self.view().contains_key(x) implies self.view()[x]
                        == map_of(before).remove(key@)[x] by {
                        let j = choose|j: int|
                            0 <= j < self.entries@.len() && self.entries@[j].0@ == x;
                        lemma_map_of_at(self.entries@, j);
                        if j < i {
                            lemma_map_of_at(before, j);
                        } else {
                            lemma_map_of_at(before, j + 1);
                        }
                    }
                }
                Some(v)
            },
            None => {
                assert(self.view() =~= self.view().remove(key@));
                None
            },
        }
    }

    /// The entry at position `i` of the storage order.
    pub fn entry_at(&self, i: usize) -> (r: (&String, &V))
        requires
            self.wf(),
            i < self.values_seq().len(),
        ensures
            r.0@ == self.keys_seq()[i as int],
            *r.1 == self.values_seq()[i as int],
    {
        (&self.entries[i].0, &self.entries[i].1)
    }

    /// Replaces the value of an existing key; an absent key is left absent.
    pub fn set_value(&mut self, key: &str, value: V) -> (found: bool)
        requires
            old(self).wf(),
        ensures
            final(self).wf(),
            found == old(self).view().contains_key(key@),
            final(self).view() == if found {
                old(self).view().insert(key@, value)
            } else {
                old(self).view()
            },
    {
        match self.position(key) {
            Some(i) => {
                let name = String::from_str(key);
                self.insert(name, value);
                proof {
                    lemma_map_of_at(old(self).entries@, i as int);
                }
                true
            },
            None => false,
        }
    }

    /// The keys in storage order.
    pub fn keys(&self) -> (r: Vec<String>)
        requires
            self.wf(),
        ensures
            crate::text::string_views(r@) == self.keys_seq(),
    {
        let mut r: Vec<String> = Vec::new();
        let mut i: usize = 0;
        while i < self.entries.len()
            invariant
                i <= self.entries@.len(),
                crate::text::string_views(r@) == keys_of(self.entries@).take(i as int),
            decreases self.entries@.len() - i,
        {
            let ghost before = r@;
            let k = String::from_str(self.entries[i].0.as_str());
            r.push(k);
            assert(r@ == before.push(k));
            assert(crate::text::string_views(before).len() == i);
            assert(crate::text::string_views(r@) =~= keys_of(self.entries@).take(i + 1)) by {
                assert forall|j: int| 0 <= j < i + 1 implies #[trigger] crate::text::string_views(r@)[j]
                    == keys_of(self.entries@).take(i + 1)[j] by {
                    if j < i {
                        assert(crate::text::string_views(before)[j] == keys_of(self.entries@).take(i as int)[j]);
                    }
                }
            }
            i = i + 1;
        }
        assert(keys_of(self.entries@).take(self.entries@.len() as int) =~= keys_of(self.entries@));
        r
    }
}

} // verus!
