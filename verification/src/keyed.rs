//! A small map from text keys to values, kept as a list in which no key
//! occurs twice.

use vstd::prelude::*;
use crate::text::str_eq;

verus! {

/// Values filed under text keys; a key occurs at most once.
pub struct KeyedList<V> {
    pub entries: Vec<(String, V)>,
}

/// The index of the entry with key `key`, searching from `k`.
pub open spec fn key_index<V>(entries: Seq<(String, V)>, key: Seq<char>, k: int) -> Option<int>
    decreases entries.len() - k,
{
    if k < 0 || k >= entries.len() {
        None
    } else if entries[k].0@ == key {
        Some(k)
    } else {
        key_index(entries, key, k + 1)
    }
}

/// Whether no key occurs twice among `entries`.
pub open spec fn keys_distinct<V>(entries: Seq<(String, V)>) -> bool {
    forall|i: int, j: int| 0 <= i < j < entries.len() ==> #[trigger] entries[i].0@ != #[trigger] entries[j].0@
}

proof fn lemma_key_index<V>(entries: Seq<(String, V)>, key: Seq<char>, k: int)
    requires
        0 <= k,
    ensures
        key_index(entries, key, k) matches Some(j) ==> k <= j < entries.len() && entries[j].0@ == key,
        key_index(entries, key, k) is None ==> forall|j: int| k <= j < entries.len() ==> entries[j].0@ != key,
    decreases entries.len() - k,
{
    if k < entries.len() && entries[k].0@ != key {
        lemma_key_index(entries, key, k + 1);
    }
}

proof fn lemma_key_index_unique<V>(entries: Seq<(String, V)>, key: Seq<char>, j: int)
    requires
        keys_distinct(entries),
        0 <= j < entries.len(),
        entries[j].0@ == key,
    ensures
        key_index(entries, key, 0) == Some(j),
{
    lemma_key_index(entries, key, 0);
    match key_index(entries, key, 0) {
        Some(i) => {
            if i < j {
                assert(entries[i].0@ != entries[j].0@);
            } else if i > j {
                assert(entries[j].0@ != entries[i].0@);
            }
        },
        None => {},
    }
}

impl<V> KeyedList<V> {
    /// No key occurs twice.
    pub open spec fn wf(&self) -> bool {
        keys_distinct(self.entries@)
    }

    /// The value filed under `key`.
    pub open spec fn lookup(&self, key: Seq<char>) -> Option<V> {
        match key_index(self.entries@, key, 0) {
            Some(i) => Some(self.entries@[i].1),
            None => None,
        }
    }

    /// An empty list.
    pub fn new() -> (r: Self)
        ensures
            r.wf(),
            r.entries@.len() == 0,
    {
        KeyedList { entries: Vec::new() }
    }

    fn position(&self, key: &str) -> (r: Option<usize>)
        ensures
            match r {
                Some(i) => key_index(self.entries@, key@, 0) == Some(i as int),
                None => key_index(self.entries@, key@, 0) is None,
            },
    {
        let mut k: usize = 0;
        while k < self.entries.len()
            invariant
                k <= self.entries.len(),
                key_index(self.entries@, key@, 0) == key_index(self.entries@, key@, k as int),
            decreases self.entries.len() - k,
        {
            if str_eq(self.entries[k].0.as_str(), key) {
                return Some(k);
            }
            k = k + 1;
        }
        None
    }

    /// The value filed under `key`.
    pub fn get(&self, key: &str) -> (r: Option<&V>)
        ensures
            match r {
                Some(v) => self.lookup(key@) == Some(*v),
                None => self.lookup(key@) is None,
            },
    {
        proof { lemma_key_index(self.entries@, key@, 0); }
        match self.position(key) {
            Some(i) => Some(&self.entries[i].1),
            None => None,
        }
    }

    /// Files `value` under `key`, replacing what was filed there.
    pub fn insert(&mut self, key: String, value: V)
        requires
            old(self).wf(),
        ensures
            final(self).wf(),
            final(self).lookup(key@) == Some(value),
            forall|k: Seq<char>| k != key@ ==> final(self).lookup(k) == old(self).lookup(k),
    {
        let ghost before = self.entries@;
        proof { lemma_key_index(before, key@, 0); }
        match self.position(key.as_str()) {
            Some(i) => {
                self.entries.set(i, (key, value));
                proof {
                    let after = self.entries@;
                    assert forall|a: int, b: int| 0 <= a < b < after.len() implies
                        #[trigger] after[a].0@ != #[trigger] after[b].0@ by {
                        assert(before[a].0@ != before[b].0@);
                    }
                    lemma_key_index_unique(after, after[i as int].0@, i as int);
                    assert forall|k: Seq<char>| k != key@ implies
                        #[trigger] self.lookup(k) == KeyedList { entries: old(self).entries }.lookup(k) by {
                        lemma_key_index(before, k, 0);
                        lemma_key_index(after, k, 0);
                        match key_index(before, k, 0) {
                            Some(j) => {
                                assert(after[j] == before[j]);
                                lemma_key_index_unique(after, k, j);
                            },
                            None => {
                                if let Some(j) = key_index(after, k, 0) {
                                    assert(after[j] == before[j]);
                                }
                            },
                        }
                    }
                }
            },
            None => {
                let ghost kv = key@;
                self.entries.push((key, value));
                proof {
                    let after = self.entries@;
                    let last = before.len() as int;
                    assert forall|a: int, b: int| 0 <= a < b < after.len() implies
                        #[trigger] after[a].0@ != #[trigger] after[b].0@ by {
                        if b == last {
                            assert(after[a] == before[a]);
                        } else {
                            assert(before[a].0@ != before[b].0@);
                        }
                    }
                    lemma_key_index_unique(after, kv, last);
                    assert forall|k: Seq<char>| k != kv implies
                        #[trigger] self.lookup(k) == KeyedList { entries: old(self).entries }.lookup(k) by {
                        lemma_key_index(before, k, 0);
                        lemma_key_index(after, k, 0);
                        match key_index(before, k, 0) {
                            Some(j) => {
                                assert(after[j] == before[j]);
                                lemma_key_index_unique(after, k, j);
                            },
                            None => {
                                if let Some(j) = key_index(after, k, 0) {
                                    assert(after[j] == before[j]);
                                }
                            },
                        }
                    }
                }
            },
        }
    }

    /// Removes what is filed under `key`.
    pub fn remove(&mut self, key: &str)
        requires
            old(self).wf(),
        ensures
            final(self).wf(),
            final(self).lookup(key@) is None,
            forall|k: Seq<char>| k != key@ ==> final(self).lookup(k) == old(self).lookup(k),
    {
        let ghost before = self.entries@;
        proof { lemma_key_index(before, key@, 0); }
        if let Some(i) = self.position(key) {
            self.entries.remove(i);
            proof {
                let after = self.entries@;
                assert(after =~= before.remove(i as int));
                assert forall|a: int, b: int| 0 <= a < b < after.len() implies
                    #[trigger] after[a].0@ != #[trigger] after[b].0@ by {
                    let a0 = if a < i { a } else { a + 1 };
                    let b0 = if b < i { b } else { b + 1 };
                    assert(after[a] == before[a0] && after[b] == before[b0]);
                    assert(before[a0].0@ != before[b0].0@);
                }
                lemma_key_index(after, key@, 0);
                if let Some(j) = key_index(after, key@, 0) {
                    let j0 = if j < i { j } else { j + 1 };
                    assert(after[j] == before[j0]);
                    if j0 < i {
                        assert(before[j0].0@ != before[i as int].0@);
                    } else {
                        assert(before[i as int].0@ != before[j0].0@);
                    }
                }
                assert forall|k: Seq<char>| k != key@ implies
                    #[trigger] self.lookup(k) == KeyedList { entries: old(self).entries }.lookup(k) by {
                    lemma_key_index(before, k, 0);
                    lemma_key_index(after, k, 0);
                    match key_index(before, k, 0) {
                        Some(j) => {
                            let j1 = if j < i { j } else { j - 1 };
                            assert(j != i);
                            assert(after[j1] == before[j]);
                            lemma_key_index_unique(after, k, j1);
                        },
                        None => {
                            if let Some(j) = key_index(after, k, 0) {
                                let j0 = if j < i { j } else { j + 1 };
                                assert(after[j] == before[j0]);
                            }
                        },
                    }
                }
            }
        }
    }
}

} // verus!
