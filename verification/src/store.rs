//! A verified `u64`-keyed map, the crate's stand-in for the runtime's
//! persistent `key -> value` storage cells.
//!
//! Each engine owns several of these; `spec_get` is the abstraction all
//! their contracts are written against.

use vstd::prelude::*;

verus! {

/// No two entries share a key.
spec fn distinct_entry_keys<V>(s: Seq<(u64, V)>) -> bool {
    forall|i: int, j: int| #![trigger s[i], s[j]] 0 <= i < j < s.len() ==> s[i].0 != s[j].0
}

/// The value stored under a key, if any.
spec fn entry_value<V>(s: Seq<(u64, V)>, key: u64) -> Option<V> {
    if exists|i: int| #![trigger s[i]] 0 <= i < s.len() && s[i].0 == key {
        let i = choose|i: int| #![trigger s[i]] 0 <= i < s.len() && s[i].0 == key;
        Some(s[i].1)
    } else {
        None
    }
}

/// In a duplicate-free table, the entry at index `i` is the one its key
/// finds.
proof fn lemma_entry_value_at<V>(s: Seq<(u64, V)>, i: int)
    requires
        distinct_entry_keys(s),
        0 <= i < s.len(),
    ensures
        entry_value(s, s[i].0) == Some(s[i].1),
{
    let k = s[i].0;
    assert(0 <= i < s.len() && s[i].0 == k);
    let j = choose|j: int| #![trigger s[j]] 0 <= j < s.len() && s[j].0 == k;
    assert(j == i);
}

/// Replacing the entry at index `i` by one with the same key changes that
/// key's value and nothing else.
proof fn lemma_entry_value_update<V>(s: Seq<(u64, V)>, i: int, e: (u64, V))
    requires
        distinct_entry_keys(s),
        0 <= i < s.len(),
        s[i].0 == e.0,
    ensures
        distinct_entry_keys(s.update(i, e)),
        entry_value(s.update(i, e), e.0) == Some(e.1),
        forall|k: u64|
            k != e.0 ==> #[trigger] entry_value(s.update(i, e), k) == entry_value(s, k),
{
    let t = s.update(i, e);
    assert(distinct_entry_keys(t)) by {
        assert forall|p: int, q: int|
            #![trigger t[p], t[q]]
            0 <= p < q < t.len() implies t[p].0 != t[q].0 by {
            assert(s[p].0 == t[p].0 && s[q].0 == t[q].0);
        }
    }
    lemma_entry_value_at(t, i);
    assert forall|k: u64| k != e.0 implies #[trigger] entry_value(t, k) == entry_value(s, k) by {
        if exists|p: int| #![trigger t[p]] 0 <= p < t.len() && t[p].0 == k {
            let p = choose|p: int| #![trigger t[p]] 0 <= p < t.len() && t[p].0 == k;
            assert(p != i);
            assert(s[p] == t[p]);
            lemma_entry_value_at(t, p);
            lemma_entry_value_at(s, p);
        } else {
            assert forall|p: int| #![trigger s[p]] 0 <= p < s.len() implies s[p].0 != k by {
                if p != i {
                    assert(t[p] == s[p]);
                }
            }
        }
    }
}

/// Appending an entry with a fresh key makes it found and leaves every
/// other key's value unchanged.
proof fn lemma_entry_value_push<V>(s: Seq<(u64, V)>, e: (u64, V))
    requires
        distinct_entry_keys(s),
        forall|p: int| #![trigger s[p]] 0 <= p < s.len() ==> s[p].0 != e.0,
    ensures
        distinct_entry_keys(s.push(e)),
        entry_value(s.push(e), e.0) == Some(e.1),
        forall|k: u64| k != e.0 ==> #[trigger] entry_value(s.push(e), k) == entry_value(s, k),
{
    let t = s.push(e);
    assert(t[s.len() as int] == e);
    assert(distinct_entry_keys(t)) by {
        assert forall|p: int, q: int|
            #![trigger t[p], t[q]]
            0 <= p < q < t.len() implies t[p].0 != t[q].0 by {
            if q < s.len() {
                assert(t[p] == s[p] && t[q] == s[q]);
            } else {
                assert(t[p] == s[p] && t[q] == e);
            }
        }
    }
    lemma_entry_value_at(t, s.len() as int);
    assert forall|k: u64| k != e.0 implies #[trigger] entry_value(t, k) == entry_value(s, k) by {
        if exists|p: int| #![trigger t[p]] 0 <= p < t.len() && t[p].0 == k {
            let p = choose|p: int| #![trigger t[p]] 0 <= p < t.len() && t[p].0 == k;
            assert(p != s.len() as int);
            assert(s[p] == t[p]);
            lemma_entry_value_at(t, p);
            lemma_entry_value_at(s, p);
        } else {
            assert forall|p: int| #![trigger s[p]] 0 <= p < s.len() implies s[p].0 != k by {
                assert(t[p] == s[p]);
            }
        }
    }
}

/// Removing the entry at index `i` by a swap with the last entry clears
/// that key and leaves every other key's value unchanged.
proof fn lemma_entry_value_swap_remove<V>(s: Seq<(u64, V)>, i: int)
    requires
        distinct_entry_keys(s),
        0 <= i < s.len(),
    ensures
        distinct_entry_keys(s.update(i, s.last()).drop_last()),
        entry_value(s.update(i, s.last()).drop_last(), s[i].0) is None,
        forall|k: u64|
            k != s[i].0 ==> #[trigger] entry_value(s.update(i, s.last()).drop_last(), k)
                == entry_value(s, k),
{
    let t = s.update(i, s.last()).drop_last();
    let n = s.len() - 1;
    assert forall|p: int| #![trigger t[p]] 0 <= p < t.len() implies t[p] == (if p == i {
        s[n]
    } else {
        s[p]
    }) by {}
    assert(distinct_entry_keys(t)) by {
        assert forall|p: int, q: int|
            #![trigger t[p], t[q]]
            0 <= p < q < t.len() implies t[p].0 != t[q].0 by {}
    }
    assert forall|p: int| #![trigger t[p]] 0 <= p < t.len() implies t[p].0 != s[i].0 by {}
    assert forall|k: u64| k != s[i].0 implies #[trigger] entry_value(t, k) == entry_value(
        s,
        k,
    ) by {
        if exists|p: int| #![trigger t[p]] 0 <= p < t.len() && t[p].0 == k {
            let p = choose|p: int| #![trigger t[p]] 0 <= p < t.len() && t[p].0 == k;
            lemma_entry_value_at(t, p);
            if p == i {
                lemma_entry_value_at(s, n);
            } else {
                lemma_entry_value_at(s, p);
            }
        } else {
            assert forall|p: int| #![trigger s[p]] 0 <= p < s.len() implies s[p].0 != k by {
                if p < n && p != i {
                    assert(t[p] == s[p]);
                } else if p == n {
                    if i < n {
                        assert(t[i] == s[n]);
                    }
                } else {
                }
            }
        }
    }
}

/// A persistent map from `u64` keys to values.
#[verifier::reject_recursive_types(V)]
pub struct StorageMap<V> {
    entries: Vec<(u64, V)>,
}

impl<V> StorageMap<V> {
    /// Internal table is free of duplicate keys.
    pub closed spec fn wf(self) -> bool {
        distinct_entry_keys(self.entries@)
    }

    /// The value stored under `key`, if any.
    pub closed spec fn spec_get(self, key: u64) -> Option<V> {
        entry_value(self.entries@, key)
    }

    /// The stored entries, in insertion order.
    pub closed spec fn entries_view(self) -> Seq<(u64, V)> {
        self.entries@
    }

    /// An empty map.
    pub fn new() -> (r: Self)
        ensures
            r.wf(),
            forall|k: u64| #[trigger] r.spec_get(k) is None,
            r.entries_view() == Seq::<(u64, V)>::empty(),
    {
        StorageMap { entries: Vec::new() }
    }

    /// The index of `key`'s entry, if present.
    fn find(&self, key: u64) -> (r: Option<usize>)
        ensures
            match r {
                Some(i) => i < self.entries@.len() && self.entries@[i as int].0 == key,
                None => forall|p: int|
                    #![trigger self.entries@[p]]
                    0 <= p < self.entries@.len() ==> self.entries@[p].0 != key,
            },
    {
        let mut i: usize = 0;
        while i < self.entries.len()
            invariant
                i <= self.entries@.len(),
                forall|p: int|
                    #![trigger self.entries@[p]]
                    0 <= p < i ==> self.entries@[p].0 != key,
            decreases self.entries@.len() - i,
        {
            if self.entries[i].0 == key {
                return Some(i);
            }
            i = i + 1;
        }
        None
    }

    /// Whether `key` has a value.
    pub fn contains_key(&self, key: u64) -> (r: bool)
        requires
            self.wf(),
        ensures
            r == (self.spec_get(key) is Some),
    {
        match self.find(key) {
            Some(i) => {
                proof {
                    lemma_entry_value_at(self.entries@, i as int);
                }
                true
            },
            None => false,
        }
    }

    /// A reference to the value under `key`, if any.
    pub fn get(&self, key: u64) -> (r: Option<&V>)
        requires
            self.wf(),
        ensures
            match r {
                Some(v) => self.spec_get(key) == Some(*v),
                None => self.spec_get(key) is None,
            },
    {
        match self.find(key) {
            Some(i) => {
                proof {
                    lemma_entry_value_at(self.entries@, i as int);
                }
                Some(&self.entries[i].1)
            },
            None => None,
        }
    }

    /// Stores `value` under `key`, replacing any previous value.
    pub fn insert(&mut self, key: u64, value: V)
        requires
            old(self).wf(),
        ensures
            final(self).wf(),
            final(self).spec_get(key) == Some(value),
            forall|k: u64|
                k != key ==> #[trigger] final(self).spec_get(k) == old(self).spec_get(k),
    {
        match self.find(key) {
            Some(i) => {
                proof {
                    lemma_entry_value_update(self.entries@, i as int, (key, value));
                }
                self.entries[i] = (key, value);
            },
            None => {
                proof {
                    lemma_entry_value_push(self.entries@, (key, value));
                }
                self.entries.push((key, value));
            },
        }
    }

    /// Removes and returns the value under `key`, if any.
    pub fn take(&mut self, key: u64) -> (r: Option<V>)
        requires
            old(self).wf(),
        ensures
            final(self).wf(),
            r == old(self).spec_get(key),
            final(self).spec_get(key) is None,
            forall|k: u64|
                k != key ==> #[trigger] final(self).spec_get(k) == old(self).spec_get(k),
    {
        match self.find(key) {
            Some(i) => {
                proof {
                    lemma_entry_value_at(self.entries@, i as int);
                    lemma_entry_value_swap_remove(self.entries@, i as int);
                }
                let e = self.entries.swap_remove(i);
                Some(e.1)
            },
            None => None,
        }
    }

    /// The number of stored entries.
    pub fn len(&self) -> (r: usize)
        ensures
            r == self.entries_view().len(),
    {
        self.entries.len()
    }

    /// A reference to the entry at position `i`, in insertion order.
    pub fn entry_at(&self, i: usize) -> (r: &(u64, V))
        requires
            i < self.entries_view().len(),
        ensures
            *r == self.entries_view()[i as int],
    {
        &self.entries[i]
    }
}

} // verus!
