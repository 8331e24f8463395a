//! A table from strings to values: the shape of the persistent store under
//! the engine, one table for each kind of entity.

use crate::text::str_eq;
use vstd::prelude::*;

verus! {

/// One row of a [`Table`].
#[derive(Debug, PartialEq, Eq)]
pub struct Entry<V> {
    pub key: String,
    pub value: V,
}

/// A finite map from strings to values. A key occurs once: writing under a
/// key that is present replaces what was there.
#[derive(Debug)]
pub struct Table<V> {
    entries: Vec<Entry<V>>,
}

/// Whether no two of the first `n` rows share a key.
pub open spec fn distinct_keys<V>(entries: Seq<Entry<V>>, n: int) -> bool {
    forall|i: int, j: int|
        0 <= i < j < n ==> (#[trigger] entries[i]).key@ != (#[trigger] entries[j]).key@
}

/// The map that the first `n` rows make.
pub open spec fn rows_map<V: View>(entries: Seq<Entry<V>>, n: int) -> Map<Seq<char>, V::V>
    decreases n,
{
    if n <= 0 {
        Map::empty()
    } else {
        rows_map(entries, n - 1).insert(entries[n - 1].key@, entries[n - 1].value@)
    }
}

/// A key of the map that some rows make is the key of one of those rows, and
/// with distinct keys each row is found under its key.
proof fn lemma_rows_map<V: View>(entries: Seq<Entry<V>>, n: int)
    requires
        0 <= n <= entries.len(),
    ensures
        forall|k: Seq<char>| #[trigger]
            rows_map(entries, n).contains_key(k) <==> exists|i: int|
                0 <= i < n && (#[trigger] entries[i]).key@ == k,
        distinct_keys(entries, n) ==> forall|i: int|
            0 <= i < n ==> rows_map(entries, n)[(#[trigger] entries[i]).key@] == entries[i].value@,
    decreases n,
{
    if n > 0 {
        lemma_rows_map(entries, n - 1);
        assert forall|k: Seq<char>| #[trigger]
            rows_map(entries, n).contains_key(k) implies exists|i: int|
            0 <= i < n && (#[trigger] entries[i]).key@ == k by {
            if k == entries[n - 1].key@ {
            } else {
                assert(rows_map(entries, n - 1).contains_key(k));
                let i = choose|i: int| 0 <= i < n - 1 && (#[trigger] entries[i]).key@ == k;
                assert(0 <= i < n && entries[i].key@ == k);
            }
        }
        assert forall|k: Seq<char>|
            (exists|i: int|
                0 <= i < n && (#[trigger] entries[i]).key@ == k) implies #[trigger] rows_map(
            entries,
            n,
        ).contains_key(k) by {
            let i = choose|i: int| 0 <= i < n && (#[trigger] entries[i]).key@ == k;
            if i < n - 1 {
                assert(rows_map(entries, n - 1).contains_key(k));
            }
        }
        if distinct_keys(entries, n) {
            assert(distinct_keys(entries, n - 1));
            assert forall|i: int| 0 <= i < n implies rows_map(entries, n)[(
            #[trigger] entries[i]).key@] == entries[i].value@ by {
                if i < n - 1 {
                    assert(entries[i].key@ != entries[n - 1].key@);
                }
            }
        }
    }
}

/// Two lists of rows that agree on their first `n` rows make the same map
/// of them.
proof fn lemma_rows_map_agree<V: View>(a: Seq<Entry<V>>, b: Seq<Entry<V>>, n: int)
    requires
        0 <= n <= a.len(),
        n <= b.len(),
        forall|i: int| 0 <= i < n ==> a[i].key@ == b[i].key@ && a[i].value@ == b[i].value@,
    ensures
        rows_map(a, n) == rows_map(b, n),
    decreases n,
{
    if n > 0 {
        lemma_rows_map_agree(a, b, n - 1);
    }
}

/// Replacing the value of row `at` is writing under its key, where keys are
/// distinct.
proof fn lemma_rows_map_update<V: View>(a: Seq<Entry<V>>, b: Seq<Entry<V>>, at: int, n: int)
    requires
        0 <= at < a.len(),
        a.len() == b.len(),
        0 <= n <= a.len(),
        distinct_keys(a, a.len() as int),
        forall|i: int| 0 <= i < a.len() ==> a[i].key@ == b[i].key@,
        forall|i: int| 0 <= i < a.len() && i != at ==> a[i].value@ == b[i].value@,
    ensures
        at < n ==> rows_map(b, n) == rows_map(a, n).insert(a[at].key@, b[at].value@),
        at >= n ==> rows_map(b, n) == rows_map(a, n),
    decreases n,
{
    if n > 0 {
        lemma_rows_map_update(a, b, at, n - 1);
        if at < n - 1 {
            assert(a[at].key@ != a[n - 1].key@);
            assert(rows_map(b, n) =~= rows_map(a, n).insert(a[at].key@, b[at].value@));
        } else if at == n - 1 {
            assert(rows_map(b, n) =~= rows_map(a, n).insert(a[at].key@, b[at].value@));
        }
    }
}

impl<V: View> View for Table<V> {
    type V = Map<Seq<char>, V::V>;

    closed spec fn view(&self) -> Map<Seq<char>, V::V> {
        rows_map(self.entries@, self.entries@.len() as int)
    }
}

impl<V> Table<V> {
    #[verifier::type_invariant]
    spec fn keys_are_distinct(self) -> bool {
        distinct_keys(self.entries@, self.entries@.len() as int)
    }

    /// The keys, in the order in which they were first written.
    pub closed spec fn keys(&self) -> Seq<Seq<char>> {
        Seq::new(self.entries@.len(), |i: int| self.entries@[i].key@)
    }
}

impl<V: View> Table<V> {
    /// The table without rows.
    pub fn new() -> (table: Self)
        ensures
            table@ == Map::<Seq<char>, V::V>::empty(),
            table.keys() == Seq::<Seq<char>>::empty(),
    {
        let table = Table { entries: Vec::new() };
        assert(table.keys() =~= Seq::<Seq<char>>::empty());
        table
    }

    /// The place of the row with key `key`, if there is one.
    fn position(&self, key: &str) -> (found: Option<usize>)
        ensures
            match found {
                Some(i) => i < self.entries@.len() && self.entries@[i as int].key@ == key@,
                None => forall|i: int|
                    0 <= i < self.entries@.len() ==> (#[trigger] self.entries@[i]).key@ != key@,
            },
    {
        let mut i: usize = 0;
        while i < self.entries.len()
            invariant
                i <= self.entries@.len(),
                forall|j: int| 0 <= j < i ==> (#[trigger] self.entries@[j]).key@ != key@,
            decreases self.entries@.len() - i,
        {
            if str_eq(self.entries[i].key.as_str(), key) {
                return Some(i);
            }
            i += 1;
        }
        None
    }

    /// The value stored under `key`, if there is one.
    pub fn get(&self, key: &str) -> (found: Option<&V>)
        ensures
            match found {
                Some(value) => self@.contains_key(key@) && value@ == self@[key@],
                None => !self@.contains_key(key@),
            },
    {
        proof {
            use_type_invariant(self);
            lemma_rows_map(self.entries@, self.entries@.len() as int);
        }
        match self.position(key) {
            Some(i) => Some(&self.entries[i].value),
            None => None,
        }
    }

    /// Stores `value` under `key`, in place of what was stored there.
    pub fn insert(&mut self, key: String, value: V)
        ensures
            final(self)@ == old(self)@.insert(key@, value@),
            final(self).keys() == if old(self)@.contains_key(key@) {
                old(self).keys()
            } else {
                old(self).keys().push(key@)
            },
    {
        proof {
            use_type_invariant(&*self);
            lemma_rows_map(self.entries@, self.entries@.len() as int);
        }
        let found = self.position(key.as_str());
        let mut entries: Vec<Entry<V>> = Vec::new();
        std::mem::swap(&mut entries, &mut self.entries);
        let ghost before = entries@;
        match found {
            Some(i) => {
                entries.set(i, Entry { key, value });
                proof {
                    lemma_rows_map_update(before, entries@, i as int, before.len() as int);
                }
            },
            None => {
                entries.push(Entry { key, value });
                proof {
                    lemma_rows_map_agree(before, entries@, before.len() as int);
                }
            },
        }
        self.entries = entries;
        assert(self.keys() =~= if old(self)@.contains_key(key@) {
            old(self).keys()
        } else {
            old(self).keys().push(key@)
        });
    }

    /// The number of rows. Each key of the table stands once among
    /// [`Table::keys`], and nothing else does.
    pub fn len(&self) -> (n: usize)
        ensures
            n == self.keys().len(),
            self.keys().no_duplicates(),
            forall|key: Seq<char>| self.keys().contains(key) <==> #[trigger] self@.contains_key(key),
    {
        proof {
            use_type_invariant(self);
            lemma_rows_map(self.entries@, self.entries@.len() as int);
            assert forall|key: Seq<char>| self.keys().contains(key) implies #[trigger] self@.contains_key(
                key,
            ) by {
                let i = choose|i: int| 0 <= i < self.keys().len() && self.keys()[i] == key;
                assert(self.entries@[i].key@ == key);
            }
            assert forall|key: Seq<char>| #[trigger] self@.contains_key(key) implies self.keys().contains(
                key,
            ) by {
                let i = choose|i: int|
                    0 <= i < self.entries@.len() && (#[trigger] self.entries@[i]).key@ == key;
                assert(self.keys()[i] == key);
            }
        }
        self.entries.len()
    }

    /// The row at place `i` of [`Table::keys`].
    pub fn entry(&self, i: usize) -> (row: &Entry<V>)
        requires
            i < self.keys().len(),
        ensures
            row.key@ == self.keys()[i as int],
            self@.contains_key(row.key@),
            self@[row.key@] == row.value@,
    {
        proof {
            use_type_invariant(self);
            lemma_rows_map(self.entries@, self.entries@.len() as int);
        }
        &self.entries[i]
    }
}

} // verus!
