//! A table keyed by strings, in which no key occurs twice.

use vstd::prelude::*;

verus! {

/// One row of a [`Table`].
pub struct Entry<V> {
    pub key: String,
    pub value: V,
}

/// A mapping from string keys to values.
///
/// Its view is the `Map` from each key's characters to the value stored
/// under it. The order of the rows is not part of the view.
pub struct Table<V> {
    entries: Vec<Entry<V>>,
}

/// No two rows carry the same key.
pub open spec fn keys_distinct<V>(entries: Seq<Entry<V>>) -> bool {
    forall|i: int, j: int|
        0 <= i < j < entries.len() ==> (#[trigger] entries[i]).key@ != (#[trigger] entries[j]).key@
}

/// Some row carries `key`.
pub open spec fn has_key<V>(entries: Seq<Entry<V>>, key: Seq<char>) -> bool {
    exists|i: int| 0 <= i < entries.len() && (#[trigger] entries[i]).key@ == key
}

/// A row that carries `key`.
pub open spec fn row_of<V>(entries: Seq<Entry<V>>, key: Seq<char>) -> int {
    choose|i: int| 0 <= i < entries.len() && (#[trigger] entries[i]).key@ == key
}

/// The mapping that a list of rows stands for.
pub open spec fn mapping<V>(entries: Seq<Entry<V>>) -> Map<Seq<char>, V> {
    Map::new(|k: Seq<char>| has_key(entries, k), |k: Seq<char>| entries[row_of(entries, k)].value)
}

/// In a list with distinct keys the row at `i` is the one its key maps to.
proof fn lemma_row_is_mapped<V>(entries: Seq<Entry<V>>, i: int)
    requires
        keys_distinct(entries),
        0 <= i < entries.len(),
    ensures
        mapping(entries).contains_key(entries[i].key@),
        mapping(entries)[entries[i].key@] == entries[i].value,
{
    let k = entries[i].key@;
    assert(has_key(entries, k));
    let j = row_of(entries, k);
    assert(0 <= j < entries.len() && entries[j].key@ == k);
    assert(j == i);
}

/// A key that no row carries is not mapped.
proof fn lemma_absent_is_unmapped<V>(entries: Seq<Entry<V>>, key: Seq<char>)
    requires
        forall|i: int| 0 <= i < entries.len() ==> (#[trigger] entries[i]).key@ != key,
    ensures
        !mapping(entries).contains_key(key),
{
}

/// Appending a row under a fresh key inserts it into the mapping.
proof fn lemma_push_inserts<V>(entries: Seq<Entry<V>>, row: Entry<V>)
    requires
        keys_distinct(entries),
        !has_key(entries, row.key@),
    ensures
        keys_distinct(entries.push(row)),
        mapping(entries.push(row)) == mapping(entries).insert(row.key@, row.value),
{
    let after = entries.push(row);
    assert(keys_distinct(after)) by {
        assert forall|i: int, j: int| 0 <= i < j < after.len() implies (#[trigger] after[i]).key@
            != (#[trigger] after[j]).key@ by {
            if j < entries.len() {
                assert(entries[i].key@ != entries[j].key@);
            } else {
                assert(after[i] == entries[i]);
                assert(entries[i].key@ != row.key@);
            }
        }
    }
    let want = mapping(entries).insert(row.key@, row.value);
    assert forall|k: Seq<char>| mapping(after).contains_key(k) <==> want.contains_key(k) by {
        if has_key(after, k) {
            let i = row_of(after, k);
            if i < entries.len() {
                assert(entries[i].key@ == k);
            }
        }
        if want.contains_key(k) {
            if k == row.key@ {
                assert(after[entries.len() as int].key@ == k);
            } else {
                let i = row_of(entries, k);
                assert(after[i].key@ == k);
            }
        }
    }
    assert forall|k: Seq<char>| mapping(after).contains_key(k) implies mapping(after)[k]
        == want[k] by {
        let i = row_of(after, k);
        lemma_row_is_mapped(after, i);
        if i < entries.len() {
            assert(after[i] == entries[i]);
            lemma_row_is_mapped(entries, i);
        }
    }
    assert(mapping(after) =~= want);
}

/// Putting a row under a fresh key anywhere in the list inserts it into the
/// mapping.
proof fn lemma_insert_inserts<V>(entries: Seq<Entry<V>>, at: int, row: Entry<V>)
    requires
        keys_distinct(entries),
        !has_key(entries, row.key@),
        0 <= at <= entries.len(),
    ensures
        keys_distinct(entries.insert(at, row)),
        mapping(entries.insert(at, row)) == mapping(entries).insert(row.key@, row.value),
{
    let after = entries.insert(at, row);
    assert(after.len() == entries.len() + 1);
    assert(after[at] == row);
    assert forall|j: int| 0 <= j < after.len() && j != at implies (#[trigger] after[j])
        == entries[if j < at {
        j
    } else {
        j - 1
    }] by {}
    assert(keys_distinct(after)) by {
        assert forall|a: int, b: int| 0 <= a < b < after.len() implies (#[trigger] after[a]).key@
            != (#[trigger] after[b]).key@ by {
            let a0 = if a < at { a } else { a - 1 };
            let b0 = if b < at { b } else { b - 1 };
            if a == at {
                assert(after[b] == entries[b0]);
            } else if b == at {
                assert(after[a] == entries[a0]);
            } else {
                assert(after[a] == entries[a0]);
                assert(after[b] == entries[b0]);
                assert(entries[a0].key@ != entries[b0].key@);
            }
        }
    }
    let want = mapping(entries).insert(row.key@, row.value);
    assert forall|k: Seq<char>| mapping(after).contains_key(k) <==> want.contains_key(k) by {
        if has_key(after, k) {
            let j = row_of(after, k);
            if j != at {
                let j0 = if j < at { j } else { j - 1 };
                assert(after[j] == entries[j0]);
                assert(entries[j0].key@ == k);
            }
        }
        if want.contains_key(k) {
            if k == row.key@ {
                assert(after[at].key@ == k);
            } else {
                let j0 = row_of(entries, k);
                let j = if j0 < at { j0 } else { j0 + 1 };
                assert(after[j] == entries[j0]);
                assert(after[j].key@ == k);
            }
        }
    }
    assert forall|k: Seq<char>| mapping(after).contains_key(k) implies mapping(after)[k]
        == want[k] by {
        let j = row_of(after, k);
        lemma_row_is_mapped(after, j);
        if j != at {
            let j0 = if j < at { j } else { j - 1 };
            assert(after[j] == entries[j0]);
            lemma_row_is_mapped(entries, j0);
        }
    }
    assert(mapping(after) =~= want);
}

/// Taking the row at `i` out removes its key from the mapping.
proof fn lemma_remove_removes<V>(entries: Seq<Entry<V>>, i: int)
    requires
        keys_distinct(entries),
        0 <= i < entries.len(),
    ensures
        keys_distinct(entries.remove(i)),
        !has_key(entries.remove(i), entries[i].key@),
        mapping(entries.remove(i)) == mapping(entries).remove(entries[i].key@),
{
    let after = entries.remove(i);
    let gone = entries[i].key@;
    assert forall|j: int| 0 <= j < after.len() implies (#[trigger] after[j]) == entries[if j < i {
        j
    } else {
        j + 1
    }] by {}
    assert(keys_distinct(after)) by {
        assert forall|a: int, b: int| 0 <= a < b < after.len() implies (#[trigger] after[a]).key@
            != (#[trigger] after[b]).key@ by {
            let a0 = if a < i { a } else { a + 1 };
            let b0 = if b < i { b } else { b + 1 };
            assert(after[a] == entries[a0]);
            assert(after[b] == entries[b0]);
            assert(entries[a0].key@ != entries[b0].key@);
        }
    }
    assert(!has_key(after, gone)) by {
        if has_key(after, gone) {
            let j = row_of(after, gone);
            let j0 = if j < i { j } else { j + 1 };
            assert(after[j] == entries[j0]);
            if j0 < i {
                assert(entries[j0].key@ != entries[i].key@);
            } else {
                assert(entries[i].key@ != entries[j0].key@);
            }
        }
    }
    let want = mapping(entries).remove(gone);
    assert forall|k: Seq<char>| mapping(after).contains_key(k) <==> want.contains_key(k) by {
        if has_key(after, k) {
            let j = row_of(after, k);
            let j0 = if j < i { j } else { j + 1 };
            assert(after[j] == entries[j0]);
            assert(entries[j0].key@ == k);
        }
        if want.contains_key(k) {
            let j0 = row_of(entries, k);
            assert(j0 != i);
            let j = if j0 < i { j0 } else { j0 - 1 };
            assert(after[j] == entries[j0]);
            assert(after[j].key@ == k);
        }
    }
    assert forall|k: Seq<char>| mapping(after).contains_key(k) implies mapping(after)[k]
        == want[k] by {
        let j = row_of(after, k);
        let j0 = if j < i { j } else { j + 1 };
        assert(after[j] == entries[j0]);
        lemma_row_is_mapped(after, j);
        lemma_row_is_mapped(entries, j0);
    }
    assert(mapping(after) =~= want);
}

impl<V> View for Table<V> {
    type V = Map<Seq<char>, V>;

    closed spec fn view(&self) -> Map<Seq<char>, V> {
        mapping(self.entries@)
    }
}

impl<V> Table<V> {
    #[verifier::type_invariant]
    spec fn keys_are_distinct(&self) -> bool {
        keys_distinct(self.entries@)
    }

    /// A table without rows.
    pub fn new() -> (table: Self)
        ensures
            table@ == Map::<Seq<char>, V>::empty(),
    {
        let table = Table { entries: Vec::new() };
        assert(table@ =~= Map::<Seq<char>, V>::empty());
        table
    }

    /// The row that carries `key`, if there is one.
    fn find(&self, key: &String) -> (found: Option<usize>)
        ensures
            match found {
                Some(i) => i < self.entries@.len() && self.entries@[i as int].key@ == key@,
                None => forall|i: int|
                    0 <= i < self.entries@.len() ==> (#[trigger] self.entries@[i]).key@ != key@,
            },
    {
        let mut i: usize = 0;
        while i < self.entries.len()
            invariant
                i <= self.entries@.len(),
                forall|j: int| 0 <= j < i ==> (#[trigger] self.entries@[j]).key@ != key@,
            decreases self.entries@.len() - i,
        {
            if self.entries[i].key == *key {
                return Some(i);
            }
            i += 1;
        }
        None
    }

    /// Whether a value is stored under `key`.
    pub fn contains_key(&self, key: &str) -> (held: bool)
        ensures
            held == self@.contains_key(key@),
    {
        let owned = key.to_owned();
        let found = self.find(&owned);
        proof {
            use_type_invariant(self);
            match found {
                Some(i) => lemma_row_is_mapped(self.entries@, i as int),
                None => lemma_absent_is_unmapped(self.entries@, key@),
            }
        }
        found.is_some()
    }

    /// The value stored under `key`.
    pub fn get(&self, key: &str) -> (value: Option<&V>)
        ensures
            match value {
                Some(v) => self@.contains_key(key@) && *v == self@[key@],
                None => !self@.contains_key(key@),
            },
    {
        let owned = key.to_owned();
        let found = self.find(&owned);
        proof {
            use_type_invariant(self);
        }
        match found {
            Some(i) => {
                proof {
                    lemma_row_is_mapped(self.entries@, i as int);
                }
                Some(&self.entries[i].value)
            },
            None => {
                proof {
                    lemma_absent_is_unmapped(self.entries@, key@);
                }
                None
            },
        }
    }

    /// Takes the value stored under `key` out of the table.
    pub fn remove(&mut self, key: &str) -> (value: Option<V>)
        ensures
            final(self)@ == old(self)@.remove(key@),
            match value {
                Some(v) => old(self)@.contains_key(key@) && v == old(self)@[key@],
                None => !old(self)@.contains_key(key@),
            },
    {
        let owned = key.to_owned();
        let found = self.find(&owned);
        proof {
            use_type_invariant(&*self);
        }
        match found {
            Some(i) => {
                proof {
                    lemma_row_is_mapped(self.entries@, i as int);
                    lemma_remove_removes(self.entries@, i as int);
                }
                let mut entries = self.take_entries();
                let row = entries.remove(i);
                *self = Table { entries };
                Some(row.value)
            },
            None => {
                proof {
                    lemma_absent_is_unmapped(self.entries@, key@);
                    assert(self@.remove(key@) =~= self@);
                }
                None
            },
        }
    }

    /// Stores `value` under `key`, in place of what was stored there.
    pub fn insert(&mut self, key: &str, value: V)
        ensures
            final(self)@ == old(self)@.insert(key@, value),
    {
        let owned = key.to_owned();
        let found = self.find(&owned);
        proof {
            use_type_invariant(&*self);
        }
        let mut entries = self.take_entries();
        match found {
            Some(i) => {
                proof {
                    lemma_remove_removes(entries@, i as int);
                }
                let _ = entries.remove(i);
            },
            None => {
                proof {
                    lemma_absent_is_unmapped(entries@, key@);
                    assert(old(self)@.remove(key@) =~= old(self)@);
                }
            },
        }
        let row = Entry { key: owned, value };
        proof {
            lemma_push_inserts(entries@, row);
            assert(old(self)@.remove(key@).insert(key@, value) =~= old(self)@.insert(key@, value));
        }
        entries.push(row);
        *self = Table { entries };
    }

    /// The keys in the order of their rows. Each key of the table occurs in
    /// it once.
    pub closed spec fn keys(&self) -> Seq<Seq<char>> {
        self.entries@.map_values(|row: Entry<V>| row.key@)
    }

    /// The keys in row order are distinct and are the keys of the table.
    pub proof fn lemma_keys(&self)
        requires
            self.well_formed(),
        ensures
            self.keys().len() == self.spec_len(),
            self.keys().no_duplicates(),
            forall|k: Seq<char>| self@.contains_key(k) <==> self.keys().contains(k),
    {
        let keys = self.keys();
        assert forall|i: int, j: int| 0 <= i < keys.len() && 0 <= j < keys.len() && i != j implies keys[i]
            != keys[j] by {
            if i < j {
                assert(self.entries@[i].key@ != self.entries@[j].key@);
            } else {
                assert(self.entries@[j].key@ != self.entries@[i].key@);
            }
        }
        assert forall|k: Seq<char>| self@.contains_key(k) <==> keys.contains(k) by {
            if self@.contains_key(k) {
                let i = row_of(self.entries@, k);
                assert(keys[i] == k);
            }
            if keys.contains(k) {
                let i = choose|i: int| 0 <= i < keys.len() && keys[i] == k;
                assert(self.entries@[i].key@ == k);
            }
        }
    }

    /// What the type maintains: no key occurs in two rows.
    pub closed spec fn well_formed(&self) -> bool {
        keys_distinct(self.entries@)
    }

    /// The key of row `i`.
    pub fn key_at(&self, i: usize) -> (key: &String)
        requires
            i < self.spec_len(),
        ensures
            key@ == self.keys()[i as int],
            self@.contains_key(key@),
    {
        proof {
            use_type_invariant(self);
            lemma_row_is_mapped(self.entries@, i as int);
        }
        &self.entries[i].key
    }

    /// Puts `value` in row `i` and hands back what was there. The rows keep
    /// their keys and their order.
    pub fn replace_at(&mut self, i: usize, value: V) -> (before: V)
        requires
            i < old(self).spec_len(),
        ensures
            final(self).well_formed(),
            final(self).keys() == old(self).keys(),
            final(self).spec_len() == old(self).spec_len(),
            old(self)@.contains_key(old(self).keys()[i as int]),
            before == old(self)@[old(self).keys()[i as int]],
            final(self)@ == old(self)@.insert(old(self).keys()[i as int], value),
    {
        proof {
            use_type_invariant(&*self);
            lemma_row_is_mapped(self.entries@, i as int);
        }
        let mut entries = self.take_entries();
        let ghost rows = entries@;
        let Entry { key, value: before } = entries.remove(i);
        proof {
            lemma_remove_removes(rows, i as int);
        }
        let row = Entry { key, value };
        proof {
            lemma_insert_inserts(entries@, i as int, row);
            assert(entries@.insert(i as int, row).map_values(|row: Entry<V>| row.key@)
                =~= rows.map_values(|row: Entry<V>| row.key@));
            assert(old(self)@.remove(key@).insert(key@, value) =~= old(self)@.insert(key@, value));
        }
        entries.insert(i, row);
        *self = Table { entries };
        before
    }

    /// Moves the rows out and leaves the table empty.
    fn take_entries(&mut self) -> (entries: Vec<Entry<V>>)
        ensures
            entries@ == old(self).entries@,
            final(self).entries@.len() == 0,
    {
        let mut emptied = Table { entries: Vec::new() };
        core::mem::swap(self, &mut emptied);
        let Table { entries } = emptied;
        entries
    }

    /// The number of keys.
    pub fn len(&self) -> (n: usize)
        ensures
            n == self.spec_len(),
            self.well_formed(),
    {
        proof {
            use_type_invariant(self);
        }
        self.entries.len()
    }

    /// The number of rows, which is the number of keys.
    pub closed spec fn spec_len(&self) -> nat {
        self.entries@.len()
    }
}

} // verus!
