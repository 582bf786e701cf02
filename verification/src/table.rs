//! A table keyed by address, kept as a list in which no address occurs twice.

use crate::address::Address;
use vstd::prelude::*;

verus! {

/// One row of a table.
struct Entry<T> {
    key: Address,
    value: T,
}

/// A finite map from addresses to values.
pub struct Table<T> {
    entries: Vec<Entry<T>>,
}

/// No two rows carry the same address.
spec fn distinct<T>(rows: Seq<Entry<T>>) -> bool {
    forall|i: int, j: int| 0 <= i < j < rows.len() ==> rows[i].key@ != rows[j].key@
}

/// The map that a list of rows stands for; of two rows with one address the
/// later one counts.
spec fn rows_map<T>(rows: Seq<Entry<T>>) -> Map<Seq<u8>, T>
    decreases rows.len(),
{
    if rows.len() == 0 {
        Map::empty()
    } else {
        rows_map(rows.drop_last()).insert(rows.last().key@, rows.last().value)
    }
}

/// Row `i` holds the address `key`.
spec fn row_has_key<T>(rows: Seq<Entry<T>>, i: int, key: Seq<u8>) -> bool {
    0 <= i < rows.len() && rows[i].key@ == key
}

/// The map of a list of rows has the rows' addresses as its keys, and under
/// each address the value of its row where no address occurs twice.
proof fn lemma_rows_map<T>(rows: Seq<Entry<T>>)
    ensures
        forall|key: Seq<u8>|
            rows_map(rows).contains_key(key) <==> exists|i: int| row_has_key(rows, i, key),
        distinct(rows) ==> forall|i: int|
            0 <= i < rows.len() ==> #[trigger] rows_map(rows)[rows[i].key@] == rows[i].value,
    decreases rows.len(),
{
    if rows.len() > 0 {
        let front = rows.drop_last();
        lemma_rows_map(front);
        assert(rows_map(rows).dom() == rows_map(front).dom().insert(rows.last().key@));
        assert forall|key: Seq<u8>| rows_map(rows).contains_key(key) implies exists|i: int|
            row_has_key(rows, i, key) by {
            if key == rows.last().key@ {
                assert(row_has_key(rows, rows.len() - 1, key));
            } else {
                let i = choose|i: int| row_has_key(front, i, key);
                assert(row_has_key(rows, i, key));
            }
        }
        assert forall|key: Seq<u8>| (exists|i: int| row_has_key(rows, i, key)) implies rows_map(
            rows,
        ).contains_key(key) by {
            let i = choose|i: int| row_has_key(rows, i, key);
            if i < rows.len() - 1 {
                assert(row_has_key(front, i, key));
            }
        }
        if distinct(rows) {
            assert forall|i: int| 0 <= i < rows.len() implies #[trigger] rows_map(
                rows,
            )[rows[i].key@] == rows[i].value by {
                if i < rows.len() - 1 {
                    assert(rows_map(front)[front[i].key@] == front[i].value);
                }
            }
        }
    }
}

/// Writing a value into a row writes it under the row's address.
proof fn lemma_rows_map_set<T>(rows: Seq<Entry<T>>, i: int, value: T)
    requires
        distinct(rows),
        0 <= i < rows.len(),
    ensures
        distinct(rows.update(i, Entry { key: rows[i].key, value })),
        rows_map(rows.update(i, Entry { key: rows[i].key, value })) == rows_map(rows).insert(
            rows[i].key@,
            value,
        ),
{
    let key = rows[i].key@;
    let after = rows.update(i, Entry { key: rows[i].key, value });
    assert forall|j: int| 0 <= j < after.len() implies after[j].key == rows[j].key by {}
    lemma_rows_map(rows);
    lemma_rows_map(after);
    assert forall|k: Seq<u8>| rows_map(after).contains_key(k) <==> rows_map(rows).insert(
        key,
        value,
    ).contains_key(k) by {
        if rows_map(after).contains_key(k) {
            let j = choose|j: int| row_has_key(after, j, k);
            assert(row_has_key(rows, j, k));
        }
        if rows_map(rows).contains_key(k) {
            let j = choose|j: int| row_has_key(rows, j, k);
            assert(row_has_key(after, j, k));
        }
        if k == key {
            assert(row_has_key(after, i, k));
        }
    }
    assert forall|k: Seq<u8>| rows_map(after).contains_key(k) implies rows_map(after)[k]
        == rows_map(rows).insert(key, value)[k] by {
        let j = choose|j: int| row_has_key(after, j, k);
        assert(rows_map(after)[after[j].key@] == after[j].value);
        assert(rows_map(rows)[rows[j].key@] == rows[j].value);
    }
    assert(rows_map(after) =~= rows_map(rows).insert(key, value));
}

/// Taking a row out takes its address out of the map.
proof fn lemma_rows_map_remove<T>(rows: Seq<Entry<T>>, i: int)
    requires
        distinct(rows),
        0 <= i < rows.len(),
    ensures
        distinct(rows.remove(i)),
        rows_map(rows.remove(i)) == rows_map(rows).remove(rows[i].key@),
{
    let key = rows[i].key@;
    let after = rows.remove(i);
    lemma_rows_map(rows);
    lemma_rows_map(after);
    assert forall|k: Seq<u8>| rows_map(after).contains_key(k) <==> rows_map(rows).remove(
        key,
    ).contains_key(k) by {
        if rows_map(after).contains_key(k) {
            let j = choose|j: int| row_has_key(after, j, k);
            assert(row_has_key(rows, if j < i { j } else { j + 1 }, k));
        }
        if k != key && rows_map(rows).contains_key(k) {
            let j = choose|j: int| row_has_key(rows, j, k);
            assert(row_has_key(after, if j < i { j } else { j - 1 }, k));
        }
    }
    assert forall|k: Seq<u8>| rows_map(after).contains_key(k) implies rows_map(after)[k]
        == rows_map(rows).remove(key)[k] by {
        let j = choose|j: int| row_has_key(after, j, k);
        let from = if j < i { j } else { j + 1 };
        assert(rows_map(after)[after[j].key@] == after[j].value);
        assert(rows_map(rows)[rows[from].key@] == rows[from].value);
    }
    assert(rows_map(after) =~= rows_map(rows).remove(key));
}

/// A row put at the end is written under its address, which must be new.
proof fn lemma_rows_map_push<T>(rows: Seq<Entry<T>>, row: Entry<T>)
    requires
        distinct(rows),
        forall|i: int| !row_has_key(rows, i, row.key@),
    ensures
        distinct(rows.push(row)),
        rows_map(rows.push(row)) == rows_map(rows).insert(row.key@, row.value),
{
    let after = rows.push(row);
    assert(after.drop_last() =~= rows);
    assert forall|i: int, j: int| 0 <= i < j < after.len() implies after[i].key@
        != after[j].key@ by {
        if j == rows.len() {
            assert(!row_has_key(rows, i, row.key@));
        }
    }
}

impl<T: Copy> Table<T> {
    /// The representation is in order: no address occurs twice.
    pub closed spec fn wf(&self) -> bool {
        distinct(self.entries@)
    }

    /// The map from addresses to values that the table holds.
    pub closed spec fn view(&self) -> Map<Seq<u8>, T> {
        rows_map(self.entries@)
    }

    /// The empty table.
    pub fn new() -> (table: Self)
        ensures
            table.wf(),
            table@ == Map::<Seq<u8>, T>::empty(),
    {
        Table { entries: Vec::new() }
    }

    /// The row that holds `key`, if there is one.
    fn position(&self, key: &Address) -> (found: Option<usize>)
        ensures
            match found {
                Some(i) => row_has_key(self.entries@, i as int, key@),
                None => forall|i: int| !row_has_key(self.entries@, i, key@),
            },
    {
        let mut i: usize = 0;
        while i < self.entries.len()
            invariant
                i <= self.entries.len(),
                forall|j: int| 0 <= j < i ==> !row_has_key(self.entries@, j, key@),
            decreases self.entries.len() - i,
        {
            if self.entries[i].key == *key {
                return Some(i);
            }
            proof {
                if self.entries@[i as int].key@ == key@ {
                    Address::lemma_same_bytes(self.entries@[i as int].key, *key);
                }
            }
            i += 1;
        }
        None
    }

    /// The value under `key`, if the table has that key.
    pub fn get(&self, key: &Address) -> (value: Option<T>)
        requires
            self.wf(),
        ensures
            value == (if self@.contains_key(key@) {
                Some(self@[key@])
            } else {
                None
            }),
    {
        proof {
            lemma_rows_map(self.entries@);
        }
        match self.position(key) {
            Some(i) => Some(self.entries[i].value),
            None => None,
        }
    }

    /// Writes `value` under `key`, in place of what was there.
    pub fn insert(&mut self, key: Address, value: T)
        requires
            old(self).wf(),
        ensures
            final(self).wf(),
            final(self)@ == old(self)@.insert(key@, value),
    {
        match self.position(&key) {
            Some(i) => {
                proof {
                    lemma_rows_map_set(self.entries@, i as int, value);
                }
                self.entries[i].value = value;
                assert(self.entries@ =~= old(self).entries@.update(
                    i as int,
                    Entry { key: old(self).entries@[i as int].key, value },
                ));
            },
            None => {
                proof {
                    lemma_rows_map_push(self.entries@, Entry { key, value });
                }
                self.entries.push(Entry { key, value });
            },
        }
    }

    /// Takes `key` out of the table and returns what was under it.
    pub fn remove(&mut self, key: &Address) -> (value: Option<T>)
        requires
            old(self).wf(),
        ensures
            final(self).wf(),
            final(self)@ == old(self)@.remove(key@),
            value == (if old(self)@.contains_key(key@) {
                Some(old(self)@[key@])
            } else {
                None
            }),
    {
        proof {
            lemma_rows_map(self.entries@);
        }
        match self.position(key) {
            Some(i) => {
                proof {
                    lemma_rows_map_remove(self.entries@, i as int);
                }
                let row = self.entries.remove(i);
                Some(row.value)
            },
            None => {
                None
            },
        }
    }
}

} // verus!
