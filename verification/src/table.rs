//! A small map from text keys to values, kept as a list of rows.

use vstd::prelude::*;
use crate::stored::Stored;

verus! {

/// One row of a table: a text key and the value kept under it.
struct Entry<V> {
    key: String,
    value: V,
}

/// Whether row `i` of `rows` is keyed by `key`.
spec fn keyed_at<V>(rows: Seq<Entry<V>>, key: Seq<char>, i: int) -> bool {
    0 <= i < rows.len() && rows[i].key@ == key
}

/// No key occurs in two rows.
spec fn distinct_keys<V>(rows: Seq<Entry<V>>) -> bool {
    forall|i: int, j: int|
        0 <= i < rows.len() && 0 <= j < rows.len() && i != j ==> rows[i].key@ != rows[j].key@
}

/// The mapping that a sequence of rows stands for.
spec fn rows_map<V: View>(rows: Seq<Entry<V>>) -> Map<Seq<char>, V::V> {
    Map::new(
        |key: Seq<char>| exists|i: int| keyed_at(rows, key, i),
        |key: Seq<char>| rows[choose|i: int| keyed_at(rows, key, i)].value@,
    )
}

/// A key that some row carries is in the mapping, with that row's value.
proof fn lemma_row_is_mapped<V: View>(rows: Seq<Entry<V>>, i: int)
    requires
        distinct_keys(rows),
        0 <= i < rows.len(),
    ensures
        rows_map(rows).dom().contains(rows[i].key@),
        rows_map(rows)[rows[i].key@] == rows[i].value@,
{
    let key = rows[i].key@;
    assert(keyed_at(rows, key, i));
    let j = choose|j: int| keyed_at(rows, key, j);
    assert(keyed_at(rows, key, j));
    assert(i == j);
}

/// Appending a row with a fresh key inserts it into the mapping.
proof fn lemma_push_row<V: View>(rows: Seq<Entry<V>>, row: Entry<V>)
    requires
        distinct_keys(rows),
        !rows_map(rows).dom().contains(row.key@),
    ensures
        distinct_keys(rows.push(row)),
        rows_map(rows.push(row)) == rows_map(rows).insert(row.key@, row.value@),
{
    let after = rows.push(row);
    let last = rows.len() as int;
    assert forall|i: int, j: int|
        0 <= i < after.len() && 0 <= j < after.len() && i != j implies after[i].key@
        != after[j].key@ by {
        if i < last && j == last {
            assert(keyed_at(rows, rows[i].key@, i));
        }
        if j < last && i == last {
            assert(keyed_at(rows, rows[j].key@, j));
        }
    }
    assert forall|key: Seq<char>|
        rows_map(after).dom().contains(key) <==> #[trigger] rows_map(rows).insert(
            row.key@,
            row.value@,
        ).dom().contains(key) by {
        if rows_map(after).dom().contains(key) {
            let i = choose|i: int| keyed_at(after, key, i);
            if i < last {
                assert(keyed_at(rows, key, i));
            }
        }
        if rows_map(rows).dom().contains(key) {
            let i = choose|i: int| keyed_at(rows, key, i);
            assert(keyed_at(after, key, i));
        }
        if key == row.key@ {
            assert(keyed_at(after, key, last));
        }
    }
    assert forall|key: Seq<char>| #[trigger] rows_map(after).dom().contains(key) implies rows_map(
        after,
    )[key] == rows_map(rows).insert(row.key@, row.value@)[key] by {
        let i = choose|i: int| keyed_at(after, key, i);
        lemma_row_is_mapped(after, i);
        if i < last {
            lemma_row_is_mapped(rows, i);
        }
    }
    assert(rows_map(after) =~= rows_map(rows).insert(row.key@, row.value@));
}

/// Replacing a row by one of the same key overwrites that key's value.
proof fn lemma_replace_row<V: View>(rows: Seq<Entry<V>>, i: int, row: Entry<V>)
    requires
        distinct_keys(rows),
        0 <= i < rows.len(),
        rows[i].key@ == row.key@,
    ensures
        distinct_keys(rows.update(i, row)),
        rows_map(rows.update(i, row)) == rows_map(rows).insert(row.key@, row.value@),
{
    let after = rows.update(i, row);
    assert forall|a: int, b: int|
        0 <= a < after.len() && 0 <= b < after.len() && a != b implies after[a].key@
        != after[b].key@ by {
        assert(after[a].key@ == rows[a].key@);
        assert(after[b].key@ == rows[b].key@);
    }
    assert forall|key: Seq<char>|
        rows_map(after).dom().contains(key) <==> #[trigger] rows_map(rows).insert(
            row.key@,
            row.value@,
        ).dom().contains(key) by {
        if rows_map(after).dom().contains(key) {
            let j = choose|j: int| keyed_at(after, key, j);
            assert(after[j].key@ == rows[j].key@);
            assert(keyed_at(rows, key, j));
        }
        if rows_map(rows).dom().contains(key) {
            let j = choose|j: int| keyed_at(rows, key, j);
            assert(after[j].key@ == rows[j].key@);
            assert(keyed_at(after, key, j));
        }
        if key == row.key@ {
            assert(keyed_at(after, key, i));
        }
    }
    assert forall|key: Seq<char>| #[trigger] rows_map(after).dom().contains(key) implies rows_map(
        after,
    )[key] == rows_map(rows).insert(row.key@, row.value@)[key] by {
        let j = choose|j: int| keyed_at(after, key, j);
        lemma_row_is_mapped(after, j);
        if j != i {
            assert(after[j].key@ == rows[j].key@);
            lemma_row_is_mapped(rows, j);
        }
    }
    assert(rows_map(after) =~= rows_map(rows).insert(row.key@, row.value@));
}

/// Taking a row out removes its key from the mapping.
proof fn lemma_remove_row<V: View>(rows: Seq<Entry<V>>, i: int)
    requires
        distinct_keys(rows),
        0 <= i < rows.len(),
    ensures
        distinct_keys(rows.remove(i)),
        rows_map(rows.remove(i)) == rows_map(rows).remove(rows[i].key@),
{
    let after = rows.remove(i);
    let gone = rows[i].key@;
    assert forall|a: int| 0 <= a < after.len() implies #[trigger] after[a] == rows[if a < i {
        a
    } else {
        a + 1
    }] by {}
    assert forall|a: int, b: int|
        0 <= a < after.len() && 0 <= b < after.len() && a != b implies after[a].key@
        != after[b].key@ by {
        let a0 = if a < i { a } else { a + 1 };
        let b0 = if b < i { b } else { b + 1 };
        assert(after[a] == rows[a0]);
        assert(after[b] == rows[b0]);
    }
    assert forall|key: Seq<char>|
        rows_map(after).dom().contains(key) <==> #[trigger] rows_map(rows).remove(
            gone,
        ).dom().contains(key) by {
        if rows_map(after).dom().contains(key) {
            let a = choose|a: int| keyed_at(after, key, a);
            let a0 = if a < i { a } else { a + 1 };
            assert(after[a] == rows[a0]);
            assert(keyed_at(rows, key, a0));
        }
        if rows_map(rows).dom().contains(key) && key != gone {
            let j = choose|j: int| keyed_at(rows, key, j);
            let a = if j < i { j } else { j - 1 };
            assert(after[a] == rows[j]);
            assert(keyed_at(after, key, a));
        }
    }
    assert forall|key: Seq<char>| #[trigger] rows_map(after).dom().contains(key) implies rows_map(
        after,
    )[key] == rows_map(rows).remove(gone)[key] by {
        let a = choose|a: int| keyed_at(after, key, a);
        let a0 = if a < i { a } else { a + 1 };
        assert(after[a] == rows[a0]);
        lemma_row_is_mapped(after, a);
        lemma_row_is_mapped(rows, a0);
    }
    assert(rows_map(after) =~= rows_map(rows).remove(gone));
}

/// Distinct keys: the mapping has as many keys as there are rows.
proof fn lemma_row_count<V: View>(rows: Seq<Entry<V>>)
    requires
        distinct_keys(rows),
    ensures
        rows_map(rows).dom().finite(),
        rows_map(rows).dom().len() == rows.len(),
    decreases rows.len(),
{
    if rows.len() == 0 {
        assert(rows_map(rows).dom() =~= Set::<Seq<char>>::empty());
    } else {
        let last = rows.len() - 1;
        let front = rows.drop_last();
        assert forall|i: int, j: int|
            0 <= i < front.len() && 0 <= j < front.len() && i != j implies front[i].key@
            != front[j].key@ by {
            assert(front[i] == rows[i]);
            assert(front[j] == rows[j]);
        }
        lemma_row_count(front);
        if rows_map(front).dom().contains(rows[last].key@) {
            let i = choose|i: int| keyed_at(front, rows[last].key@, i);
            assert(front[i] == rows[i]);
            assert(false);
        }
        assert(front.push(rows[last]) =~= rows);
        lemma_push_row(front, rows[last]);
        assert(rows_map(rows).dom() =~= rows_map(front).dom().insert(rows[last].key@));
    }
}

/// Rows that agree key by key and value by value stand for the same mapping.
proof fn lemma_same_rows<V: View>(rows: Seq<Entry<V>>, copy: Seq<Entry<V>>)
    requires
        distinct_keys(rows),
        copy.len() == rows.len(),
        forall|i: int|
            0 <= i < rows.len() ==> copy[i].key@ == rows[i].key@ && copy[i].value@
                == rows[i].value@,
    ensures
        distinct_keys(copy),
        rows_map(copy) == rows_map(rows),
{
    assert forall|key: Seq<char>|
        rows_map(copy).dom().contains(key) <==> #[trigger] rows_map(rows).dom().contains(key) by {
        if rows_map(copy).dom().contains(key) {
            let i = choose|i: int| keyed_at(copy, key, i);
            assert(keyed_at(rows, key, i));
        }
        if rows_map(rows).dom().contains(key) {
            let i = choose|i: int| keyed_at(rows, key, i);
            assert(keyed_at(copy, key, i));
        }
    }
    assert forall|key: Seq<char>| #[trigger] rows_map(copy).dom().contains(key) implies rows_map(
        copy,
    )[key] == rows_map(rows)[key] by {
        let i = choose|i: int| keyed_at(copy, key, i);
        lemma_row_is_mapped(copy, i);
        lemma_row_is_mapped(rows, i);
    }
    assert(rows_map(copy) =~= rows_map(rows));
}

/// A mapping from text keys to values, kept as rows with distinct keys.
pub struct Table<V: View> {
    rows: Vec<Entry<V>>,
}

impl<V: View> View for Table<V> {
    type V = Map<Seq<char>, V::V>;

    closed spec fn view(&self) -> Map<Seq<char>, V::V> {
        rows_map(self.rows@)
    }
}

impl<V: View> Table<V> {
    #[verifier::type_invariant]
    spec fn well_formed(&self) -> bool {
        distinct_keys(self.rows@)
    }

    /// The empty table.
    pub fn new() -> (table: Self)
        ensures
            table@ == Map::<Seq<char>, V::V>::empty(),
    {
        let table = Table { rows: Vec::new() };
        assert(table@ =~= Map::<Seq<char>, V::V>::empty());
        table
    }

    /// The row that carries `key`, if there is one.
    fn position(&self, key: &String) -> (found: Option<usize>)
        ensures
            match found {
                Some(i) => keyed_at(self.rows@, key@, i as int),
                None => !self@.dom().contains(key@),
            },
    {
        let mut i: usize = 0;
        while i < self.rows.len()
            invariant
                i <= self.rows.len(),
                forall|j: int| 0 <= j < i ==> !keyed_at(self.rows@, key@, j),
            decreases self.rows.len() - i,
        {
            if self.rows[i].key == *key {
                return Some(i);
            }
            i += 1;
        }
        None
    }

    /// Whether a value is kept under `key`.
    pub fn contains_key(&self, key: &String) -> (found: bool)
        ensures
            found == self@.dom().contains(key@),
    {
        proof {
            use_type_invariant(self);
        }
        match self.position(key) {
            Some(i) => {
                proof {
                    lemma_row_is_mapped(self.rows@, i as int);
                }
                true
            },
            None => false,
        }
    }

    /// The value kept under `key`, if there is one.
    pub fn get(&self, key: &String) -> (value: Option<&V>)
        ensures
            match value {
                Some(v) => self@.dom().contains(key@) && v@ == self@[key@],
                None => !self@.dom().contains(key@),
            },
    {
        proof {
            use_type_invariant(self);
        }
        match self.position(key) {
            Some(i) => {
                proof {
                    lemma_row_is_mapped(self.rows@, i as int);
                }
                Some(&self.rows[i].value)
            },
            None => None,
        }
    }

    /// Keeps `value` under `key`, in place of whatever was kept there.
    pub fn insert(&mut self, key: String, value: V)
        ensures
            final(self)@ == old(self)@.insert(key@, value@),
    {
        proof {
            use_type_invariant(&*self);
        }
        let found = self.position(&key);
        let mut rows = Vec::new();
        std::mem::swap(&mut rows, &mut self.rows);
        let row = Entry { key, value };
        match found {
            Some(i) => {
                proof {
                    lemma_replace_row(rows@, i as int, row);
                }
                rows.set(i, row);
            },
            None => {
                proof {
                    lemma_push_row(rows@, row);
                }
                rows.push(row);
            },
        }
        self.rows = rows;
    }

    /// Drops whatever is kept under `key`; nothing changes if nothing is.
    pub fn remove(&mut self, key: &String)
        ensures
            final(self)@ == old(self)@.remove(key@),
    {
        proof {
            use_type_invariant(&*self);
        }
        match self.position(key) {
            Some(i) => {
                let mut rows = Vec::new();
                std::mem::swap(&mut rows, &mut self.rows);
                proof {
                    lemma_remove_row(rows@, i as int);
                }
                rows.remove(i);
                self.rows = rows;
            },
            None => {
                assert(self@ =~= self@.remove(key@));
            },
        }
    }

    /// How many keys the table holds.
    pub fn len(&self) -> (count: usize)
        ensures
            self@.dom().finite(),
            count == self@.dom().len(),
    {
        proof {
            use_type_invariant(self);
            lemma_row_count(self.rows@);
        }
        self.rows.len()
    }

    /// Every key of the table, each once.
    pub fn keys(&self) -> (keys: Vec<String>)
        ensures
            forall|i: int| 0 <= i < keys@.len() ==> self@.dom().contains(#[trigger] keys@[i]@),
            forall|key: Seq<char>|
                self@.dom().contains(key) ==> exists|i: int|
                    0 <= i < keys@.len() && #[trigger] keys@[i]@ == key,
            forall|i: int, j: int|
                0 <= i < keys@.len() && 0 <= j < keys@.len() && i != j ==> keys@[i]@ != keys@[j]@,
    {
        proof {
            use_type_invariant(self);
        }
        let mut keys: Vec<String> = Vec::new();
        let mut i: usize = 0;
        while i < self.rows.len()
            invariant
                i <= self.rows.len(),
                keys@.len() == i,
                forall|j: int| 0 <= j < i ==> keys@[j]@ == self.rows@[j].key@,
            decreases self.rows.len() - i,
        {
            keys.push(self.rows[i].key.clone());
            i += 1;
        }
        proof {
            assert forall|j: int| 0 <= j < keys@.len() implies self@.dom().contains(
                #[trigger] keys@[j]@,
            ) by {
                lemma_row_is_mapped(self.rows@, j);
            }
            assert forall|key: Seq<char>| self@.dom().contains(key) implies exists|j: int|
                0 <= j < keys@.len() && #[trigger] keys@[j]@ == key by {
                let j = choose|j: int| keyed_at(self.rows@, key, j);
                assert(keys@[j]@ == key);
            }
        }
        keys
    }
}

impl<V: Stored> Stored for Table<V> {
    fn duplicate(&self) -> (copy: Self) {
        proof {
            use_type_invariant(self);
        }
        let mut rows: Vec<Entry<V>> = Vec::new();
        let mut i: usize = 0;
        while i < self.rows.len()
            invariant
                i <= self.rows.len(),
                rows@.len() == i,
                forall|j: int|
                    0 <= j < i ==> rows@[j].key@ == self.rows@[j].key@ && rows@[j].value@
                        == self.rows@[j].value@,
            decreases self.rows.len() - i,
        {
            let row = Entry { key: self.rows[i].key.clone(), value: self.rows[i].value.duplicate() };
            rows.push(row);
            i += 1;
        }
        proof {
            lemma_same_rows(self.rows@, rows@);
        }
        Table { rows }
    }
}

} // verus!
