use vstd::prelude::*;

verus! {

/// A row that a table can hold: it carries its own primary key.
pub trait Entity: Sized {
    spec fn key(&self) -> u128;

    fn id(&self) -> (r: u128)
        ensures
            r == self.key(),
    ;

    fn duplicate(&self) -> (r: Self)
        ensures
            r == *self,
    ;
}

pub open spec fn has_key<E: Entity>(rows: Seq<E>, k: u128) -> bool {
    exists|i: int| 0 <= i < rows.len() && #[trigger] rows[i].key() == k
}

pub open spec fn keys_unique<E: Entity>(rows: Seq<E>) -> bool {
    forall|i: int, j: int|
        0 <= i < rows.len() && 0 <= j < rows.len() && i != j ==> #[trigger] rows[i].key()
            != #[trigger] rows[j].key()
}

/// The rows of a sequence with unique keys, seen as a map from key to row.
pub open spec fn rows_map<E: Entity>(rows: Seq<E>) -> Map<u128, E> {
    Map::new(
        |k: u128| has_key(rows, k),
        |k: u128| rows[choose|i: int| 0 <= i < rows.len() && #[trigger] rows[i].key() == k],
    )
}

/// The rows with the row of key `row.key()`, if any, overwritten by `row`.
pub open spec fn replaced<E: Entity>(rows: Seq<E>, row: E) -> Seq<E> {
    rows.map_values(|e: E| if e.key() == row.key() { row } else { e })
}

/// The rows without those of key `id`, in the same order.
pub open spec fn without<E: Entity>(rows: Seq<E>, id: u128) -> Seq<E> {
    rows.filter(|e: E| e.key() != id)
}

proof fn lemma_without_absent<E: Entity>(rows: Seq<E>, id: u128)
    requires
        !has_key(rows, id),
    ensures
        without(rows, id) == rows,
    decreases rows.len(),
{
    reveal(Seq::filter);
    if rows.len() > 0 {
        lemma_without_absent(rows.drop_last(), id);
        assert(rows.drop_last().push(rows.last()) =~= rows);
        assert(rows[rows.len() - 1].key() != id);
    } else {
        assert(without(rows, id) =~= rows);
    }
}

proof fn lemma_without_at<E: Entity>(rows: Seq<E>, id: u128, p: int)
    requires
        keys_unique(rows),
        0 <= p < rows.len(),
        rows[p].key() == id,
    ensures
        without(rows, id) == rows.remove(p),
    decreases rows.len(),
{
    reveal(Seq::filter);
    let n = rows.len() - 1;
    let init = rows.drop_last();
    assert(rows.drop_last().push(rows.last()) =~= rows);
    if p == n {
        assert(!has_key(init, id)) by {
            if has_key(init, id) {
                let i = choose|i: int| 0 <= i < init.len() && #[trigger] init[i].key() == id;
                assert(rows[i].key() == rows[p].key());
            }
        }
        lemma_without_absent(init, id);
        assert(rows.remove(p) =~= init);
    } else {
        assert(keys_unique(init)) by {
            assert forall|i: int, j: int|
                0 <= i < init.len() && 0 <= j < init.len() && i != j implies #[trigger] init[i].key()
                    != #[trigger] init[j].key() by {
                assert(rows[i].key() != rows[j].key());
            }
        }
        lemma_without_at(init, id, p);
        assert(rows[n].key() != id);
        assert(rows.remove(p) =~= init.remove(p).push(rows[n]));
    }
}

proof fn lemma_rows_map_at<E: Entity>(rows: Seq<E>, i: int)
    requires
        keys_unique(rows),
        0 <= i < rows.len(),
    ensures
        rows_map(rows).contains_key(rows[i].key()),
        rows_map(rows)[rows[i].key()] == rows[i],
{
    let k = rows[i].key();
    assert(has_key(rows, k));
    let j = choose|j: int| 0 <= j < rows.len() && #[trigger] rows[j].key() == k;
    assert(rows[j].key() == k);
    if j != i {
        assert(rows[i].key() != rows[j].key());
    }
}

/// A table of rows keyed by id. Insertion order is kept for listing.
pub struct Table<E: Entity> {
    rows: Vec<E>,
}

impl<E: Entity> Table<E> {
    /// The rows in insertion order.
    pub closed spec fn entries(&self) -> Seq<E> {
        self.rows@
    }

    /// The rows by key.
    pub closed spec fn view(&self) -> Map<u128, E> {
        rows_map(self.rows@)
    }

    /// No two rows share a key.
    pub closed spec fn wf(&self) -> bool {
        keys_unique(self.rows@)
    }

    pub open spec fn lookup(&self, id: u128) -> Option<E> {
        if self@.contains_key(id) {
            Some(self@[id])
        } else {
            None
        }
    }

    /// Each listed row is the row of its key, and each key has a listed row.
    pub proof fn lemma_entries(&self)
        requires
            self.wf(),
        ensures
            forall|i: int|
                0 <= i < self.entries().len() ==> #[trigger] self.lookup(self.entries()[i].key())
                    == Some(self.entries()[i]),
            forall|k: u128| #[trigger] self@.contains_key(k) ==> has_key(self.entries(), k),
            keys_unique(self.entries()),
    {
        assert forall|i: int| 0 <= i < self.entries().len() implies #[trigger] self.lookup(
            self.entries()[i].key(),
        ) == Some(self.entries()[i]) by {
            lemma_rows_map_at(self.rows@, i);
        }
    }

    /// The row stored under a key carries that key.
    pub proof fn lemma_keys(&self)
        ensures
            forall|k: u128| #[trigger] self@.contains_key(k) ==> self@[k].key() == k,
    {
    }

    pub fn new() -> (r: Self)
        ensures
            r.wf(),
            r@ == Map::<u128, E>::empty(),
            r.entries() == Seq::<E>::empty(),
    {
        let r = Table { rows: Vec::new() };
        assert(r@ =~= Map::<u128, E>::empty());
        r
    }

    fn position(&self, id: u128) -> (r: Option<usize>)
        requires
            self.wf(),
        ensures
            match r {
                Some(i) => i < self.rows@.len() && self.rows@[i as int].key() == id,
                None => !has_key(self.rows@, id),
            },
    {
        let mut i: usize = 0;
        while i < self.rows.len()
            invariant
                i <= self.rows@.len(),
                forall|j: int| 0 <= j < i ==> #[trigger] self.rows@[j].key() != id,
            decreases self.rows@.len() - i,
        {
            if self.rows[i].id() == id {
                return Some(i);
            }
            i = i + 1;
        }
        None
    }

    pub fn contains(&self, id: u128) -> (r: bool)
        requires
            self.wf(),
        ensures
            r == self@.contains_key(id),
    {
        self.position(id).is_some()
    }

    /// A copy of the row with key `id`, if there is one.
    pub fn get(&self, id: u128) -> (r: Option<E>)
        requires
            self.wf(),
        ensures
            r == self.lookup(id),
            r matches Some(e) ==> e.key() == id,
    {
        match self.position(id) {
            Some(i) => {
                proof {
                    lemma_rows_map_at(self.rows@, i as int);
                }
                Some(self.rows[i].duplicate())
            },
            None => None,
        }
    }

    /// Every row, in insertion order.
    pub fn list(&self) -> (r: Vec<E>)
        ensures
            r@ == self.entries(),
    {
        let mut out: Vec<E> = Vec::new();
        let mut i: usize = 0;
        while i < self.rows.len()
            invariant
                i <= self.rows@.len(),
                out@ == self.rows@.subrange(0, i as int),
            decreases self.rows@.len() - i,
        {
            out.push(self.rows[i].duplicate());
            i = i + 1;
            assert(out@ =~= self.rows@.subrange(0, i as int));
        }
        assert(out@ =~= self.rows@);
        out
    }

    /// Adds `row` unless its key is taken; says whether it was added.
    pub fn insert(&mut self, row: E) -> (added: bool)
        requires
            old(self).wf(),
        ensures
            final(self).wf(),
            added == !old(self)@.contains_key(row.key()),
            added ==> final(self)@ == old(self)@.insert(row.key(), row),
            added ==> final(self).entries() == old(self).entries().push(row),
            !added ==> *final(self) == *old(self),
    {
        let k = row.id();
        if self.position(k).is_some() {
            return false;
        }
        let ghost before = self.rows@;
        self.rows.push(row);
        let ghost after = self.rows@;
        assert(keys_unique(after)) by {
            assert forall|i: int, j: int|
                0 <= i < after.len() && 0 <= j < after.len() && i != j implies #[trigger] after[i].key()
                    != #[trigger] after[j].key() by {
                if i < before.len() && j < before.len() {
                    assert(before[i] == after[i] && before[j] == after[j]);
                } else if i == before.len() {
                    assert(before[j] == after[j]);
                } else {
                    assert(before[i] == after[i]);
                }
            }
        }
        proof {
            let m = rows_map(after);
            let expect = rows_map(before).insert(k, row);
            assert forall|key: u128| #[trigger] m.contains_key(key) == expect.contains_key(key) by {
                if has_key(after, key) {
                    let i = choose|i: int| 0 <= i < after.len() && #[trigger] after[i].key() == key;
                    if i < before.len() {
                        assert(before[i] == after[i]);
                    }
                }
                if has_key(before, key) {
                    let i = choose|i: int| 0 <= i < before.len() && #[trigger] before[i].key() == key;
                    assert(before[i] == after[i]);
                }
                if key == k {
                    assert(after[before.len() as int].key() == key);
                }
            }
            assert forall|key: u128| #[trigger] m.contains_key(key) implies m[key] == expect[key] by {
                let i = choose|i: int| 0 <= i < after.len() && #[trigger] after[i].key() == key;
                lemma_rows_map_at(after, i);
                if i < before.len() {
                    assert(before[i] == after[i]);
                    lemma_rows_map_at(before, i);
                }
            }
            assert(m =~= expect);
        }
        true
    }
    /// Overwrites the row with the key of `row`, if there is one; says whether it did.
    pub fn replace(&mut self, row: E) -> (found: bool)
        requires
            old(self).wf(),
        ensures
            final(self).wf(),
            found == old(self)@.contains_key(row.key()),
            found ==> final(self)@ == old(self)@.insert(row.key(), row),
            final(self).entries() == replaced(old(self).entries(), row),
            !found ==> *final(self) == *old(self),
    {
        let k = row.id();
        match self.position(k) {
            None => {
                assert(self.rows@ =~= replaced(self.rows@, row));
                false
            },
            Some(p) => {
                let ghost before = self.rows@;
                self.rows.set(p, row);
                let ghost after = self.rows@;
                assert forall|i: int| 0 <= i < after.len() implies #[trigger] after[i].key()
                    == before[i].key() by {
                    if i != p {
                        assert(after[i] == before[i]);
                    }
                }
                assert forall|i: int| 0 <= i < before.len() && i != p implies before[i].key() != k by {
                    assert(before[i].key() != before[p as int].key());
                }
                assert(after =~= replaced(before, row));
                assert(keys_unique(after)) by {
                    assert forall|i: int, j: int|
                        0 <= i < after.len() && 0 <= j < after.len() && i != j implies #[trigger] after[i].key()
                            != #[trigger] after[j].key() by {
                        assert(after[i].key() == before[i].key());
                        assert(after[j].key() == before[j].key());
                    }
                }
                proof {
                    let m = rows_map(after);
                    let expect = rows_map(before).insert(k, row);
                    assert forall|key: u128| #[trigger] m.contains_key(key) == expect.contains_key(key) by {
                        if has_key(after, key) {
                            let i = choose|i: int| 0 <= i < after.len() && #[trigger] after[i].key() == key;
                            assert(before[i].key() == key);
                        }
                        if has_key(before, key) {
                            let i = choose|i: int| 0 <= i < before.len() && #[trigger] before[i].key() == key;
                            assert(after[i].key() == key);
                        }
                        if key == k {
                            assert(after[p as int].key() == key);
                        }
                    }
                    assert forall|key: u128| #[trigger] m.contains_key(key) implies m[key] == expect[key] by {
                        let i = choose|i: int| 0 <= i < after.len() && #[trigger] after[i].key() == key;
                        lemma_rows_map_at(after, i);
                        if i != p {
                            assert(before[i] == after[i]);
                            lemma_rows_map_at(before, i);
                        }
                    }
                    assert(m =~= expect);
                }
                true
            },
        }
    }

    /// Deletes the row with key `id`, if there is one; says whether it did.
    pub fn remove(&mut self, id: u128) -> (found: bool)
        requires
            old(self).wf(),
        ensures
            final(self).wf(),
            found == old(self)@.contains_key(id),
            final(self)@ == old(self)@.remove(id),
            final(self).entries() == without(old(self).entries(), id),
            !found ==> *final(self) == *old(self),
    {
        match self.position(id) {
            None => {
                proof {
                    assert(self@ =~= self@.remove(id));
                    lemma_without_absent(self.rows@, id);
                }
                false
            },
            Some(p) => {
                let ghost before = self.rows@;
                let _gone = self.rows.remove(p);
                let ghost after = self.rows@;
                proof {
                    lemma_without_at(before, id, p as int);
                }
                assert forall|i: int| 0 <= i < after.len() implies #[trigger] after[i] == before[if i
                    < p { i } else { i + 1 }] by {}
                assert(keys_unique(after)) by {
                    assert forall|i: int, j: int|
                        0 <= i < after.len() && 0 <= j < after.len() && i != j implies #[trigger] after[i].key()
                            != #[trigger] after[j].key() by {
                        let bi = if i < p { i } else { i + 1 };
                        let bj = if j < p { j } else { j + 1 };
                        assert(after[i] == before[bi]);
                        assert(after[j] == before[bj]);
                    }
                }
                proof {
                    let m = rows_map(after);
                    let expect = rows_map(before).remove(id);
                    assert forall|key: u128| #[trigger] m.contains_key(key) == expect.contains_key(key) by {
                        if has_key(after, key) {
                            let i = choose|i: int| 0 <= i < after.len() && #[trigger] after[i].key() == key;
                            let bi = if i < p { i } else { i + 1 };
                            assert(after[i] == before[bi]);
                            assert(bi != p);
                        }
                        if has_key(before, key) && key != id {
                            let i = choose|i: int| 0 <= i < before.len() && #[trigger] before[i].key() == key;
                            assert(i != p);
                            let ai = if i < p { i } else { i - 1 };
                            assert(after[ai] == before[i]);
                        }
                    }
                    assert forall|key: u128| #[trigger] m.contains_key(key) implies m[key] == expect[key] by {
                        let i = choose|i: int| 0 <= i < after.len() && #[trigger] after[i].key() == key;
                        lemma_rows_map_at(after, i);
                        let bi = if i < p { i } else { i + 1 };
                        assert(after[i] == before[bi]);
                        lemma_rows_map_at(before, bi);
                    }
                    assert(m =~= expect);
                }
                true
            },
        }
    }
}

} // verus!
