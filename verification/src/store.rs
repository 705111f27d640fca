//! A keyed record set with soft delete: the core's model of one relational
//! table. Rows are physically kept forever; deletion only stamps a
//! tombstone, and every "live" read composes the not-deleted filter.

use vstd::prelude::*;

verus! {

/// A record with a primary key.
pub trait Keyed: Sized {
    /// The primary key of the record.
    spec fn key_spec(&self) -> u128;

    /// Returns the primary key.
    fn key(&self) -> (k: u128)
        ensures
            k == self.key_spec(),
    ;
}

/// The mathematical value of a table: the rows in insertion order and,
/// positionally, the soft-delete timestamp of each (`None` = live).
pub struct TableModel<R> {
    pub rows: Seq<R>,
    pub tombs: Seq<Option<i64>>,
}

impl<R: Keyed> TableModel<R> {
    /// Well-formed: one tombstone per row, and keys are unique.
    pub open spec fn wf(self) -> bool {
        &&& self.tombs.len() == self.rows.len()
        &&& forall|i: int, j: int|
            0 <= i < self.rows.len() && 0 <= j < self.rows.len() && i != j
                ==> #[trigger] self.rows[i].key_spec() != #[trigger] self.rows[j].key_spec()
    }

    /// Some row (live or deleted) carries this key.
    pub open spec fn has_key(self, id: u128) -> bool {
        exists|i: int| 0 <= i < self.rows.len() && #[trigger] self.rows[i].key_spec() == id
    }

    /// The position of the row carrying this key.
    pub open spec fn index_of(self, id: u128) -> int {
        choose|i: int| 0 <= i < self.rows.len() && #[trigger] self.rows[i].key_spec() == id
    }

    /// The row carrying this key.
    pub open spec fn row_of(self, id: u128) -> R {
        self.rows[self.index_of(id)]
    }

    /// The key is present and not soft-deleted.
    pub open spec fn live(self, id: u128) -> bool {
        self.has_key(id) && self.tombs[self.index_of(id)] is None
    }

    /// The table after appending a row with a fresh key, live.
    pub open spec fn insert_new(self, r: R) -> Self {
        TableModel { rows: self.rows.push(r), tombs: self.tombs.push(None) }
    }

    /// The table after replacing the row at a position, tombstone kept.
    pub open spec fn overwrite(self, i: int, r: R) -> Self {
        TableModel { rows: self.rows.update(i, r), tombs: self.tombs }
    }

    /// The table after stamping the tombstone at a position, row kept.
    pub open spec fn delete_at(self, i: int, now: i64) -> Self {
        TableModel { rows: self.rows, tombs: self.tombs.update(i, Some(now)) }
    }

    /// How many of the first `n` tombstones are unset.
    pub open spec fn live_count_upto(self, n: int) -> int
        decreases n,
    {
        if n <= 0 {
            0
        } else {
            self.live_count_upto(n - 1) + if self.tombs[n - 1] is None {
                1int
            } else {
                0int
            }
        }
    }

    /// How many rows are live.
    pub open spec fn live_count(self) -> int {
        self.live_count_upto(self.tombs.len() as int)
    }

    /// Appending a fresh key keeps the table well-formed; the new row is
    /// live at the end, and no other key is disturbed.
    pub proof fn lemma_insert_new(self, r: R)
        requires
            self.wf(),
            !self.has_key(r.key_spec()),
        ensures
            self.insert_new(r).wf(),
            self.insert_new(r).has_key(r.key_spec()),
            self.insert_new(r).index_of(r.key_spec()) == self.rows.len(),
            self.insert_new(r).row_of(r.key_spec()) == r,
            self.insert_new(r).live(r.key_spec()),
            forall|id: u128|
                id != r.key_spec() ==> #[trigger] self.insert_new(r).has_key(id) == self.has_key(
                    id,
                ),
    {
        let m2 = self.insert_new(r);
        let n = self.rows.len() as int;
        assert(m2.rows[n] == r);
        assert forall|i: int| 0 <= i < n implies #[trigger] m2.rows[i].key_spec() != r.key_spec() by {
            assert(self.rows[i] == m2.rows[i]);
            assert(self.rows[i].key_spec() != r.key_spec());
        }
        assert(m2.wf());
        m2.lemma_index_of_unique(n, r.key_spec());
        assert(m2.tombs[n] is None);
        assert forall|id: u128| id != r.key_spec() implies #[trigger] m2.has_key(id)
            == self.has_key(id) by {
            if self.has_key(id) {
                let i = self.index_of(id);
                assert(m2.rows[i].key_spec() == id);
                assert(m2.has_key(id));
            }
            if m2.has_key(id) {
                let i = m2.index_of(id);
                assert(0 <= i < n + 1);
                assert(i != n);
                assert(self.rows[i].key_spec() == id);
                assert(self.has_key(id));
            }
        }
    }

    /// Replacing a row with one carrying the same key keeps the table
    /// well-formed; every key stays at its position, and only the replaced
    /// row changes.
    pub proof fn lemma_overwrite(self, i: int, r: R)
        requires
            self.wf(),
            0 <= i < self.rows.len(),
            r.key_spec() == self.rows[i].key_spec(),
        ensures
            self.overwrite(i, r).wf(),
            self.overwrite(i, r).has_key(r.key_spec()),
            self.overwrite(i, r).index_of(r.key_spec()) == i,
            self.overwrite(i, r).row_of(r.key_spec()) == r,
            forall|id: u128| #[trigger] self.overwrite(i, r).has_key(id) == self.has_key(id),
            forall|id: u128|
                self.has_key(id) ==> #[trigger] self.overwrite(i, r).index_of(id) == self.index_of(
                    id,
                ),
    {
        let m2 = self.overwrite(i, r);
        assert forall|k: int| 0 <= k < m2.rows.len() implies #[trigger] m2.rows[k].key_spec()
            == self.rows[k].key_spec() by {
            if k != i {
                assert(m2.rows[k] == self.rows[k]);
            }
        }
        assert(m2.wf());
        m2.lemma_index_of_unique(i, r.key_spec());
        assert forall|id: u128| #[trigger] m2.has_key(id) == self.has_key(id) by {
            if self.has_key(id) {
                let k = self.index_of(id);
                assert(m2.rows[k].key_spec() == id);
                assert(m2.has_key(id));
            }
            if m2.has_key(id) {
                let k = m2.index_of(id);
                assert(self.rows[k].key_spec() == id);
                assert(self.has_key(id));
            }
        }
        assert forall|id: u128| self.has_key(id) implies #[trigger] m2.index_of(id)
            == self.index_of(id) by {
            let k = self.index_of(id);
            assert(m2.rows[k].key_spec() == id);
            m2.lemma_index_of_unique(k, id);
        }
    }

    /// Stamping a tombstone keeps the table well-formed: the rows, the keys
    /// and their positions are untouched; the stamped row stops being live
    /// and every other row's liveness is kept.
    pub proof fn lemma_delete_at(self, i: int, now: i64)
        requires
            self.wf(),
            0 <= i < self.rows.len(),
        ensures
            self.delete_at(i, now).wf(),
            self.delete_at(i, now).has_key(self.rows[i].key_spec()),
            self.delete_at(i, now).index_of(self.rows[i].key_spec()) == i,
            !self.delete_at(i, now).live(self.rows[i].key_spec()),
            self.delete_at(i, now).row_of(self.rows[i].key_spec()) == self.rows[i],
            forall|id: u128|
                self.has_key(id) && self.index_of(id) != i ==> #[trigger] self.delete_at(
                    i,
                    now,
                ).live(id) == self.live(id),
    {
        let m2 = self.delete_at(i, now);
        assert(m2.rows == self.rows);
        self.lemma_index_of_unique(i, self.rows[i].key_spec());
        assert(m2.tombs[i] == Some(now));
    }

    /// In a well-formed table the row found at a key's position is the only
    /// row with that key.
    pub proof fn lemma_index_of_unique(self, i: int, id: u128)
        requires
            self.wf(),
            0 <= i < self.rows.len(),
            self.rows[i].key_spec() == id,
        ensures
            self.has_key(id),
            self.index_of(id) == i,
    {
        assert(self.has_key(id));
        let j = self.index_of(id);
        if j != i {
            assert(self.rows[i].key_spec() != self.rows[j].key_spec());
        }
    }
}

/// One table of the store. The tombstone is managed by the table, not by
/// the row, so no read path can forget the not-deleted filter.
pub struct Table<R> {
    rows: Vec<R>,
    tombstones: Vec<Option<i64>>,
}

impl<R: Keyed> Table<R> {
    /// The mathematical value of the table.
    pub closed spec fn model(&self) -> TableModel<R> {
        TableModel { rows: self.rows@, tombs: self.tombstones@ }
    }

    pub open spec fn row_seq(&self) -> Seq<R> {
        self.model().rows
    }

    pub open spec fn tomb_seq(&self) -> Seq<Option<i64>> {
        self.model().tombs
    }

    pub open spec fn len_spec(&self) -> nat {
        self.row_seq().len()
    }

    pub open spec fn wf(&self) -> bool {
        self.model().wf()
    }

    pub open spec fn has_key(&self, id: u128) -> bool {
        self.model().has_key(id)
    }

    pub open spec fn index_of(&self, id: u128) -> int {
        self.model().index_of(id)
    }

    pub open spec fn row_of(&self, id: u128) -> R {
        self.model().row_of(id)
    }

    pub open spec fn live(&self, id: u128) -> bool {
        self.model().live(id)
    }

    pub open spec fn live_count(&self) -> int {
        self.model().live_count()
    }

    pub fn new() -> (t: Table<R>)
        ensures
            t.wf(),
            t.row_seq() == Seq::<R>::empty(),
            t.tomb_seq() == Seq::<Option<i64>>::empty(),
    {
        Table { rows: Vec::new(), tombstones: Vec::new() }
    }

    pub fn len(&self) -> (n: usize)
        ensures
            n == self.len_spec(),
    {
        self.rows.len()
    }

    /// Finds the position of the row with this key, whatever its tombstone.
    pub fn find_index(&self, id: u128) -> (r: Option<usize>)
        requires
            self.wf(),
        ensures
            match r {
                Some(i) => self.has_key(id) && self.index_of(id) == i && i
                    < self.row_seq().len(),
                None => !self.has_key(id),
            },
    {
        let n = self.rows.len();
        let mut i: usize = 0;
        while i < n
            invariant
                self.wf(),
                n == self.row_seq().len(),
                0 <= i <= n,
                forall|j: int| 0 <= j < i ==> #[trigger] self.row_seq()[j].key_spec() != id,
            decreases n - i,
        {
            if self.rows[i].key() == id {
                proof {
                    self.model().lemma_index_of_unique(i as int, id);
                }
                return Some(i);
            }
            i += 1;
        }
        None
    }

    pub fn contains(&self, id: u128) -> (r: bool)
        requires
            self.wf(),
        ensures
            r == self.has_key(id),
    {
        self.find_index(id).is_some()
    }

    pub fn row_at(&self, i: usize) -> (r: &R)
        requires
            i < self.len_spec(),
        ensures
            *r == self.row_seq()[i as int],
    {
        &self.rows[i]
    }

    pub fn tomb_at(&self, i: usize) -> (r: Option<i64>)
        requires
            self.wf(),
            i < self.len_spec(),
        ensures
            r == self.tomb_seq()[i as int],
    {
        self.tombstones[i]
    }

    /// Appends a row with a fresh key, live.
    pub fn push_row(&mut self, r: R)
        requires
            old(self).wf(),
            !old(self).has_key(r.key_spec()),
        ensures
            final(self).wf(),
            final(self).model() == old(self).model().insert_new(r),
    {
        self.rows.push(r);
        self.tombstones.push(None);
    }

    /// Replaces the row at a position with one carrying the same key; the
    /// tombstone is untouched.
    pub fn set_row(&mut self, i: usize, r: R)
        requires
            old(self).wf(),
            i < old(self).len_spec(),
            r.key_spec() == old(self).row_seq()[i as int].key_spec(),
        ensures
            final(self).wf(),
            final(self).model() == old(self).model().overwrite(i as int, r),
    {
        self.rows.set(i, r);
    }

    /// Stamps the tombstone of the row at a position; the row is kept.
    pub fn set_deleted(&mut self, i: usize, now: i64)
        requires
            old(self).wf(),
            i < old(self).len_spec(),
        ensures
            final(self).wf(),
            final(self).model() == old(self).model().delete_at(i as int, now),
    {
        self.tombstones.set(i, Some(now));
    }

    /// Point lookup excluding soft-deleted rows.
    pub fn get_live(&self, id: u128) -> (r: Option<&R>)
        requires
            self.wf(),
        ensures
            match r {
                Some(row) => self.live(id) && *row == self.row_of(id),
                None => !self.live(id),
            },
    {
        match self.find_index(id) {
            Some(i) => {
                if self.tombstones[i].is_none() {
                    Some(&self.rows[i])
                } else {
                    None
                }
            },
            None => None,
        }
    }

    /// How many rows a live listing returns.
    pub fn count_live(&self) -> (n: usize)
        requires
            self.wf(),
        ensures
            n == self.live_count(),
    {
        let len = self.tombstones.len();
        let mut n: usize = 0;
        let mut i: usize = 0;
        while i < len
            invariant
                len == self.tomb_seq().len(),
                0 <= i <= len,
                n == self.model().live_count_upto(i as int),
                n <= i,
            decreases len - i,
        {
            if self.tombstones[i].is_none() {
                n += 1;
            }
            i += 1;
        }
        n
    }
}

} // verus!
