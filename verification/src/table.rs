//! The table of blob metadata rows, keyed by workspace and file id.

use vstd::prelude::*;
use crate::model::{lemma_total_insert, rows_total, workspace_total};
use crate::record::{BlobMetadataRow, LedgerMap};

verus! {

/// No two rows share a key.
pub open spec fn rows_distinct(rows: Seq<BlobMetadataRow>) -> bool {
    forall|i: int, j: int|
        #![trigger rows[i], rows[j]]
        0 <= i < j < rows.len() ==> rows[i].key() != rows[j].key()
}

/// The map that a sequence of rows stands for.
pub open spec fn rows_map(rows: Seq<BlobMetadataRow>) -> LedgerMap
    decreases rows.len(),
{
    if rows.len() == 0 {
        Map::empty()
    } else {
        rows_map(rows.drop_last()).insert(rows.last().key(), rows.last().info())
    }
}

/// Rows with distinct keys keep them distinct without the last row, whose
/// key is then none of theirs.
pub proof fn lemma_front_distinct(rows: Seq<BlobMetadataRow>)
    requires
        rows_distinct(rows),
        rows.len() > 0,
    ensures
        rows_distinct(rows.drop_last()),
        forall|i: int|
            #![trigger rows.drop_last()[i]]
            0 <= i < rows.len() - 1 ==> rows.drop_last()[i].key() != rows.last().key(),
{
    let front = rows.drop_last();
    assert forall|i: int, j: int| 0 <= i < j < front.len() implies (#[trigger] front[i]).key()
        != (#[trigger] front[j]).key() by {
        assert(front[i] == rows[i] && front[j] == rows[j]);
    }
    assert forall|i: int| 0 <= i < rows.len() - 1 implies (#[trigger] front[i]).key()
        != rows.last().key() by {
        assert(front[i] == rows[i]);
        assert(rows[rows.len() - 1] == rows.last());
    }
}

/// With distinct keys, the map holds exactly the rows: each row under its key,
/// and no key besides.
pub proof fn lemma_rows_map(rows: Seq<BlobMetadataRow>)
    requires
        rows_distinct(rows),
    ensures
        rows_map(rows).dom().finite(),
        rows_map(rows).dom().len() == rows.len(),
        forall|i: int|
            #![trigger rows[i]]
            0 <= i < rows.len() ==> rows_map(rows).contains_key(rows[i].key())
                && rows_map(rows)[rows[i].key()] == rows[i].info(),
        forall|k: (u128, Seq<char>)|
            rows_map(rows).contains_key(k) ==> exists|i: int|
                0 <= i < rows.len() && (#[trigger] rows[i]).key() == k,
    decreases rows.len(),
{
    if rows.len() > 0 {
        let front = rows.drop_last();
        let last = rows.last();
        lemma_front_distinct(rows);
        lemma_rows_map(front);
        assert(!rows_map(front).contains_key(last.key()));
        assert forall|i: int| 0 <= i < rows.len() implies rows_map(rows).contains_key(
            (#[trigger] rows[i]).key(),
        ) && rows_map(rows)[rows[i].key()] == rows[i].info() by {
            if i < front.len() {
                assert(front[i] == rows[i]);
            }
        }
        assert forall|k: (u128, Seq<char>)| rows_map(rows).contains_key(k) implies exists|i: int|
            0 <= i < rows.len() && (#[trigger] rows[i]).key() == k by {
            if k == last.key() {
                assert(rows[rows.len() - 1].key() == k);
            } else {
                let i = choose|i: int| 0 <= i < front.len() && (#[trigger] front[i]).key() == k;
                assert(rows[i] == front[i]);
            }
        }
    }
}

/// A row under a new key keeps the keys distinct and adds its key to the map.
pub proof fn lemma_rows_push(rows: Seq<BlobMetadataRow>, row: BlobMetadataRow)
    requires
        rows_distinct(rows),
        !rows_map(rows).contains_key(row.key()),
    ensures
        rows_distinct(rows.push(row)),
        rows_map(rows.push(row)) == rows_map(rows).insert(row.key(), row.info()),
{
    let after = rows.push(row);
    lemma_rows_map(rows);
    assert(after.drop_last() =~= rows);
    assert(after.last() == row);
    assert forall|i: int, j: int| 0 <= i < j < after.len() implies (#[trigger] after[i]).key()
        != (#[trigger] after[j]).key() by {
        assert(after[i] == rows[i]);
        if j < rows.len() {
            assert(after[j] == rows[j]);
        }
    }
}

/// A row that takes the place of the row under its key keeps the keys distinct
/// and gives the key its values.
pub proof fn lemma_rows_update(rows: Seq<BlobMetadataRow>, at: int, row: BlobMetadataRow)
    requires
        rows_distinct(rows),
        0 <= at < rows.len(),
        rows[at].key() == row.key(),
    ensures
        rows_distinct(rows.update(at, row)),
        rows_map(rows.update(at, row)) == rows_map(rows).insert(row.key(), row.info()),
{
    let after = rows.update(at, row);
    assert forall|i: int, j: int| 0 <= i < j < after.len() implies (#[trigger] after[i]).key()
        != (#[trigger] after[j]).key() by {
        assert(after[i].key() == rows[i].key());
        assert(after[j].key() == rows[j].key());
    }
    lemma_rows_map(rows);
    lemma_rows_map(after);
    let target = rows_map(rows).insert(row.key(), row.info());
    assert forall|k: (u128, Seq<char>)| rows_map(after).contains_key(k) implies target.contains_key(
        k,
    ) by {
        let i = choose|i: int| 0 <= i < after.len() && (#[trigger] after[i]).key() == k;
        assert(after[i].key() == rows[i].key());
    }
    assert forall|k: (u128, Seq<char>)| #[trigger] target.contains_key(k) implies rows_map(
        after,
    ).contains_key(k) && rows_map(after)[k] == target[k] by {
        if k == row.key() {
            assert(after[at] == row);
        } else {
            let i = choose|i: int| 0 <= i < rows.len() && (#[trigger] rows[i]).key() == k;
            assert(after[i] == rows[i]);
        }
    }
    assert(rows_map(after) =~= target);
}

/// Taking a row out keeps the keys distinct and takes its key out of the map.
pub proof fn lemma_rows_remove(rows: Seq<BlobMetadataRow>, at: int)
    requires
        rows_distinct(rows),
        0 <= at < rows.len(),
    ensures
        rows_distinct(rows.remove(at)),
        rows_map(rows.remove(at)) == rows_map(rows).remove(rows[at].key()),
{
    let after = rows.remove(at);
    assert forall|i: int| 0 <= i < after.len() implies #[trigger] after[i] == rows[if i < at {
        i
    } else {
        i + 1
    }] by {}
    assert forall|i: int, j: int| 0 <= i < j < after.len() implies (#[trigger] after[i]).key()
        != (#[trigger] after[j]).key() by {
        let si = if i < at { i } else { i + 1 };
        let sj = if j < at { j } else { j + 1 };
        assert(after[i] == rows[si] && after[j] == rows[sj]);
    }
    lemma_rows_map(rows);
    lemma_rows_map(after);
    let target = rows_map(rows).remove(rows[at].key());
    assert forall|k: (u128, Seq<char>)| rows_map(after).contains_key(k) implies target.contains_key(
        k,
    ) && rows_map(after)[k] == target[k] by {
        let i = choose|i: int| 0 <= i < after.len() && (#[trigger] after[i]).key() == k;
        let si = if i < at { i } else { i + 1 };
        assert(after[i] == rows[si]);
        assert(rows[si].key() != rows[at].key());
    }
    assert forall|k: (u128, Seq<char>)| target.contains_key(k) implies rows_map(after).contains_key(
        k,
    ) by {
        let i = choose|i: int| 0 <= i < rows.len() && (#[trigger] rows[i]).key() == k;
        let ai = if i < at { i } else { i - 1 };
        assert(after[ai] == rows[i]);
    }
    assert(rows_map(after) =~= target);
}

/// Summing row by row gives the total of the map.
pub proof fn lemma_rows_total(rows: Seq<BlobMetadataRow>, workspace_id: u128)
    requires
        rows_distinct(rows),
    ensures
        rows_total(rows, workspace_id) == workspace_total(rows_map(rows), workspace_id),
    decreases rows.len(),
{
    if rows.len() > 0 {
        let front = rows.drop_last();
        let last = rows.last();
        lemma_front_distinct(rows);
        lemma_rows_total(front, workspace_id);
        lemma_rows_map(front);
        assert(!rows_map(front).contains_key(last.key()));
        lemma_total_insert(rows_map(front), workspace_id, last.key(), last.info());
    } else {
        assert(rows_map(rows).dom() =~= Set::empty());
    }
}

/// The table of blob metadata: at most one row for each key.
pub struct BlobTable {
    rows: Vec<BlobMetadataRow>,
}

impl View for BlobTable {
    type V = LedgerMap;

    open spec fn view(&self) -> LedgerMap {
        rows_map(self.rows())
    }
}

impl BlobTable {
    /// The rows in the order in which the table holds them.
    pub closed spec fn rows(&self) -> Seq<BlobMetadataRow> {
        self.rows@
    }

    /// The table's invariant: the key is unique.
    pub open spec fn wf(&self) -> bool {
        rows_distinct(self.rows())
    }

    /// A table without rows.
    pub fn new() -> (table: BlobTable)
        ensures
            table.wf(),
            table.rows().len() == 0,
            table@ == Map::<(u128, Seq<char>), (Seq<char>, i64)>::empty(),
    {
        BlobTable { rows: Vec::new() }
    }

    /// The number of rows.
    pub fn len(&self) -> (n: usize)
        ensures
            n == self.rows().len(),
            self.wf() ==> n == self@.dom().len(),
    {
        proof {
            if self.wf() {
                lemma_rows_map(self.rows@);
            }
        }
        self.rows.len()
    }

    /// The row at an index.
    pub fn row(&self, i: usize) -> (row: &BlobMetadataRow)
        requires
            i < self.rows().len(),
        ensures
            *row == self.rows()[i as int],
    {
        &self.rows[i]
    }

    /// The index of the row under a key, if there is one.
    pub(crate) fn find(&self, workspace_id: u128, file_id: &String) -> (found: Option<usize>)
        requires
            self.wf(),
        ensures
            found is Some <==> self@.contains_key((workspace_id, file_id@)),
            found matches Some(i) ==> i < self.rows().len() && self.rows()[i as int].key() == (
                workspace_id,
                file_id@,
            ),
    {
        proof {
            lemma_rows_map(self.rows@);
        }
        let mut i: usize = 0;
        while i < self.rows.len()
            invariant
                i <= self.rows.len(),
                self@.contains_key((workspace_id, file_id@)) <==> exists|j: int|
                    0 <= j < self.rows.len() && (#[trigger] self.rows[j]).key() == (
                        workspace_id,
                        file_id@,
                    ),
                forall|j: int|
                    #![trigger self.rows[j]]
                    0 <= j < i ==> self.rows[j].key() != (workspace_id, file_id@),
            decreases self.rows.len() - i,
        {
            if self.rows[i].workspace_id == workspace_id && self.rows[i].file_id == *file_id {
                return Some(i);
            }
            i += 1;
        }
        None
    }

    /// Adds a row under a key that the table does not hold.
    pub(crate) fn push_row(&mut self, row: BlobMetadataRow)
        requires
            old(self).wf(),
            !old(self)@.contains_key(row.key()),
        ensures
            final(self).wf(),
            final(self).rows() == old(self).rows().push(row),
            final(self)@ == old(self)@.insert(row.key(), row.info()),
    {
        proof {
            lemma_rows_push(self.rows@, row);
        }
        self.rows.push(row);
    }

    /// Puts a row in the place of the row under the same key.
    pub(crate) fn replace_row(&mut self, i: usize, row: BlobMetadataRow)
        requires
            old(self).wf(),
            i < old(self).rows().len(),
            old(self).rows()[i as int].key() == row.key(),
        ensures
            final(self).wf(),
            final(self).rows() == old(self).rows().update(i as int, row),
            final(self)@ == old(self)@.insert(row.key(), row.info()),
    {
        proof {
            lemma_rows_update(self.rows@, i as int, row);
        }
        self.rows.set(i, row);
    }

    /// Takes the row at an index out of the table.
    pub(crate) fn remove_row(&mut self, i: usize)
        requires
            old(self).wf(),
            i < old(self).rows().len(),
        ensures
            final(self).wf(),
            final(self).rows() == old(self).rows().remove(i as int),
            final(self)@ == old(self)@.remove(old(self).rows()[i as int].key()),
    {
        proof {
            lemma_rows_remove(self.rows@, i as int);
        }
        self.rows.remove(i);
    }
}

} // verus!
