use vstd::prelude::*;

verus! {

/// A stored row: a surrogate local id, the aggregator's external id (the idempotency
/// key) and the row's fields.
pub struct Row<D> {
    pub local_id: u128,
    pub external_id: String,
    pub data: D,
}

/// The rows of one entity table.
pub struct Table<D> {
    pub rows: Vec<Row<D>>,
}

/// No two rows share an external id, and every local id is below `bound`, the next id
/// that the store will hand out.
pub open spec fn rows_wf<D>(rows: Seq<Row<D>>, bound: int) -> bool {
    &&& forall|i: int, j: int|
        0 <= i < rows.len() && 0 <= j < rows.len() && i != j ==> #[trigger] rows[i].external_id@
            != #[trigger] rows[j].external_id@
    &&& forall|i: int| 0 <= i < rows.len() ==> #[trigger] rows[i].local_id < bound
}

pub open spec fn rows_has<D>(rows: Seq<Row<D>>, k: Seq<char>) -> bool {
    exists|i: int| 0 <= i < rows.len() && #[trigger] rows[i].external_id@ == k
}

pub open spec fn rows_index<D>(rows: Seq<Row<D>>, k: Seq<char>) -> int {
    choose|i: int| 0 <= i < rows.len() && #[trigger] rows[i].external_id@ == k
}

/// The table as a map from external id to local id and fields.
pub open spec fn rows_view<D>(rows: Seq<Row<D>>) -> Map<Seq<char>, (u128, D)> {
    Map::new(
        |k: Seq<char>| rows_has(rows, k),
        |k: Seq<char>| (rows[rows_index(rows, k)].local_id, rows[rows_index(rows, k)].data),
    )
}

/// With unique external ids, the row that carries a key is the one the view reads.
pub proof fn lemma_index_unique<D>(rows: Seq<Row<D>>, bound: int, i: int)
    requires
        rows_wf(rows, bound),
        0 <= i < rows.len(),
    ensures
        rows_has(rows, rows[i].external_id@),
        rows_index(rows, rows[i].external_id@) == i,
        rows_view(rows).contains_key(rows[i].external_id@),
        rows_view(rows)[rows[i].external_id@] == (rows[i].local_id, rows[i].data),
{
    let k = rows[i].external_id@;
    assert(rows_has(rows, k));
    let j = rows_index(rows, k);
    if j != i {
        assert(rows[j].external_id@ != rows[i].external_id@);
    }
}

/// Updating the fields of the row at `i` updates the view at its key only.
pub proof fn lemma_view_update<D>(rows: Seq<Row<D>>, bound: int, i: int, data: D)
    requires
        rows_wf(rows, bound),
        0 <= i < rows.len(),
    ensures
        ({
            let new_rows = rows.update(
                i,
                Row { local_id: rows[i].local_id, external_id: rows[i].external_id, data },
            );
            &&& rows_wf(new_rows, bound)
            &&& rows_view(new_rows) == rows_view(rows).insert(
                rows[i].external_id@,
                (rows[i].local_id, data),
            )
        }),
{
    let new_rows = rows.update(
        i,
        Row { local_id: rows[i].local_id, external_id: rows[i].external_id, data },
    );
    assert forall|a: int, b: int|
        0 <= a < new_rows.len() && 0 <= b < new_rows.len() && a != b implies #[trigger] new_rows[a].external_id@
        != #[trigger] new_rows[b].external_id@ by {
        assert(rows[a].external_id@ != rows[b].external_id@);
    }
    assert forall|a: int| 0 <= a < new_rows.len() implies #[trigger] new_rows[a].local_id < bound by {
        assert(rows[a].local_id < bound);
    }
    let k = rows[i].external_id@;
    let lhs = rows_view(new_rows);
    let rhs = rows_view(rows).insert(k, (rows[i].local_id, data));
    assert forall|x: Seq<char>| lhs.contains_key(x) <==> rhs.contains_key(x) by {
        if lhs.contains_key(x) {
            assert(rows_has(new_rows, x));
            let j = rows_index(new_rows, x);
            assert(rows[j].external_id@ == x);
            assert(rows_has(rows, x));
        }
        if rhs.contains_key(x) {
            if x != k {
                assert(rows_has(rows, x));
                let j = rows_index(rows, x);
                assert(new_rows[j].external_id@ == x);
                assert(rows_has(new_rows, x));
            } else {
                assert(new_rows[i].external_id@ == x);
                assert(rows_has(new_rows, x));
            }
        }
    }
    assert forall|x: Seq<char>| #[trigger] lhs.contains_key(x) implies lhs[x] == rhs[x] by {
        let j = rows_index(new_rows, x);
        assert(new_rows[j].external_id@ == x);
        lemma_index_unique(new_rows, bound, j);
        if x != k {
            assert(rows[j].external_id@ == x);
            lemma_index_unique(rows, bound, j);
        }
    }
    assert(lhs =~= rhs);
}

/// Appending a row with a new key and a fresh id adds that key to the view.
pub proof fn lemma_view_push<D>(rows: Seq<Row<D>>, bound: int, row: Row<D>)
    requires
        rows_wf(rows, bound),
        !rows_has(rows, row.external_id@),
        row.local_id == bound,
    ensures
        rows_wf(rows.push(row), bound + 1),
        rows_view(rows.push(row)) == rows_view(rows).insert(
            row.external_id@,
            (row.local_id, row.data),
        ),
{
    let new_rows = rows.push(row);
    let n = rows.len() as int;
    assert forall|a: int, b: int|
        0 <= a < new_rows.len() && 0 <= b < new_rows.len() && a != b implies #[trigger] new_rows[a].external_id@
        != #[trigger] new_rows[b].external_id@ by {
        if a < n && b < n {
            assert(rows[a].external_id@ != rows[b].external_id@);
        } else if a < n {
            assert(rows[a].external_id@ == new_rows[a].external_id@);
        } else {
            assert(rows[b].external_id@ == new_rows[b].external_id@);
        }
    }
    assert forall|a: int| 0 <= a < new_rows.len() implies #[trigger] new_rows[a].local_id < bound
        + 1 by {
        if a < n {
            assert(rows[a].local_id < bound);
        }
    }
    let k = row.external_id@;
    let lhs = rows_view(new_rows);
    let rhs = rows_view(rows).insert(k, (row.local_id, row.data));
    assert forall|x: Seq<char>| lhs.contains_key(x) <==> rhs.contains_key(x) by {
        if lhs.contains_key(x) && x != k {
            let j = rows_index(new_rows, x);
            assert(rows[j].external_id@ == x);
        }
        if rhs.contains_key(x) {
            if x == k {
                assert(new_rows[n].external_id@ == x);
            } else {
                let j = rows_index(rows, x);
                assert(new_rows[j].external_id@ == x);
            }
        }
    }
    assert forall|x: Seq<char>| #[trigger] lhs.contains_key(x) implies lhs[x] == rhs[x] by {
        let j = rows_index(new_rows, x);
        assert(new_rows[j].external_id@ == x);
        lemma_index_unique(new_rows, bound + 1, j);
        if x != k {
            assert(rows[j].external_id@ == x);
            lemma_index_unique(rows, bound, j);
        }
    }
    assert(lhs =~= rhs);
}

/// Removing the row at `i` removes its key from the view.
pub proof fn lemma_view_remove<D>(rows: Seq<Row<D>>, bound: int, i: int)
    requires
        rows_wf(rows, bound),
        0 <= i < rows.len(),
    ensures
        rows_wf(rows.remove(i), bound),
        rows_view(rows.remove(i)) == rows_view(rows).remove(rows[i].external_id@),
{
    let new_rows = rows.remove(i);
    let old_at = |a: int| if a < i { a } else { a + 1 };
    assert forall|a: int| 0 <= a < new_rows.len() implies new_rows[a] == rows[old_at(a)] by {}
    assert forall|a: int, b: int|
        0 <= a < new_rows.len() && 0 <= b < new_rows.len() && a != b implies #[trigger] new_rows[a].external_id@
        != #[trigger] new_rows[b].external_id@ by {
        assert(rows[old_at(a)].external_id@ != rows[old_at(b)].external_id@);
    }
    assert forall|a: int| 0 <= a < new_rows.len() implies #[trigger] new_rows[a].local_id < bound by {
        assert(rows[old_at(a)].local_id < bound);
    }
    let k = rows[i].external_id@;
    let lhs = rows_view(new_rows);
    let rhs = rows_view(rows).remove(k);
    assert forall|x: Seq<char>| lhs.contains_key(x) <==> rhs.contains_key(x) by {
        if lhs.contains_key(x) {
            let j = rows_index(new_rows, x);
            assert(rows[old_at(j)].external_id@ == x);
            assert(old_at(j) != i);
        }
        if rhs.contains_key(x) {
            let j = rows_index(rows, x);
            assert(j != i);
            let a = if j < i { j } else { j - 1 };
            assert(new_rows[a].external_id@ == x);
        }
    }
    assert forall|x: Seq<char>| #[trigger] lhs.contains_key(x) implies lhs[x] == rhs[x] by {
        let j = rows_index(new_rows, x);
        assert(new_rows[j].external_id@ == x);
        lemma_index_unique(new_rows, bound, j);
        assert(rows[old_at(j)].external_id@ == x);
        lemma_index_unique(rows, bound, old_at(j));
    }
    assert(lhs =~= rhs);
}

impl<D> Table<D> {
    /// The table as a map from external id to local id and fields.
    pub open spec fn view_map(&self) -> Map<Seq<char>, (u128, D)> {
        rows_view(self.rows@)
    }

    pub open spec fn wf(&self, bound: int) -> bool {
        rows_wf(self.rows@, bound)
    }

    /// An empty table.
    pub fn new() -> (r: Table<D>)
        ensures
            r.view_map() == Map::<Seq<char>, (u128, D)>::empty(),
            forall|b: int| r.wf(b),
    {
        let r = Table { rows: Vec::new() };
        assert(r.view_map() =~= Map::<Seq<char>, (u128, D)>::empty());
        r
    }

    /// The position of the row whose external id is `key`, if there is one.
    pub fn find(&self, key: &String) -> (r: Option<usize>)
        ensures
            r matches Some(i) ==> i < self.rows@.len() && self.rows@[i as int].external_id@
                == key@,
            r is None ==> !self.view_map().contains_key(key@),
    {
        let mut i: usize = 0;
        while i < self.rows.len()
            invariant
                i <= self.rows@.len(),
                forall|j: int| 0 <= j < i ==> #[trigger] self.rows@[j].external_id@ != key@,
            decreases self.rows@.len() - i,
        {
            if self.rows[i].external_id == *key {
                return Some(i);
            }
            i = i + 1;
        }
        None
    }

    /// Reads the local id and fields stored under `key`.
    pub(crate) fn get(&self, key: &String, Ghost(bound): Ghost<int>) -> (r: Option<&Row<D>>)
        requires
            self.wf(bound),
        ensures
            r is None <==> !self.view_map().contains_key(key@),
            r matches Some(row) ==> row.external_id@ == key@ && self.view_map()[key@] == (
                row.local_id,
                row.data,
            ),
    {
        match self.find(key) {
            Some(i) => {
                proof {
                    lemma_index_unique(self.rows@, bound, i as int);
                }
                Some(&self.rows[i])
            },
            None => None,
        }
    }

    /// Inserts or overwrites the row keyed by `key`: an existing row keeps its local id and
    /// takes `data`; a new row gets the local id `fresh`. Returns the row's local id.
    pub(crate) fn upsert(&mut self, key: String, data: D, fresh: u128, Ghost(bound): Ghost<int>) -> (r: u128)
        requires
            old(self).wf(bound),
            fresh == bound,
        ensures
            old(self).view_map().contains_key(key@) ==> r == old(self).view_map()[key@].0
                && final(self).wf(bound),
            !old(self).view_map().contains_key(key@) ==> r == fresh && final(self).wf(bound + 1),
            final(self).view_map() == old(self).view_map().insert(key@, (r, data)),
    {
        match self.find(&key) {
            Some(i) => {
                proof {
                    lemma_index_unique(self.rows@, bound, i as int);
                    lemma_view_update(self.rows@, bound, i as int, data);
                }
                self.rows[i].data = data;
                self.rows[i].local_id
            },
            None => {
                let row = Row { local_id: fresh, external_id: key, data };
                proof {
                    lemma_view_push(self.rows@, bound, row);
                }
                self.rows.push(row);
                fresh
            },
        }
    }

    /// Removes the row keyed by `key`, if there is one; says whether one was removed.
    pub(crate) fn remove(&mut self, key: &String, Ghost(bound): Ghost<int>) -> (r: bool)
        requires
            old(self).wf(bound),
        ensures
            r == old(self).view_map().contains_key(key@),
            final(self).wf(bound),
            final(self).view_map() == old(self).view_map().remove(key@),
    {
        match self.find(key) {
            Some(i) => {
                proof {
                    lemma_index_unique(self.rows@, bound, i as int);
                    lemma_view_remove(self.rows@, bound, i as int);
                }
                self.rows.remove(i);
                true
            },
            None => {
                assert(self.view_map().remove(key@) =~= self.view_map());
                false
            },
        }
    }
}

} // verus!
