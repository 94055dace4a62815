use vstd::prelude::*;
use crate::dates::CalendarDate;
use crate::store::{LocalStore, StoreView};
use crate::sync::{ItemRef, ItemSnapshot, SyncError, sync_item_data, synced};

verus! {

/// Seconds between two reconciliation passes.
pub const RECONCILE_PERIOD_SECS: u64 = 60;

/// The outcome of one reconciliation pass: how many items synced, and the external ids of
/// those whose sync failed.
pub struct TickReport {
    pub succeeded: usize,
    pub failed: Vec<String>,
}

/// The store after syncing each item of a pass in turn, whatever the others' results.
pub open spec fn reconciled(v: StoreView, batch: Seq<(ItemRef, ItemSnapshot)>, today: CalendarDate) -> StoreView
    decreases batch.len(),
{
    if batch.len() == 0 {
        v
    } else {
        let before = reconciled(v, batch.drop_last(), today);
        synced(before, batch.last().0.external_id, batch.last().1, today).0
    }
}

/// The external ids of the items of a pass whose sync failed, in order.
pub open spec fn failures(v: StoreView, batch: Seq<(ItemRef, ItemSnapshot)>, today: CalendarDate) -> Seq<Seq<char>>
    decreases batch.len(),
{
    if batch.len() == 0 {
        Seq::empty()
    } else {
        let before = reconciled(v, batch.drop_last(), today);
        let earlier = failures(v, batch.drop_last(), today);
        if synced(before, batch.last().0.external_id, batch.last().1, today).1 is Err {
            earlier.push(batch.last().0.external_id@)
        } else {
            earlier
        }
    }
}

impl LocalStore {
    /// Every stored item, in storage order: what one reconciliation pass syncs.
    pub fn items_to_sync(&self) -> (r: Vec<ItemRef>)
        ensures
            r@.len() == self.items.rows@.len(),
            forall|i: int|
                0 <= i < r@.len() ==> (#[trigger] r@[i]).external_id == self.items.rows@[i].external_id
                    && r@[i].local_id == self.items.rows@[i].local_id && r@[i].owner
                    == self.items.rows@[i].data.owner,
    {
        let mut out: Vec<ItemRef> = Vec::new();
        let mut i: usize = 0;
        while i < self.items.rows.len()
            invariant
                i <= self.items.rows@.len(),
                out@.len() == i,
                forall|j: int|
                    0 <= j < i ==> (#[trigger] out@[j]).external_id == self.items.rows@[j].external_id
                        && out@[j].local_id == self.items.rows@[j].local_id && out@[j].owner
                        == self.items.rows@[j].data.owner,
            decreases self.items.rows@.len() - i,
        {
            let row = &self.items.rows[i];
            out.push(
                ItemRef {
                    local_id: row.local_id,
                    external_id: row.external_id.clone(),
                    owner: row.data.owner,
                },
            );
            i = i + 1;
        }
        out
    }
}

/// One reconciliation pass: syncs every item of the batch in turn. A failed sync is
/// recorded and the pass goes on with the next item.
pub fn reconcile(store: &mut LocalStore, batch: &Vec<(ItemRef, ItemSnapshot)>, today: CalendarDate) -> (r: TickReport)
    requires
        old(store).wf(),
    ensures
        final(store).wf(),
        final(store).view() == reconciled(old(store).view(), batch@, today),
        r.failed@.map_values(|s: String| s@) == failures(old(store).view(), batch@, today),
        r.succeeded + r.failed@.len() == batch@.len(),
{
    let ghost v0 = store.view();
    let mut succeeded: usize = 0;
    let mut failed: Vec<String> = Vec::new();
    let mut i: usize = 0;
    while i < batch.len()
        invariant
            i <= batch@.len(),
            store.wf(),
            v0 == old(store).view(),
            store.view() == reconciled(v0, batch@.subrange(0, i as int), today),
            failed@.map_values(|s: String| s@) == failures(v0, batch@.subrange(0, i as int), today),
            succeeded + failed@.len() == i,
        decreases batch@.len() - i,
    {
        let ghost next = batch@.subrange(0, i + 1);
        assert(next.drop_last() =~= batch@.subrange(0, i as int));
        assert(next.last() == batch@[i as int]);
        let entry = &batch[i];
        let result = sync_item_data(store, &entry.0, &entry.1, today);
        match result {
            Ok(()) => {
                succeeded = succeeded + 1;
            },
            Err(_) => {
                let ghost before = failed@;
                failed.push(entry.0.external_id.clone());
                assert(failed@.map_values(|s: String| s@) =~= before.map_values(|s: String| s@).push(
                    entry.0.external_id@,
                ));
            },
        }
        i = i + 1;
    }
    assert(batch@.subrange(0, batch@.len() as int) =~= batch@);
    TickReport { succeeded, failed }
}

} // verus!
