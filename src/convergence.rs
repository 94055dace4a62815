//! Laws of whole runs of gateway writes: what a run leaves alone, and why running one
//! item's sync twice, or two syncs interleaved, converges.
use vstd::prelude::*;
use crate::dates::CalendarDate;
use crate::store::{StoreView, StoreWrite, WriteEffect, add_skipped, lemma_write_idempotent, run_writes, write_effect};
use crate::sync::{
    AccountFeed, ItemSnapshot, SyncError, account_write, feeds_plan, item_plan, synced,
    transaction_write, transaction_writes,
};
use crate::pluggy::models::Transaction;

verus! {

/// The four tables of the store.
pub enum Tab {
    Items,
    Accounts,
    Transactions,
    Balances,
}

/// The write may change the row keyed by `k` in table `t`.
pub open spec fn touches(w: StoreWrite, t: Tab, k: Seq<char>) -> bool {
    match w {
        StoreWrite::RefreshItem { item_external_id, .. } => t == Tab::Items && k == item_external_id@,
        StoreWrite::UpsertAccount { external_id, .. } => t == Tab::Accounts && k == external_id@,
        StoreWrite::UpsertTransaction { external_id, .. } => t == Tab::Transactions && k
            == external_id@,
        StoreWrite::UpsertBalance { external_id, account_external_id, .. } => (t == Tab::Balances
            && k == external_id@) || (t == Tab::Accounts && k == account_external_id@),
        StoreWrite::DeleteTransaction { external_id } => t == Tab::Transactions && k
            == external_id@,
    }
}

/// The row keyed by `k` in table `t` decides what the write does: the row it writes or the
/// parent it resolves.
pub open spec fn depends_on(w: StoreWrite, t: Tab, k: Seq<char>) -> bool {
    touches(w, t, k) || match w {
        StoreWrite::UpsertAccount { item_external_id, .. } => t == Tab::Items && k
            == item_external_id@,
        StoreWrite::UpsertTransaction { account_external_id, .. } => t == Tab::Accounts && k
            == account_external_id@,
        _ => false,
    }
}

/// Two contents hold the same row (or none) under `k` in table `t`.
pub open spec fn agree_at(a: StoreView, b: StoreView, t: Tab, k: Seq<char>) -> bool {
    match t {
        Tab::Items => a.items.contains_key(k) == b.items.contains_key(k) && (a.items.contains_key(k)
            ==> a.items[k] == b.items[k]),
        Tab::Accounts => a.accounts.contains_key(k) == b.accounts.contains_key(k) && (
        a.accounts.contains_key(k) ==> a.accounts[k] == b.accounts[k]),
        Tab::Transactions => a.transactions.contains_key(k) == b.transactions.contains_key(k) && (
        a.transactions.contains_key(k) ==> a.transactions[k] == b.transactions[k]),
        Tab::Balances => a.balances.contains_key(k) == b.balances.contains_key(k) && (
        a.balances.contains_key(k) ==> a.balances[k] == b.balances[k]),
    }
}

/// Making the write again at `v` changes nothing.
pub open spec fn settled(v: StoreView, w: StoreWrite) -> bool {
    write_effect(v, w) == WriteEffect::Done(v) || write_effect(v, w) is Skipped
}

/// No write changes a row that an earlier write of the sequence depends on.
pub open spec fn non_interfering(ws: Seq<StoreWrite>) -> bool {
    forall|i: int, j: int, t: Tab, k: Seq<char>|
        #![trigger depends_on(ws[i], t, k), touches(ws[j], t, k)]
        0 <= i < j < ws.len() && depends_on(ws[i], t, k) ==> !touches(ws[j], t, k)
}

proof fn lemma_frame_one(v: StoreView, w: StoreWrite, t: Tab, k: Seq<char>)
    requires
        !touches(w, t, k),
    ensures
        write_effect(v, w) matches WriteEffect::Done(v2) ==> agree_at(v, v2, t, k),
{
}

/// A run leaves alone every row that none of its writes touches.
pub proof fn lemma_frame(v: StoreView, ws: Seq<StoreWrite>, t: Tab, k: Seq<char>)
    requires
        forall|i: int| 0 <= i < ws.len() ==> !touches(#[trigger] ws[i], t, k),
    ensures
        agree_at(v, run_writes(v, ws).0, t, k),
    decreases ws.len(),
{
    if ws.len() > 0 {
        let w = ws[0];
        let rest = ws.drop_first();
        assert forall|i: int| 0 <= i < rest.len() implies !touches(#[trigger] rest[i], t, k) by {
            assert(rest[i] == ws[i + 1]);
        }
        lemma_frame_one(v, w, t, k);
        match write_effect(v, w) {
            WriteEffect::Done(v2) => {
                lemma_frame(v2, rest, t, k);
            },
            WriteEffect::Skipped => {
                lemma_frame(v, rest, t, k);
            },
            WriteEffect::Exhausted => {},
        }
    }
}

/// Settledness carries over to contents that agree on every row the write depends on.
proof fn lemma_settled_transfer(a: StoreView, b: StoreView, w: StoreWrite)
    requires
        settled(a, w),
        write_effect(a, w) !is Exhausted,
        forall|t: Tab, k: Seq<char>| #[trigger] depends_on(w, t, k) ==> agree_at(a, b, t, k),
    ensures
        settled(b, w),
{
    match w {
        StoreWrite::RefreshItem { item_external_id, connector } => {
            let k = item_external_id@;
            assert(depends_on(w, Tab::Items, k));
            if b.items.contains_key(k) {
                assert(a.items.insert(k, (a.items[k].0, crate::store::ItemData { owner: a.items[k].1.owner, connector: Some(connector) })) == a.items);
                assert(b.items.insert(k, b.items[k]) =~= b.items);
            }
        },
        StoreWrite::UpsertAccount { external_id, item_external_id, fields } => {
            let k = external_id@;
            assert(depends_on(w, Tab::Accounts, k));
            assert(depends_on(w, Tab::Items, item_external_id@));
            if write_effect(a, w) == WriteEffect::Done(a) {
                assert(a.accounts.contains_key(k));
                assert(b.accounts.insert(k, b.accounts[k]) =~= b.accounts);
            }
        },
        StoreWrite::UpsertTransaction { external_id, account_external_id, fields } => {
            let k = external_id@;
            assert(depends_on(w, Tab::Transactions, k));
            assert(depends_on(w, Tab::Accounts, account_external_id@));
            if write_effect(a, w) == WriteEffect::Done(a) {
                assert(a.transactions.contains_key(k));
                assert(b.transactions.insert(k, b.transactions[k]) =~= b.transactions);
            }
        },
        StoreWrite::UpsertBalance { external_id, account_external_id, balance, currency } => {
            let k = external_id@;
            let ak = account_external_id@;
            assert(depends_on(w, Tab::Balances, k));
            assert(depends_on(w, Tab::Accounts, ak));
            if write_effect(a, w) == WriteEffect::Done(a) {
                assert(a.balances.contains_key(k));
                assert(b.balances.insert(k, b.balances[k]) =~= b.balances);
                assert(b.accounts.insert(ak, b.accounts[ak]) =~= b.accounts);
            }
        },
        StoreWrite::DeleteTransaction { external_id } => {
            let k = external_id@;
            assert(depends_on(w, Tab::Transactions, k));
            assert(!a.transactions.contains_key(k)) by {
                if a.transactions.contains_key(k) {
                    assert(!a.transactions.remove(k).contains_key(k));
                }
            }
            assert(b.transactions.remove(k) =~= b.transactions);
        },
    }
}

/// In a run without failure of non-interfering writes, every write is settled at the end.
proof fn lemma_all_settled(v: StoreView, ws: Seq<StoreWrite>)
    requires
        non_interfering(ws),
        run_writes(v, ws).1 is Ok,
    ensures
        forall|j: int| 0 <= j < ws.len() ==> settled(run_writes(v, ws).0, #[trigger] ws[j]),
    decreases ws.len(),
{
    if ws.len() > 0 {
        let w = ws[0];
        let rest = ws.drop_first();
        assert(non_interfering(rest)) by {
            assert forall|i: int, j: int, t: Tab, k: Seq<char>|
                0 <= i < j < rest.len() && depends_on(rest[i], t, k) implies !touches(
                rest[j],
                t,
                k,
            ) by {
                assert(rest[i] == ws[i + 1] && rest[j] == ws[j + 1]);
                assert(depends_on(ws[i + 1], t, k));
            }
        }
        let v1 = run_writes(v, ws).0;
        let vw = match write_effect(v, w) {
            WriteEffect::Done(v2) => v2,
            _ => v,
        };
        match write_effect(v, w) {
            WriteEffect::Done(v2) => {
                lemma_write_idempotent(v, w);
            },
            WriteEffect::Skipped => {
                assert(add_skipped(run_writes(v, rest).1, 1) is Ok ==> run_writes(v, rest).1 is Ok);
            },
            WriteEffect::Exhausted => {},
        }
        assert(run_writes(vw, rest).0 == v1);
        assert(run_writes(vw, rest).1 is Ok);
        lemma_all_settled(vw, rest);
        assert forall|t: Tab, k: Seq<char>| #[trigger] depends_on(w, t, k) implies agree_at(vw, v1, t, k) by {
            assert forall|i: int| 0 <= i < rest.len() implies !touches(#[trigger] rest[i], t, k) by {
                assert(rest[i] == ws[i + 1]);
                assert(depends_on(ws[0], t, k));
            }
            lemma_frame(vw, rest, t, k);
        }
        lemma_settled_transfer(vw, v1, w);
        assert forall|j: int| 0 <= j < ws.len() implies settled(v1, #[trigger] ws[j]) by {
            if j > 0 {
                assert(ws[j] == rest[j - 1]);
            }
        }
    }
}

/// A run of settled writes changes nothing and does not fail.
proof fn lemma_settled_run(u: StoreView, ws: Seq<StoreWrite>)
    requires
        forall|j: int| 0 <= j < ws.len() ==> settled(u, #[trigger] ws[j]),
    ensures
        run_writes(u, ws).0 == u,
        run_writes(u, ws).1 is Ok,
    decreases ws.len(),
{
    if ws.len() > 0 {
        let rest = ws.drop_first();
        assert(settled(u, ws[0]));
        assert forall|j: int| 0 <= j < rest.len() implies settled(u, #[trigger] rest[j]) by {
            assert(rest[j] == ws[j + 1]);
        }
        lemma_settled_run(u, rest);
    }
}

/// Running a non-interfering sequence of writes a second time, right after a run that did
/// not fail, changes nothing.
pub proof fn lemma_rerun_idempotent(v: StoreView, ws: Seq<StoreWrite>)
    requires
        non_interfering(ws),
        run_writes(v, ws).1 is Ok,
    ensures
        run_writes(run_writes(v, ws).0, ws).0 == run_writes(v, ws).0,
        run_writes(run_writes(v, ws).0, ws).1 is Ok,
{
    lemma_all_settled(v, ws);
    lemma_settled_run(run_writes(v, ws).0, ws);
}

/// The transactions fetched for a feed (none where the fetch failed).
pub open spec fn feed_txs(f: AccountFeed) -> Seq<Transaction> {
    match f.transactions {
        Ok(txs) => txs@,
        Err(_) => Seq::empty(),
    }
}

/// External ids are unique per entity: no two fetched accounts share an id, and no two
/// fetched transactions (of any accounts) share an id.
pub open spec fn feed_ids_unique(feeds: Seq<AccountFeed>) -> bool {
    &&& forall|i: int, j: int|
        0 <= i < feeds.len() && 0 <= j < feeds.len() && i != j ==> #[trigger] feeds[i].account.id@
            != #[trigger] feeds[j].account.id@
    &&& forall|m1: int, i1: int, m2: int, i2: int|
        0 <= m1 < feeds.len() && 0 <= m2 < feeds.len() && 0 <= i1 < feed_txs(feeds[m1]).len() && 0
            <= i2 < feed_txs(feeds[m2]).len() && (m1 != m2 || i1 != i2) ==> #[trigger] feed_txs(
            feeds[m1],
        )[i1].id@ != #[trigger] feed_txs(feeds[m2])[i2].id@
}

/// The upstream answer of one item has unique external ids.
pub open spec fn snapshot_ids_unique(snap: ItemSnapshot) -> bool {
    match snap.accounts {
        Ok(feeds) => feed_ids_unique(feeds@),
        Err(_) => true,
    }
}

/// A write of the feeds part of a plan, and the feed (and transaction) it comes from.
pub open spec fn from_feeds(w: StoreWrite, feeds: Seq<AccountFeed>) -> bool {
    match w {
        StoreWrite::UpsertAccount { external_id, .. } => exists|m: int|
            0 <= m < feeds.len() && external_id@ == #[trigger] feeds[m].account.id@,
        StoreWrite::UpsertTransaction { external_id, account_external_id, .. } => exists|
            m: int,
            p: int,
        |
            0 <= m < feeds.len() && 0 <= p < feed_txs(feeds[m]).len() && external_id@
                == #[trigger] feed_txs(feeds[m])[p].id@ && account_external_id@
                == feeds[m].account.id@,
        _ => false,
    }
}

proof fn lemma_feeds_members(item_key: String, feeds: Seq<AccountFeed>, today: CalendarDate)
    ensures
        forall|i: int|
            0 <= i < feeds_plan(item_key, feeds, today).0.len() ==> from_feeds(
                #[trigger] feeds_plan(item_key, feeds, today).0[i],
                feeds,
            ),
    decreases feeds.len(),
{
    if feeds.len() > 0 {
        let prefix = feeds.drop_last();
        lemma_feeds_members(item_key, prefix, today);
        let (a, out) = feeds_plan(item_key, prefix, today);
        let ws = feeds_plan(item_key, feeds, today).0;
        let last = feeds.len() - 1;
        let f = feeds.last();
        assert(feeds[last] == f);
        assert forall|i: int| 0 <= i < a.len() implies from_feeds(#[trigger] a[i], feeds) by {
            assert(from_feeds(a[i], prefix));
            match a[i] {
                StoreWrite::UpsertAccount { external_id, .. } => {
                    let m = choose|m: int|
                        0 <= m < prefix.len() && external_id@ == #[trigger] prefix[m].account.id@;
                    assert(feeds[m] == prefix[m]);
                    assert(external_id@ == feeds[m].account.id@);
                },
                StoreWrite::UpsertTransaction { external_id, account_external_id, .. } => {
                    let (m, p) = choose|m: int, p: int|
                        0 <= m < prefix.len() && 0 <= p < feed_txs(prefix[m]).len() && external_id@
                            == #[trigger] feed_txs(prefix[m])[p].id@ && account_external_id@
                            == prefix[m].account.id@;
                    assert(feeds[m] == prefix[m]);
                    assert(external_id@ == feed_txs(feeds[m])[p].id@);
                },
                _ => {},
            }
        }
        if out is Err {
            assert(ws == a);
        } else {
            let acc = account_write(item_key, f.account);
            assert(from_feeds(acc, feeds)) by {
                assert(feeds[last].account.id@ == f.account.id@);
            }
            match f.transactions {
                Err(e) => {
                    assert(ws == a.push(acc));
                    assert forall|i: int| 0 <= i < ws.len() implies from_feeds(#[trigger] ws[i], feeds) by {
                        if i < a.len() {
                            assert(ws[i] == a[i]);
                        }
                    }
                },
                Ok(txs) => {
                    let tw = transaction_writes(f.account.id, txs@, today);
                    assert(ws == a.push(acc) + tw);
                    assert forall|i: int| 0 <= i < ws.len() implies from_feeds(#[trigger] ws[i], feeds) by {
                        if i < a.len() {
                            assert(ws[i] == a[i]);
                        } else if i == a.len() {
                            assert(ws[i] == acc);
                        } else {
                            let p = i - a.len() - 1;
                            assert(ws[i] == tw[p]);
                            assert(tw[p] == transaction_write(f.account.id, txs@[p], today));
                            assert(feed_txs(feeds[last]) == txs@);
                            assert(feed_txs(feeds[last])[p].id@ == txs@[p].id@);
                        }
                    }
                },
            }
        }
    }
}

proof fn lemma_concat_non_interfering(a: Seq<StoreWrite>, b: Seq<StoreWrite>)
    requires
        non_interfering(a),
        non_interfering(b),
        forall|i: int, j: int, t: Tab, k: Seq<char>|
            #![trigger depends_on(a[i], t, k), touches(b[j], t, k)]
            0 <= i < a.len() && 0 <= j < b.len() && depends_on(a[i], t, k) ==> !touches(b[j], t, k),
    ensures
        non_interfering(a + b),
{
    let c = a + b;
    assert forall|i: int, j: int, t: Tab, k: Seq<char>|
        0 <= i < j < c.len() && depends_on(c[i], t, k) implies !touches(c[j], t, k) by {
        if j < a.len() {
            assert(c[i] == a[i] && c[j] == a[j]);
        } else if i < a.len() {
            assert(c[i] == a[i] && c[j] == b[j - a.len()]);
            assert(depends_on(a[i], t, k));
        } else {
            assert(c[i] == b[i - a.len()] && c[j] == b[j - a.len()]);
            assert(depends_on(b[i - a.len()], t, k));
        }
    }
}

proof fn lemma_feeds_plan_clean(item_key: String, feeds: Seq<AccountFeed>, today: CalendarDate)
    requires
        feed_ids_unique(feeds),
    ensures
        non_interfering(feeds_plan(item_key, feeds, today).0),
    decreases feeds.len(),
{
    if feeds.len() > 0 {
        let prefix = feeds.drop_last();
        let last = feeds.len() - 1;
        let f = feeds.last();
        assert(feeds[last] == f);
        assert forall|i: int| 0 <= i < prefix.len() implies #[trigger] prefix[i] == feeds[i] by {}
        assert(feed_ids_unique(prefix)) by {
            assert forall|m1: int, i1: int, m2: int, i2: int|
                0 <= m1 < prefix.len() && 0 <= m2 < prefix.len() && 0 <= i1 < feed_txs(
                    prefix[m1],
                ).len() && 0 <= i2 < feed_txs(prefix[m2]).len() && (m1 != m2 || i1 != i2) implies #[trigger] feed_txs(
                prefix[m1],
            )[i1].id@ != #[trigger] feed_txs(prefix[m2])[i2].id@ by {
                assert(prefix[m1] == feeds[m1] && prefix[m2] == feeds[m2]);
            }
        }
        lemma_feeds_plan_clean(item_key, prefix, today);
        let (a, out) = feeds_plan(item_key, prefix, today);
        if out is Ok {
            lemma_feeds_members(item_key, prefix, today);
            let txs = feed_txs(f);
            let tw = transaction_writes(f.account.id, txs, today);
            let b = seq![account_write(item_key, f.account)] + tw;
            assert(feeds_plan(item_key, feeds, today).0 =~= a + b);
            assert forall|p: int| 0 <= p < tw.len() implies #[trigger] tw[p] == transaction_write(
                f.account.id,
                txs[p],
                today,
            ) by {}
            assert(non_interfering(b)) by {
                assert forall|i: int, j: int, t: Tab, k: Seq<char>|
                    0 <= i < j < b.len() && depends_on(b[i], t, k) implies !touches(b[j], t, k) by {
                    assert(b[j] == tw[j - 1]);
                    if i > 0 {
                        assert(b[i] == tw[i - 1]);
                        assert(feed_txs(feeds[last])[i - 1].id@ != feed_txs(feeds[last])[j
                            - 1].id@);
                    }
                }
            }
            assert forall|i: int, j: int, t: Tab, k: Seq<char>|
                #![trigger depends_on(a[i], t, k), touches(b[j], t, k)]
                0 <= i < a.len() && 0 <= j < b.len() && depends_on(a[i], t, k) implies !touches(
                b[j],
                t,
                k,
            ) by {
                assert(from_feeds(a[i], prefix));
                if j > 0 {
                    assert(b[j] == tw[j - 1]);
                }
                match a[i] {
                    StoreWrite::UpsertAccount { external_id, .. } => {
                        let m = choose|m: int|
                            0 <= m < prefix.len() && external_id@ == #[trigger] prefix[m].account.id@;
                        assert(feeds[m].account.id@ != feeds[last].account.id@);
                    },
                    StoreWrite::UpsertTransaction { external_id, account_external_id, .. } => {
                        let (m, p) = choose|m: int, p: int|
                            0 <= m < prefix.len() && 0 <= p < feed_txs(prefix[m]).len()
                                && external_id@ == #[trigger] feed_txs(prefix[m])[p].id@
                                && account_external_id@ == prefix[m].account.id@;
                        assert(feeds[m].account.id@ != feeds[last].account.id@);
                        if j > 0 {
                            assert(feed_txs(feeds[m])[p].id@ != feed_txs(feeds[last])[j - 1].id@);
                        }
                    },
                    _ => {},
                }
            }
            lemma_concat_non_interfering(a, b);
        }
    }
}

/// With unique external ids upstream, no write of an item's sync plan changes a row that an
/// earlier write of the plan depends on.
pub proof fn lemma_item_plan_clean(item_key: String, snap: ItemSnapshot, today: CalendarDate)
    requires
        snapshot_ids_unique(snap),
    ensures
        non_interfering(item_plan(item_key, snap, today).0),
{
    let refresh = match snap.detail {
        Ok(item) => match item.connector {
            Some(c) => seq![StoreWrite::RefreshItem { item_external_id: item_key, connector: c }],
            None => Seq::<StoreWrite>::empty(),
        },
        Err(_) => Seq::<StoreWrite>::empty(),
    };
    match snap.accounts {
        Err(e) => {},
        Ok(feeds) => {
            let ws = feeds_plan(item_key, feeds@, today).0;
            lemma_feeds_plan_clean(item_key, feeds@, today);
            lemma_feeds_members(item_key, feeds@, today);
            assert forall|i: int, j: int, t: Tab, k: Seq<char>|
                #![trigger depends_on(refresh[i], t, k), touches(ws[j], t, k)]
                0 <= i < refresh.len() && 0 <= j < ws.len() && depends_on(refresh[i], t, k) implies !touches(
                ws[j],
                t,
                k,
            ) by {
                assert(from_feeds(ws[j], feeds@));
            }
            lemma_concat_non_interfering(refresh, ws);
        },
    }
}

/// Syncing an item twice in succession with unchanged upstream data (whose external ids
/// are unique) leaves the store exactly as syncing it once: the same rows, the same local
/// ids, the same fields, and the same result. Where the first sync failed on a fetch, the
/// second fails the same way; only a failed write (no local id left) is set aside.
pub proof fn lemma_sync_idempotent(v: StoreView, item_key: String, snap: ItemSnapshot, today: CalendarDate)
    requires
        snapshot_ids_unique(snap),
        !(synced(v, item_key, snap, today).1 matches Err(SyncError::Persistence(_))),
    ensures
        synced(synced(v, item_key, snap, today).0, item_key, snap, today) == synced(
            v,
            item_key,
            snap,
            today,
        ),
{
    let ws = item_plan(item_key, snap, today).0;
    lemma_item_plan_clean(item_key, snap, today);
    assert(run_writes(v, ws).1 is Ok);
    lemma_rerun_idempotent(v, ws);
}

/// The row that an upsert writes: its table and key.
pub open spec fn row_of(w: StoreWrite) -> (Tab, Seq<char>) {
    match w {
        StoreWrite::RefreshItem { item_external_id, .. } => (Tab::Items, item_external_id@),
        StoreWrite::UpsertAccount { external_id, .. } => (Tab::Accounts, external_id@),
        StoreWrite::UpsertTransaction { external_id, .. } => (Tab::Transactions, external_id@),
        StoreWrite::UpsertBalance { external_id, .. } => (Tab::Balances, external_id@),
        StoreWrite::DeleteTransaction { external_id } => (Tab::Transactions, external_id@),
    }
}

/// A run that did not fail splits at any point: its prefix did not fail, and running the
/// rest from where the prefix left the store ends where the whole run ends.
proof fn lemma_run_split(v: StoreView, ws: Seq<StoreWrite>, j: int)
    requires
        0 <= j <= ws.len(),
        run_writes(v, ws).1 is Ok,
    ensures
        run_writes(v, ws.take(j)).1 is Ok,
        run_writes(run_writes(v, ws.take(j)).0, ws.skip(j)).1 is Ok,
        run_writes(run_writes(v, ws.take(j)).0, ws.skip(j)).0 == run_writes(v, ws).0,
    decreases j,
{
    if j == 0 {
        assert(ws.skip(0) =~= ws);
        assert(ws.take(0).len() == 0);
    } else {
        let w = ws[0];
        let rest = ws.drop_first();
        assert(ws.take(j)[0] == w);
        assert(ws.take(j).drop_first() =~= rest.take(j - 1));
        assert(ws.skip(j) =~= rest.skip(j - 1));
        match write_effect(v, w) {
            WriteEffect::Done(v2) => {
                lemma_run_split(v2, rest, j - 1);
            },
            WriteEffect::Skipped => {
                assert(run_writes(v, rest).1 is Ok);
                lemma_run_split(v, rest, j - 1);
            },
            WriteEffect::Exhausted => {},
        }
    }
}

/// Concurrent syncs converge, last write wins: in any interleaving of writes (such as those
/// of a webhook-triggered and a scheduled sync of the same item) that runs without failure,
/// an upsert that was applied and that no later write of the run touches again decides its
/// row: at the end the row exists under its external id and holds exactly that write's
/// fields.
pub proof fn lemma_interleaved_last_write_wins(v: StoreView, ws: Seq<StoreWrite>, j: int)
    requires
        0 <= j < ws.len(),
        run_writes(v, ws).1 is Ok,
        write_effect(run_writes(v, ws.take(j)).0, ws[j]) is Done,
        forall|i: int| j < i < ws.len() ==> !touches(#[trigger] ws[i], row_of(ws[j]).0, row_of(ws[j]).1),
    ensures
        ({
            let fin = run_writes(v, ws).0;
            match ws[j] {
                StoreWrite::UpsertAccount { external_id, fields, .. } => fin.accounts.contains_key(
                    external_id@,
                ) && fin.accounts[external_id@].1.fields == fields,
                StoreWrite::UpsertTransaction { external_id, fields, .. } => fin.transactions.contains_key(
                    external_id@,
                ) && fin.transactions[external_id@].1.fields == fields,
                StoreWrite::UpsertBalance { external_id, balance, currency, .. } => fin.balances.contains_key(
                    external_id@,
                ) && fin.balances[external_id@].1.balance == balance
                    && fin.balances[external_id@].1.currency == currency,
                _ => true,
            }
        }),
{
    lemma_run_split(v, ws, j);
    let u = run_writes(v, ws.take(j)).0;
    let tail = ws.skip(j);
    let w = ws[j];
    assert(tail[0] == w);
    let u2 = match write_effect(u, w) {
        WriteEffect::Done(x) => x,
        _ => u,
    };
    let rest = tail.drop_first();
    assert(run_writes(u, tail).0 == run_writes(u2, rest).0);
    let (t, k) = row_of(w);
    assert forall|i: int| 0 <= i < rest.len() implies !touches(#[trigger] rest[i], t, k) by {
        assert(rest[i] == ws[j + 1 + i]);
    }
    lemma_frame(u2, rest, t, k);
}

} // verus!
