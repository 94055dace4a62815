use vstd::prelude::*;
use crate::dates::{CalendarDate, chrono_ymd, normalize_date, normalized_date};
use crate::money::{amount_or_zero, unwrap_amount};
use crate::pluggy::client::AggregatorError;
use crate::pluggy::models::{Account, Balance, Item, Transaction};
use crate::store::{
    AccountFields, LocalStore, PersistenceError, StoreView, StoreWrite, TransactionFields,
    read_status, run_writes, status_of,
};

verus! {

/// An item known locally: its local id, the aggregator's id for it, and its owner.
pub struct ItemRef {
    pub local_id: u128,
    pub external_id: String,
    pub owner: u128,
}

/// One fetched account with the outcome of fetching its transactions.
pub struct AccountFeed {
    pub account: Account,
    pub transactions: Result<Vec<Transaction>, AggregatorError>,
}

/// What the aggregator answered for one item: its detail, and its accounts each with its
/// transactions. A fetch that failed stands as its error.
pub struct ItemSnapshot {
    pub detail: Result<Item, AggregatorError>,
    pub accounts: Result<Vec<AccountFeed>, AggregatorError>,
}

/// The writes of one item's sync, in order, and whether a fetch failed along the way (the
/// writes before the failure are still made).
pub struct SyncPlan {
    pub writes: Vec<StoreWrite>,
    pub outcome: Result<(), AggregatorError>,
}

/// Why one item's sync stopped.
pub enum SyncError {
    Aggregator(AggregatorError),
    Persistence(PersistenceError),
}

/// The stored fields of a reported account; a missing balance counts as zero.
pub open spec fn account_fields(a: Account) -> AccountFields {
    AccountFields {
        name: a.name,
        number: a.number,
        balance: amount_or_zero(a.balance),
        currency: a.currency_code,
        kind: a.type_field,
        subtype: a.subtype,
    }
}

/// The stored fields of a reported transaction: its date normalised, its status read.
pub open spec fn transaction_fields(t: Transaction, today: CalendarDate) -> TransactionFields {
    TransactionFields {
        amount: t.amount,
        date: normalized_date(t.date@, today),
        description: t.description,
        category: t.category,
        subcategory: t.subcategory,
        currency: t.currency_code,
        status: status_of(t.status),
        balance: t.balance,
    }
}

/// The upsert of one reported transaction under the account keyed by `account_key`.
pub open spec fn transaction_write(account_key: String, t: Transaction, today: CalendarDate) -> StoreWrite {
    StoreWrite::UpsertTransaction {
        external_id: t.id,
        account_external_id: account_key,
        fields: transaction_fields(t, today),
    }
}

pub open spec fn transaction_writes(account_key: String, txs: Seq<Transaction>, today: CalendarDate) -> Seq<StoreWrite> {
    txs.map_values(|t: Transaction| transaction_write(account_key, t, today))
}

/// The upsert of one reported balance.
pub open spec fn balance_write(b: Balance) -> StoreWrite {
    StoreWrite::UpsertBalance {
        external_id: b.id,
        account_external_id: b.account_id,
        balance: b.balance,
        currency: b.currency,
    }
}

/// The upsert of one reported account of the item keyed by `item_key`.
pub open spec fn account_write(item_key: String, a: Account) -> StoreWrite {
    StoreWrite::UpsertAccount {
        external_id: a.id,
        item_external_id: item_key,
        fields: account_fields(a),
    }
}

/// The writes for a list of account feeds, in order: each account, then its transactions.
/// A failed transaction fetch ends the list after its account, with that error.
pub open spec fn feeds_plan(item_key: String, feeds: Seq<AccountFeed>, today: CalendarDate) -> (Seq<StoreWrite>, Result<(), AggregatorError>)
    decreases feeds.len(),
{
    if feeds.len() == 0 {
        (Seq::empty(), Ok(()))
    } else {
        let (ws, out) = feeds_plan(item_key, feeds.drop_last(), today);
        if out is Err {
            (ws, out)
        } else {
            let f = feeds.last();
            let ws2 = ws.push(account_write(item_key, f.account));
            match f.transactions {
                Err(e) => (ws2, Err(e)),
                Ok(txs) => (ws2 + transaction_writes(f.account.id, txs@, today), Ok(())),
            }
        }
    }
}

/// The writes of one item's sync: first the item's connector metadata where the detail
/// was fetched and has one (a failed detail fetch does not stop the sync); then, where
/// the accounts were fetched, each account and its transactions. A failed account fetch
/// ends the plan with that error.
pub open spec fn item_plan(item_key: String, snap: ItemSnapshot, today: CalendarDate) -> (Seq<StoreWrite>, Result<(), AggregatorError>) {
    let refresh = match snap.detail {
        Ok(item) => match item.connector {
            Some(c) => seq![StoreWrite::RefreshItem { item_external_id: item_key, connector: c }],
            None => Seq::empty(),
        },
        Err(_) => Seq::empty(),
    };
    match snap.accounts {
        Err(e) => (refresh, Err(e)),
        Ok(feeds) => {
            let (ws, out) = feeds_plan(item_key, feeds@, today);
            (refresh + ws, out)
        },
    }
}

fn clone_opt(o: &Option<String>) -> (r: Option<String>)
    ensures
        r == *o,
{
    match o {
        Some(s) => Some(s.clone()),
        None => None,
    }
}

pub(crate) fn clone_error(e: &AggregatorError) -> (r: AggregatorError)
    ensures
        r == *e,
{
    match e {
        AggregatorError::Auth { status, body } => AggregatorError::Auth {
            status: *status,
            body: body.clone(),
        },
        AggregatorError::Http { status, body } => AggregatorError::Http {
            status: *status,
            body: body.clone(),
        },
        AggregatorError::Transport { message } => AggregatorError::Transport {
            message: message.clone(),
        },
    }
}

/// The stored fields of a reported account.
pub fn read_account(a: &Account) -> (r: AccountFields)
    ensures
        r == account_fields(*a),
{
    AccountFields {
        name: clone_opt(&a.name),
        number: clone_opt(&a.number),
        balance: unwrap_amount(a.balance),
        currency: clone_opt(&a.currency_code),
        kind: clone_opt(&a.type_field),
        subtype: clone_opt(&a.subtype),
    }
}

/// The stored fields of a reported transaction.
pub fn read_transaction(t: &Transaction, today: CalendarDate) -> (r: TransactionFields)
    ensures
        r == transaction_fields(*t, today),
{
    TransactionFields {
        amount: t.amount,
        date: normalize_date(t.date.as_str(), today),
        description: clone_opt(&t.description),
        category: clone_opt(&t.category),
        subcategory: clone_opt(&t.subcategory),
        currency: t.currency_code.clone(),
        status: read_status(&t.status),
        balance: t.balance,
    }
}

/// Appends the upserts of `txs` under the account keyed by `account_key`.
fn push_transaction_writes(
    out: &mut Vec<StoreWrite>,
    account_key: &String,
    txs: &Vec<Transaction>,
    today: CalendarDate,
)
    ensures
        final(out)@ == old(out)@ + transaction_writes(*account_key, txs@, today),
{
    let ghost start = out@;
    let mut i: usize = 0;
    while i < txs.len()
        invariant
            i <= txs@.len(),
            out@ == start + transaction_writes(*account_key, txs@.subrange(0, i as int), today),
        decreases txs@.len() - i,
    {
        let t = &txs[i];
        out.push(
            StoreWrite::UpsertTransaction {
                external_id: t.id.clone(),
                account_external_id: account_key.clone(),
                fields: read_transaction(t, today),
            },
        );
        proof {
            assert(txs@.subrange(0, i + 1) =~= txs@.subrange(0, i as int).push(txs@[i as int]));
            assert(transaction_writes(*account_key, txs@.subrange(0, i + 1), today)
                =~= transaction_writes(*account_key, txs@.subrange(0, i as int), today).push(
                transaction_write(*account_key, txs@[i as int], today),
            ));
        }
        i = i + 1;
    }
    assert(txs@.subrange(0, txs@.len() as int) =~= txs@);
}

/// The upserts of transactions fetched for one account (a `transactions.created` or
/// `transactions.updated` event).
pub fn transaction_event_plan(account_key: &String, txs: &Vec<Transaction>, today: CalendarDate) -> (r: Vec<StoreWrite>)
    ensures
        r@ == transaction_writes(*account_key, txs@, today),
{
    let mut out: Vec<StoreWrite> = Vec::new();
    push_transaction_writes(&mut out, account_key, txs, today);
    assert(Seq::<StoreWrite>::empty() + transaction_writes(*account_key, txs@, today)
        =~= transaction_writes(*account_key, txs@, today));
    out
}

/// The upserts of fetched balances, each keyed by its own external id.
pub fn balance_plan(balances: &Vec<Balance>) -> (r: Vec<StoreWrite>)
    ensures
        r@ == balances@.map_values(|b: Balance| balance_write(b)),
{
    let mut out: Vec<StoreWrite> = Vec::new();
    let mut i: usize = 0;
    while i < balances.len()
        invariant
            i <= balances@.len(),
            out@ == balances@.subrange(0, i as int).map_values(|b: Balance| balance_write(b)),
        decreases balances@.len() - i,
    {
        let b = &balances[i];
        out.push(
            StoreWrite::UpsertBalance {
                external_id: b.id.clone(),
                account_external_id: b.account_id.clone(),
                balance: b.balance,
                currency: b.currency.clone(),
            },
        );
        proof {
            assert(balances@.subrange(0, i + 1) =~= balances@.subrange(0, i as int).push(
                balances@[i as int],
            ));
            assert(balances@.subrange(0, i + 1).map_values(|b: Balance| balance_write(b))
                =~= balances@.subrange(0, i as int).map_values(|b: Balance| balance_write(b)).push(
                balance_write(balances@[i as int]),
            ));
        }
        i = i + 1;
    }
    assert(balances@.subrange(0, balances@.len() as int) =~= balances@);
    out
}

/// The deletes of a `transactions.deleted` event: one per external id, in order.
pub fn deletion_plan(ids: &Vec<String>) -> (r: Vec<StoreWrite>)
    ensures
        r@ == ids@.map_values(|id: String| StoreWrite::DeleteTransaction { external_id: id }),
{
    let mut out: Vec<StoreWrite> = Vec::new();
    let mut i: usize = 0;
    while i < ids.len()
        invariant
            i <= ids@.len(),
            out@ == ids@.subrange(0, i as int).map_values(
                |id: String| StoreWrite::DeleteTransaction { external_id: id },
            ),
        decreases ids@.len() - i,
    {
        out.push(StoreWrite::DeleteTransaction { external_id: ids[i].clone() });
        proof {
            assert(ids@.subrange(0, i + 1) =~= ids@.subrange(0, i as int).push(ids@[i as int]));
            assert(ids@.subrange(0, i + 1).map_values(
                |id: String| StoreWrite::DeleteTransaction { external_id: id },
            ) =~= ids@.subrange(0, i as int).map_values(
                |id: String| StoreWrite::DeleteTransaction { external_id: id },
            ).push(StoreWrite::DeleteTransaction { external_id: ids@[i as int] }));
        }
        i = i + 1;
    }
    assert(ids@.subrange(0, ids@.len() as int) =~= ids@);
    out
}

/// Plans one item's sync from what the aggregator answered: the detail's connector
/// metadata, then each account followed by its transactions.
pub fn plan_item_sync(item_key: &String, snap: &ItemSnapshot, today: CalendarDate) -> (r: SyncPlan)
    ensures
        (r.writes@, r.outcome) == item_plan(*item_key, *snap, today),
{
    let mut writes: Vec<StoreWrite> = Vec::new();
    match &snap.detail {
        Ok(item) => match &item.connector {
            Some(c) => {
                writes.push(
                    StoreWrite::RefreshItem { item_external_id: item_key.clone(), connector: c.clone() },
                );
            },
            None => {},
        },
        Err(_) => {},
    }
    let ghost refresh = writes@;
    let feeds = match &snap.accounts {
        Err(e) => {
            return SyncPlan { writes, outcome: Err(clone_error(e)) };
        },
        Ok(feeds) => feeds,
    };
    let mut outcome: Result<(), AggregatorError> = Ok(());
    let mut i: usize = 0;
    while i < feeds.len()
        invariant
            i <= feeds@.len(),
            snap.accounts == Ok::<Vec<AccountFeed>, AggregatorError>(*feeds),
            (writes@, outcome) == ({
                let (ws, out) = feeds_plan(*item_key, feeds@.subrange(0, i as int), today);
                (refresh + ws, out)
            }),
        decreases feeds@.len() - i,
    {
        let ghost prefix = feeds@.subrange(0, i as int);
        let ghost next = feeds@.subrange(0, i + 1);
        assert(next.drop_last() =~= prefix);
        assert(next.last() == feeds@[i as int]);
        if outcome.is_ok() {
            let f = &feeds[i];
            writes.push(
                StoreWrite::UpsertAccount {
                    external_id: f.account.id.clone(),
                    item_external_id: item_key.clone(),
                    fields: read_account(&f.account),
                },
            );
            match &f.transactions {
                Err(e) => {
                    outcome = Err(clone_error(e));
                },
                Ok(txs) => {
                    push_transaction_writes(&mut writes, &f.account.id, txs, today);
                },
            }
            proof {
                let (ws, out) = feeds_plan(*item_key, prefix, today);
                let fa = feeds@[i as int];
                let ws2 = ws.push(account_write(*item_key, fa.account));
                assert(refresh + ws2 =~= (refresh + ws).push(account_write(*item_key, fa.account)));
                match fa.transactions {
                    Err(e) => {},
                    Ok(txs) => {
                        assert(refresh + (ws2 + transaction_writes(fa.account.id, txs@, today))
                            =~= (refresh + ws2) + transaction_writes(fa.account.id, txs@, today));
                    },
                }
            }
        }
        i = i + 1;
    }
    assert(feeds@.subrange(0, feeds@.len() as int) =~= feeds@);
    SyncPlan { writes, outcome }
}

/// The store's contents after one item's sync, and its result.
pub open spec fn synced(v: StoreView, item_key: String, snap: ItemSnapshot, today: CalendarDate) -> (StoreView, Result<(), SyncError>) {
    let (ws, out) = item_plan(item_key, snap, today);
    let (vf, r) = run_writes(v, ws);
    (vf, match r {
        Err(e) => Err(SyncError::Persistence(e)),
        Ok(_) => match out {
            Err(e) => Err(SyncError::Aggregator(e)),
            Ok(_) => Ok(()),
        },
    })
}

/// Syncs one item into the store from what the aggregator answered for it: the planned
/// writes are made in order; a failed write stops the sync; a write for an unknown parent
/// is skipped. The item's local id and owner are those of its stored row.
pub fn sync_item_data(store: &mut LocalStore, item: &ItemRef, snap: &ItemSnapshot, today: CalendarDate) -> (r: Result<(), SyncError>)
    requires
        old(store).wf(),
    ensures
        final(store).wf(),
        (final(store).view(), r) == synced(old(store).view(), item.external_id, *snap, today),
{
    let plan = plan_item_sync(&item.external_id, snap, today);
    let SyncPlan { writes, outcome } = plan;
    match store.apply_all(writes) {
        Err(e) => Err(SyncError::Persistence(e)),
        Ok(_) => match outcome {
            Err(e) => Err(SyncError::Aggregator(e)),
            Ok(()) => Ok(()),
        },
    }
}

/// An unreadable transaction date never stops a sync: the transaction's upsert is planned
/// like any other, and it stores `today` as the date.
pub proof fn lemma_unreadable_date_falls_back(account_key: String, t: Transaction, today: CalendarDate)
    requires
        t.date@.len() < 10 || chrono_ymd(t.date@.subrange(0, 10)) is None,
    ensures
        transaction_write(account_key, t, today) matches StoreWrite::UpsertTransaction {
            external_id,
            fields,
            ..
        } ==> external_id == t.id && fields.date == today,
        transaction_write(account_key, t, today) is UpsertTransaction,
{
}

} // verus!
