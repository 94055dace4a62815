use finsync::dates::{normalize_date, CalendarDate};
use finsync::money::Amount;
use finsync::pluggy::client::AggregatorError;
use finsync::pluggy::models::{Account, Balance, Item, Transaction};
use finsync::scheduler::reconcile;
use finsync::store::{LocalStore, PersistenceError, StoreWrite, TransactionStatus, WriteOutcome};
use finsync::sync::{plan_item_sync, sync_item_data, AccountFeed, ItemRef, ItemSnapshot, SyncError};
use finsync::webhooks::{apply_balances, apply_transaction_event};

fn today() -> CalendarDate {
    CalendarDate { year: 2025, month: 6, day: 1 }
}

fn account(id: &str, name: &str, balance: i128) -> Account {
    Account {
        id: id.to_string(),
        item_id: Some("item-1".to_string()),
        name: Some(name.to_string()),
        number: Some("0001".to_string()),
        balance: Some(Amount::new(balance, 2)),
        currency_code: Some("BRL".to_string()),
        type_field: Some("BANK".to_string()),
        subtype: Some("CHECKING_ACCOUNT".to_string()),
        created_at: "2024-01-01T00:00:00Z".to_string(),
        updated_at: None,
    }
}

fn tx(id: &str, account_id: &str, amount: i128, date: &str, description: &str) -> Transaction {
    Transaction {
        id: id.to_string(),
        account_id: account_id.to_string(),
        item_id: Some("item-1".to_string()),
        amount: Amount::new(amount, 2),
        date: date.to_string(),
        description: Some(description.to_string()),
        category: Some("Food".to_string()),
        subcategory: None,
        currency_code: "BRL".to_string(),
        balance: None,
        status: Some("POSTED".to_string()),
        created_at: "2024-01-01T00:00:00Z".to_string(),
        updated_at: None,
    }
}

fn item_detail(status: &str, connector: Option<&str>) -> Item {
    Item {
        id: "item-1".to_string(),
        connector: connector.map(|c| c.to_string()),
        created_at: "2024-01-01T00:00:00Z".to_string(),
        updated_at: None,
        status: status.to_string(),
        execution_status: Some("SUCCESS".to_string()),
        error: None,
        parameter: None,
        client_user_id: None,
    }
}

fn snapshot(accounts: Vec<(Account, Vec<Transaction>)>) -> ItemSnapshot {
    ItemSnapshot {
        detail: Ok(item_detail("UPDATED", Some("{\"id\":201}"))),
        accounts: Ok(accounts
            .into_iter()
            .map(|(account, txs)| AccountFeed { account, transactions: Ok(txs) })
            .collect()),
    }
}

fn item_ref(store: &LocalStore, external_id: &str) -> ItemRef {
    store
        .items_to_sync()
        .into_iter()
        .find(|i| i.external_id == external_id)
        .expect("item is stored")
}

type Dump = (
    Vec<(u128, String, u128, Option<String>, i128)>,
    Vec<(u128, String, u128, i128, (i32, u32, u32), Option<String>, String)>,
    Vec<(u128, String, u128, i128, String)>,
    u128,
);

fn dump(store: &LocalStore) -> Dump {
    let mut accounts: Vec<_> = store
        .accounts
        .rows
        .iter()
        .map(|r| (r.local_id, r.external_id.clone(), r.data.item_id, r.data.fields.name.clone(), r.data.fields.balance.mantissa))
        .collect();
    let mut txs: Vec<_> = store
        .transactions
        .rows
        .iter()
        .map(|r| {
            let f = &r.data.fields;
            (
                r.local_id,
                r.external_id.clone(),
                r.data.account_id,
                f.amount.mantissa,
                (f.date.year, f.date.month, f.date.day),
                f.description.clone(),
                f.status.as_text(),
            )
        })
        .collect();
    let mut balances: Vec<_> = store
        .balances
        .rows
        .iter()
        .map(|r| (r.local_id, r.external_id.clone(), r.data.account_id, r.data.balance.mantissa, r.data.currency.clone()))
        .collect();
    accounts.sort();
    txs.sort();
    balances.sort();
    (accounts, txs, balances, store.next_id)
}

fn store_with_item() -> LocalStore {
    let mut store = LocalStore::new();
    store.register_item("item-1".to_string(), 77).unwrap();
    store
}

fn two_account_snapshot() -> ItemSnapshot {
    snapshot(vec![
        (
            account("acc-1", "Checking", 150_00),
            vec![
                tx("tx-1", "acc-1", -25_50, "2024-03-15T10:00:00.000Z", "Lunch"),
                tx("tx-2", "acc-1", 1000_00, "2024-03-16", "Salary"),
            ],
        ),
        (account("acc-2", "Savings", 900_00), vec![tx("tx-3", "acc-2", -5_00, "2024-03-17", "Fee")]),
    ])
}

#[test]
fn sync_twice_is_idempotent() {
    let mut store = store_with_item();
    let item = item_ref(&store, "item-1");
    let snap = two_account_snapshot();
    assert!(sync_item_data(&mut store, &item, &snap, today()).is_ok());
    let first = dump(&store);
    assert!(sync_item_data(&mut store, &item, &snap, today()).is_ok());
    let second = dump(&store);
    assert_eq!(first, second);
    assert_eq!(store.accounts.rows.len(), 2);
    assert_eq!(store.transactions.rows.len(), 3);
}

#[test]
fn sync_stores_reported_fields() {
    let mut store = store_with_item();
    let item = item_ref(&store, "item-1");
    assert!(sync_item_data(&mut store, &item, &two_account_snapshot(), today()).is_ok());
    let acc = store.accounts.rows.iter().find(|r| r.external_id == "acc-1").unwrap();
    assert_eq!(acc.data.item_id, item.local_id);
    assert_eq!(acc.data.owner, 77);
    assert_eq!(acc.data.fields.balance, Amount::new(150_00, 2));
    let t1 = store.transactions.rows.iter().find(|r| r.external_id == "tx-1").unwrap();
    assert_eq!(t1.data.account_id, acc.local_id);
    assert_eq!(t1.data.owner, 77);
    assert_eq!(t1.data.fields.amount, Amount::new(-25_50, 2));
    assert_eq!(t1.data.fields.date, CalendarDate { year: 2024, month: 3, day: 15 });
    assert!(matches!(t1.data.fields.status, TransactionStatus::Posted));
    let it = &store.items.rows[0];
    assert_eq!(it.data.connector.as_deref(), Some("{\"id\":201}"));
}

#[test]
fn concurrent_syncs_converge() {
    let mut store = store_with_item();
    let key = "item-1".to_string();
    let old_snap = two_account_snapshot();
    let new_snap = snapshot(vec![
        (
            account("acc-1", "Checking renamed", 175_00),
            vec![
                tx("tx-1", "acc-1", -30_00, "2024-03-15", "Lunch and tip"),
                tx("tx-2", "acc-1", 1000_00, "2024-03-16", "Salary"),
            ],
        ),
        (account("acc-2", "Savings", 950_00), vec![tx("tx-3", "acc-2", -5_00, "2024-03-17", "Fee")]),
    ]);
    let a = plan_item_sync(&key, &old_snap, today()).writes;
    let b = plan_item_sync(&key, &new_snap, today()).writes;
    assert_eq!(a.len(), b.len());
    // Interleave the two syncs write by write, the newer one always a step behind.
    let mut a = a.into_iter();
    let mut b = b.into_iter();
    loop {
        let wa = a.next();
        let wb = b.next();
        if wa.is_none() && wb.is_none() {
            break;
        }
        if let Some(w) = wa {
            assert_eq!(store.apply(w), Ok(WriteOutcome::Applied));
        }
        if let Some(w) = wb {
            assert_eq!(store.apply(w), Ok(WriteOutcome::Applied));
        }
    }
    assert_eq!(store.accounts.rows.len(), 2);
    assert_eq!(store.transactions.rows.len(), 3);
    let acc = store.accounts.rows.iter().find(|r| r.external_id == "acc-1").unwrap();
    assert_eq!(acc.data.fields.name.as_deref(), Some("Checking renamed"));
    assert_eq!(acc.data.fields.balance, Amount::new(175_00, 2));
    let t1 = store.transactions.rows.iter().find(|r| r.external_id == "tx-1").unwrap();
    assert_eq!(t1.data.fields.amount, Amount::new(-30_00, 2));
    assert_eq!(t1.data.fields.description.as_deref(), Some("Lunch and tip"));
}

#[test]
fn unknown_account_is_skipped() {
    let mut store = store_with_item();
    let item = item_ref(&store, "item-1");
    assert!(sync_item_data(&mut store, &item, &two_account_snapshot(), today()).is_ok());
    let fetched = Ok(vec![
        tx("tx-9", "acc-404", -1_00, "2024-04-01", "Ghost"),
        tx("tx-10", "acc-404", -2_00, "2024-04-02", "Ghost too"),
    ]);
    let r = apply_transaction_event(&mut store, &"acc-404".to_string(), &fetched, today());
    assert!(matches!(r, Ok(2)));
    assert_eq!(store.transactions.rows.len(), 3);
    let balances = Ok(vec![
        Balance {
            id: "bal-1".to_string(),
            account_id: "acc-404".to_string(),
            item_id: None,
            balance: Amount::new(1, 0),
            currency: "BRL".to_string(),
            created_at: "2024-04-01".to_string(),
            updated_at: None,
        },
        Balance {
            id: "bal-2".to_string(),
            account_id: "acc-2".to_string(),
            item_id: None,
            balance: Amount::new(123_45, 2),
            currency: "BRL".to_string(),
            created_at: "2024-04-01".to_string(),
            updated_at: None,
        },
    ]);
    let r = apply_balances(&mut store, &balances);
    assert!(matches!(r, Ok(1)));
    assert_eq!(store.balances.rows.len(), 1);
    assert_eq!(store.balances.rows[0].external_id, "bal-2");
    let acc = store.accounts.rows.iter().find(|r| r.external_id == "acc-2").unwrap();
    assert_eq!(acc.data.fields.balance, Amount::new(123_45, 2));
}

#[test]
fn unparsable_date_falls_back_to_today() {
    let mut store = store_with_item();
    let item = item_ref(&store, "item-1");
    let snap = snapshot(vec![(
        account("acc-1", "Checking", 0),
        vec![
            tx("tx-1", "acc-1", -1_00, "yesterday-ish", "Bad date"),
            tx("tx-2", "acc-1", -1_00, "2023-02-30", "No such day"),
            tx("tx-3", "acc-1", -1_00, "2024", "Too short"),
        ],
    )]);
    assert!(sync_item_data(&mut store, &item, &snap, today()).is_ok());
    assert_eq!(store.transactions.rows.len(), 3);
    for r in &store.transactions.rows {
        assert_eq!(r.data.fields.date, today());
    }
}

#[test]
fn dates_use_the_first_ten_characters() {
    assert_eq!(normalize_date("2024-02-29T23:59:59Z", today()), CalendarDate { year: 2024, month: 2, day: 29 });
    assert_eq!(normalize_date("2023-12-31", today()), CalendarDate { year: 2023, month: 12, day: 31 });
    assert_eq!(normalize_date("2023-02-29", today()), today());
    assert_eq!(normalize_date("", today()), today());
}

#[test]
fn failed_account_fetch_aborts_item() {
    let mut store = store_with_item();
    let item = item_ref(&store, "item-1");
    let snap = ItemSnapshot {
        detail: Err(AggregatorError::Http { status: 500, body: "boom".to_string() }),
        accounts: Err(AggregatorError::Http { status: 503, body: "down".to_string() }),
    };
    let r = sync_item_data(&mut store, &item, &snap, today());
    assert!(matches!(r, Err(SyncError::Aggregator(AggregatorError::Http { status: 503, .. }))));
    assert_eq!(store.accounts.rows.len(), 0);
}

#[test]
fn failed_detail_fetch_does_not_abort() {
    let mut store = store_with_item();
    let item = item_ref(&store, "item-1");
    let mut snap = two_account_snapshot();
    snap.detail = Err(AggregatorError::Http { status: 500, body: "boom".to_string() });
    assert!(sync_item_data(&mut store, &item, &snap, today()).is_ok());
    assert_eq!(store.accounts.rows.len(), 2);
    assert_eq!(store.items.rows[0].data.connector, None);
}

#[test]
fn failed_transaction_fetch_keeps_earlier_writes() {
    let mut store = store_with_item();
    let item = item_ref(&store, "item-1");
    let snap = ItemSnapshot {
        detail: Ok(item_detail("UPDATED", None)),
        accounts: Ok(vec![
            AccountFeed {
                account: account("acc-1", "Checking", 1),
                transactions: Ok(vec![tx("tx-1", "acc-1", 1, "2024-01-01", "a")]),
            },
            AccountFeed {
                account: account("acc-2", "Savings", 2),
                transactions: Err(AggregatorError::Http { status: 429, body: "slow down".to_string() }),
            },
            AccountFeed {
                account: account("acc-3", "Other", 3),
                transactions: Ok(vec![tx("tx-3", "acc-3", 1, "2024-01-01", "c")]),
            },
        ]),
    };
    let r = sync_item_data(&mut store, &item, &snap, today());
    assert!(matches!(r, Err(SyncError::Aggregator(AggregatorError::Http { status: 429, .. }))));
    assert_eq!(store.accounts.rows.len(), 2);
    assert_eq!(store.transactions.rows.len(), 1);
}

#[test]
fn reconcile_isolates_failures() {
    let mut store = store_with_item();
    store.register_item("item-2".to_string(), 78).unwrap();
    let items = store.items_to_sync();
    assert_eq!(items.len(), 2);
    let bad = ItemSnapshot {
        detail: Err(AggregatorError::Transport { message: "timeout".to_string() }),
        accounts: Err(AggregatorError::Transport { message: "timeout".to_string() }),
    };
    let mut it = items.into_iter();
    let first = it.next().unwrap();
    let second = it.next().unwrap();
    let batch = vec![(first, bad), (second, two_account_snapshot())];
    let report = reconcile(&mut store, &batch, today());
    assert_eq!(report.succeeded, 1);
    assert_eq!(report.failed, vec!["item-1".to_string()]);
    assert_eq!(store.accounts.rows.len(), 2);
    assert!(store.accounts.rows.iter().all(|r| r.data.owner == 78));
}

#[test]
fn exhausted_ids_fail_the_write() {
    let mut store = LocalStore::new();
    store.next_id = u128::MAX;
    assert_eq!(store.register_item("item-1".to_string(), 1), Err(PersistenceError::IdsExhausted));
    store.next_id = u128::MAX - 1;
    assert_eq!(store.register_item("item-1".to_string(), 1), Ok(u128::MAX - 1));
    let w = StoreWrite::UpsertAccount {
        external_id: "acc-1".to_string(),
        item_external_id: "item-1".to_string(),
        fields: finsync::sync::read_account(&account("acc-1", "x", 0)),
    };
    assert_eq!(store.apply(w), Err(PersistenceError::IdsExhausted));
    assert_eq!(store.accounts.rows.len(), 0);
}

#[test]
fn register_item_keeps_existing_row() {
    let mut store = LocalStore::new();
    let a = store.register_item("item-1".to_string(), 5).unwrap();
    let b = store.register_item("item-1".to_string(), 6).unwrap();
    assert_eq!(a, b);
    assert_eq!(store.items.rows.len(), 1);
    assert_eq!(store.items.rows[0].data.owner, 5);
}

#[test]
fn account_without_balance_stores_zero() {
    let mut store = store_with_item();
    let item = item_ref(&store, "item-1");
    let mut acc = account("acc-1", "Checking", 0);
    acc.balance = None;
    let snap = snapshot(vec![(acc, vec![])]);
    assert!(sync_item_data(&mut store, &item, &snap, today()).is_ok());
    assert_eq!(store.accounts.rows[0].data.fields.balance, Amount::zero());
}

#[test]
fn missing_status_is_pending() {
    let mut store = store_with_item();
    let item = item_ref(&store, "item-1");
    let mut t = tx("tx-1", "acc-1", 1, "2024-01-01", "a");
    t.status = None;
    let mut u = tx("tx-2", "acc-1", 1, "2024-01-01", "b");
    u.status = Some("REVERSED".to_string());
    let snap = snapshot(vec![(account("acc-1", "Checking", 0), vec![t, u])]);
    assert!(sync_item_data(&mut store, &item, &snap, today()).is_ok());
    let t1 = store.transactions.rows.iter().find(|r| r.external_id == "tx-1").unwrap();
    assert!(matches!(t1.data.fields.status, TransactionStatus::Pending));
    assert_eq!(t1.data.fields.status.as_text(), "PENDING");
    let t2 = store.transactions.rows.iter().find(|r| r.external_id == "tx-2").unwrap();
    assert_eq!(t2.data.fields.status.as_text(), "REVERSED");
}

#[test]
fn writes_with_unknown_parents_report_it() {
    let mut store = store_with_item();
    let refresh = StoreWrite::RefreshItem { item_external_id: "item-404".to_string(), connector: "{}".to_string() };
    assert_eq!(store.apply(refresh), Ok(WriteOutcome::UnknownReference));
    let account_write = StoreWrite::UpsertAccount {
        external_id: "acc-1".to_string(),
        item_external_id: "item-404".to_string(),
        fields: finsync::sync::read_account(&account("acc-1", "x", 0)),
    };
    assert_eq!(store.apply(account_write), Ok(WriteOutcome::UnknownReference));
    let balance_write = StoreWrite::UpsertBalance {
        external_id: "bal-1".to_string(),
        account_external_id: "acc-404".to_string(),
        balance: Amount::new(5, 0),
        currency: "BRL".to_string(),
    };
    assert_eq!(store.apply(balance_write), Ok(WriteOutcome::UnknownReference));
    assert_eq!(store.accounts.rows.len(), 0);
    assert_eq!(store.balances.rows.len(), 0);
    assert_eq!(store.items.rows[0].data.connector, None);
    let delete_missing = StoreWrite::DeleteTransaction { external_id: "tx-404".to_string() };
    assert_eq!(store.apply(delete_missing), Ok(WriteOutcome::Applied));
}
