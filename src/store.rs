use vstd::prelude::*;
use crate::dates::CalendarDate;
use crate::money::Amount;
use crate::table::{Row, Table, rows_wf, rows_view, lemma_view_update, lemma_index_unique};

verus! {

/// The fields of an item row (a linked bank connection).
pub struct ItemData {
    pub owner: u128,
    pub connector: Option<String>,
}

/// The fields of an account that the aggregator reports.
pub struct AccountFields {
    pub name: Option<String>,
    pub number: Option<String>,
    pub balance: Amount,
    pub currency: Option<String>,
    pub kind: Option<String>,
    pub subtype: Option<String>,
}

/// An account row: its parent item's local id, that item's owner, and the reported fields.
pub struct AccountData {
    pub item_id: u128,
    pub owner: u128,
    pub fields: AccountFields,
}

/// The settlement status of a transaction.
pub enum TransactionStatus {
    Pending,
    Posted,
    Other(String),
}

/// The status stored for a reported one: a transaction reported without a status is
/// pending.
pub open spec fn status_of(reported: Option<String>) -> TransactionStatus {
    match reported {
        None => TransactionStatus::Pending,
        Some(s) => if s@ == "PENDING"@ {
            TransactionStatus::Pending
        } else if s@ == "POSTED"@ {
            TransactionStatus::Posted
        } else {
            TransactionStatus::Other(s)
        },
    }
}

/// Reads a reported status.
pub fn read_status(reported: &Option<String>) -> (r: TransactionStatus)
    ensures
        r == status_of(*reported),
{
    match reported {
        None => TransactionStatus::Pending,
        Some(s) => {
            if *s == "PENDING".to_owned() {
                TransactionStatus::Pending
            } else if *s == "POSTED".to_owned() {
                TransactionStatus::Posted
            } else {
                TransactionStatus::Other(s.clone())
            }
        },
    }
}

impl TransactionStatus {
    /// The status as the aggregator writes it.
    pub fn as_text(&self) -> (r: String)
        ensures
            self is Pending ==> r@ == "PENDING"@,
            self is Posted ==> r@ == "POSTED"@,
            self matches TransactionStatus::Other(s) ==> r@ == s@,
    {
        match self {
            TransactionStatus::Pending => "PENDING".to_owned(),
            TransactionStatus::Posted => "POSTED".to_owned(),
            TransactionStatus::Other(s) => s.clone(),
        }
    }
}

/// The fields of a transaction that the aggregator reports, normalised for storage.
pub struct TransactionFields {
    pub amount: Amount,
    pub date: CalendarDate,
    pub description: Option<String>,
    pub category: Option<String>,
    pub subcategory: Option<String>,
    pub currency: String,
    pub status: TransactionStatus,
    pub balance: Option<Amount>,
}

/// A transaction row: its parent account, that account's item and owner, and its fields.
pub struct TransactionData {
    pub account_id: u128,
    pub item_id: u128,
    pub owner: u128,
    pub fields: TransactionFields,
}

/// A balance row: its parent account and item, the reported balance and its currency.
pub struct BalanceData {
    pub account_id: u128,
    pub item_id: u128,
    pub balance: Amount,
    pub currency: String,
}

/// One atomic write of the persistence gateway. Parents are named by external id and
/// resolved inside the write, so that no write depends on an earlier separate read.
#[allow(inconsistent_fields)]
pub enum StoreWrite {
    /// Overwrite the connector metadata of an item.
    RefreshItem { item_external_id: String, connector: String },
    /// Insert or overwrite an account of an item.
    UpsertAccount { external_id: String, item_external_id: String, fields: AccountFields },
    /// Insert or overwrite a transaction of an account.
    UpsertTransaction {
        external_id: String,
        account_external_id: String,
        fields: TransactionFields,
    },
    /// Insert or overwrite a balance of an account, and the account's own balance field.
    UpsertBalance {
        external_id: String,
        account_external_id: String,
        balance: Amount,
        currency: String,
    },
    /// Delete the transaction with this external id, if there is one.
    DeleteTransaction { external_id: String },
}

/// What a write did that did not fail.
#[derive(Clone, Copy, Debug, PartialEq, Eq, Structural)]
pub enum WriteOutcome {
    Applied,
    /// The write names a parent (item or account) that is not stored; nothing changed.
    UnknownReference,
}

/// A storage write that failed; nothing changed.
#[derive(Clone, Copy, Debug, PartialEq, Eq, Structural)]
pub enum PersistenceError {
    /// No fresh local id is left for a new row.
    IdsExhausted,
}

/// The local store, in memory: four tables keyed by external id, and the next local id.
pub struct LocalStore {
    pub items: Table<ItemData>,
    pub accounts: Table<AccountData>,
    pub transactions: Table<TransactionData>,
    pub balances: Table<BalanceData>,
    pub next_id: u128,
}

/// The store's contents: each table as a map from external id to local id and fields.
pub struct StoreView {
    pub items: Map<Seq<char>, (u128, ItemData)>,
    pub accounts: Map<Seq<char>, (u128, AccountData)>,
    pub transactions: Map<Seq<char>, (u128, TransactionData)>,
    pub balances: Map<Seq<char>, (u128, BalanceData)>,
    pub next_id: u128,
}

/// The effect of one write on the store's contents.
pub enum WriteEffect {
    Done(StoreView),
    Skipped,
    Exhausted,
}

/// The local id that a row keyed by `k` gets in a table: the one it has, or the next id.
pub open spec fn id_for<D>(t: Map<Seq<char>, (u128, D)>, k: Seq<char>, next_id: u128) -> u128 {
    if t.contains_key(k) {
        t[k].0
    } else {
        next_id
    }
}

/// The next id after a row keyed by `k` has been written to `t`.
pub open spec fn next_after<D>(t: Map<Seq<char>, (u128, D)>, k: Seq<char>, next_id: u128) -> u128 {
    if t.contains_key(k) {
        next_id
    } else {
        (next_id + 1) as u128
    }
}

/// A new row is needed for `k` in `t` and no local id is left for it.
pub open spec fn exhausted<D>(t: Map<Seq<char>, (u128, D)>, k: Seq<char>, next_id: u128) -> bool {
    !t.contains_key(k) && next_id == u128::MAX
}

/// What a write does to the store's contents. Every write is an upsert or a delete keyed
/// by external id: the row that it names ends with the written fields, every other row
/// is left as it was.
pub open spec fn write_effect(v: StoreView, w: StoreWrite) -> WriteEffect {
    match w {
        StoreWrite::RefreshItem { item_external_id, connector } => {
            let k = item_external_id@;
            if !v.items.contains_key(k) {
                WriteEffect::Skipped
            } else {
                let (id, d) = v.items[k];
                WriteEffect::Done(
                    StoreView {
                        items: v.items.insert(
                            k,
                            (id, ItemData { owner: d.owner, connector: Some(connector) }),
                        ),
                        ..v
                    },
                )
            }
        },
        StoreWrite::UpsertAccount { external_id, item_external_id, fields } => {
            let k = external_id@;
            if !v.items.contains_key(item_external_id@) {
                WriteEffect::Skipped
            } else if exhausted(v.accounts, k, v.next_id) {
                WriteEffect::Exhausted
            } else {
                let (item_id, item) = v.items[item_external_id@];
                let data = AccountData { item_id, owner: item.owner, fields };
                WriteEffect::Done(
                    StoreView {
                        accounts: v.accounts.insert(k, (id_for(v.accounts, k, v.next_id), data)),
                        next_id: next_after(v.accounts, k, v.next_id),
                        ..v
                    },
                )
            }
        },
        StoreWrite::UpsertTransaction { external_id, account_external_id, fields } => {
            let k = external_id@;
            if !v.accounts.contains_key(account_external_id@) {
                WriteEffect::Skipped
            } else if exhausted(v.transactions, k, v.next_id) {
                WriteEffect::Exhausted
            } else {
                let (account_id, acc) = v.accounts[account_external_id@];
                let data = TransactionData {
                    account_id,
                    item_id: acc.item_id,
                    owner: acc.owner,
                    fields,
                };
                WriteEffect::Done(
                    StoreView {
                        transactions: v.transactions.insert(
                            k,
                            (id_for(v.transactions, k, v.next_id), data),
                        ),
                        next_id: next_after(v.transactions, k, v.next_id),
                        ..v
                    },
                )
            }
        },
        StoreWrite::UpsertBalance { external_id, account_external_id, balance, currency } => {
            let k = external_id@;
            let ak = account_external_id@;
            if !v.accounts.contains_key(ak) {
                WriteEffect::Skipped
            } else if exhausted(v.balances, k, v.next_id) {
                WriteEffect::Exhausted
            } else {
                let (account_id, acc) = v.accounts[ak];
                let data = BalanceData { account_id, item_id: acc.item_id, balance, currency };
                let acc2 = AccountData {
                    fields: AccountFields { balance, ..acc.fields },
                    ..acc
                };
                WriteEffect::Done(
                    StoreView {
                        balances: v.balances.insert(k, (id_for(v.balances, k, v.next_id), data)),
                        accounts: v.accounts.insert(ak, (account_id, acc2)),
                        next_id: next_after(v.balances, k, v.next_id),
                        ..v
                    },
                )
            }
        },
        StoreWrite::DeleteTransaction { external_id } => {
            WriteEffect::Done(StoreView { transactions: v.transactions.remove(external_id@), ..v })
        },
    }
}

/// Adds `k` skipped writes to a run's count.
pub open spec fn add_skipped(r: Result<nat, PersistenceError>, k: nat) -> Result<nat, PersistenceError> {
    match r {
        Ok(n) => Ok(n + k),
        Err(e) => Err(e),
    }
}

/// What a sequence of writes does, applied in order: the final contents, and either the
/// number of writes skipped for an unknown parent or the failure that stopped the run
/// (the writes before it stay applied).
pub open spec fn run_writes(v: StoreView, ws: Seq<StoreWrite>) -> (StoreView, Result<nat, PersistenceError>)
    decreases ws.len(),
{
    if ws.len() == 0 {
        (v, Ok(0))
    } else {
        match write_effect(v, ws[0]) {
            WriteEffect::Done(v2) => run_writes(v2, ws.drop_first()),
            WriteEffect::Skipped => {
                let (vf, r) = run_writes(v, ws.drop_first());
                (vf, add_skipped(r, 1))
            },
            WriteEffect::Exhausted => (v, Err(PersistenceError::IdsExhausted)),
        }
    }
}

impl Table<AccountData> {
    /// Overwrites the balance field of the account stored at position `i`.
    fn set_balance_at(&mut self, i: usize, balance: Amount, Ghost(bound): Ghost<int>)
        requires
            old(self).wf(bound),
            i < old(self).rows@.len(),
        ensures
            final(self).wf(bound),
            final(self).view_map() == old(self).view_map().insert(
                old(self).rows@[i as int].external_id@,
                (
                    old(self).rows@[i as int].local_id,
                    AccountData {
                        fields: AccountFields {
                            balance,
                            ..old(self).rows@[i as int].data.fields
                        },
                        ..old(self).rows@[i as int].data
                    },
                ),
            ),
    {
        proof {
            let r = self.rows@[i as int];
            lemma_view_update(
                self.rows@,
                bound,
                i as int,
                AccountData { fields: AccountFields { balance, ..r.data.fields }, ..r.data },
            );
        }
        self.rows[i].data.fields.balance = balance;
    }
}

impl Table<ItemData> {
    /// Overwrites the connector metadata of the item stored at position `i`.
    fn set_connector_at(&mut self, i: usize, connector: String, Ghost(bound): Ghost<int>)
        requires
            old(self).wf(bound),
            i < old(self).rows@.len(),
        ensures
            final(self).wf(bound),
            final(self).view_map() == old(self).view_map().insert(
                old(self).rows@[i as int].external_id@,
                (
                    old(self).rows@[i as int].local_id,
                    ItemData { owner: old(self).rows@[i as int].data.owner, connector: Some(connector) },
                ),
            ),
    {
        proof {
            let r = self.rows@[i as int];
            lemma_view_update(
                self.rows@,
                bound,
                i as int,
                ItemData { owner: r.data.owner, connector: Some(connector) },
            );
        }
        self.rows[i].data.connector = Some(connector);
    }
}

/// A table that is well formed below one bound is well formed below a larger one.
proof fn lemma_wf_grow<D>(t: &Table<D>, b: int, b2: int)
    requires
        t.wf(b),
        b <= b2,
    ensures
        t.wf(b2),
{
    assert forall|i: int| 0 <= i < t.rows@.len() implies #[trigger] t.rows@[i].local_id < b2 by {
        assert(t.rows@[i].local_id < b);
    }
}

impl LocalStore {
    pub open spec fn wf(&self) -> bool {
        &&& self.items.wf(self.next_id as int)
        &&& self.accounts.wf(self.next_id as int)
        &&& self.transactions.wf(self.next_id as int)
        &&& self.balances.wf(self.next_id as int)
    }

    pub open spec fn view(&self) -> StoreView {
        StoreView {
            items: self.items.view_map(),
            accounts: self.accounts.view_map(),
            transactions: self.transactions.view_map(),
            balances: self.balances.view_map(),
            next_id: self.next_id,
        }
    }

    /// An empty store.
    pub fn new() -> (r: LocalStore)
        ensures
            r.wf(),
            r.view().items.is_empty(),
            r.view().accounts.is_empty(),
            r.view().transactions.is_empty(),
            r.view().balances.is_empty(),
    {
        LocalStore {
            items: Table::new(),
            accounts: Table::new(),
            transactions: Table::new(),
            balances: Table::new(),
            next_id: 0,
        }
    }
    /// Registers an item for an owner, keyed by its external id. An item that is already
    /// stored keeps its local id and owner. Returns the item's local id.
    pub fn register_item(&mut self, external_id: String, owner: u128) -> (r: Result<
        u128,
        PersistenceError,
    >)
        requires
            old(self).wf(),
        ensures
            final(self).wf(),
            old(self).view().items.contains_key(external_id@) ==> r == Ok::<u128, PersistenceError>(
                old(self).view().items[external_id@].0,
            ) && final(self).view() == old(self).view(),
            exhausted(old(self).view().items, external_id@, old(self).next_id) ==> r == Err::<
                u128,
                PersistenceError,
            >(PersistenceError::IdsExhausted) && final(self).view() == old(self).view(),
            !old(self).view().items.contains_key(external_id@) && old(self).next_id < u128::MAX
                ==> r == Ok::<u128, PersistenceError>(old(self).next_id) && final(self).view() == (
            StoreView {
                items: old(self).view().items.insert(
                    external_id@,
                    (old(self).next_id, ItemData { owner, connector: None }),
                ),
                next_id: (old(self).next_id + 1) as u128,
                ..old(self).view()
            }),
    {
        let bound = Ghost(self.next_id as int);
        match self.items.get(&external_id, bound) {
            Some(row) => {
                return Ok(row.local_id);
            },
            None => {},
        }
        if self.next_id == u128::MAX {
            return Err(PersistenceError::IdsExhausted);
        }
        let fresh = self.next_id;
        let id = self.items.upsert(external_id, ItemData { owner, connector: None }, fresh, bound);
        proof {
            lemma_wf_grow(&self.accounts, fresh as int, fresh + 1);
            lemma_wf_grow(&self.transactions, fresh as int, fresh + 1);
            lemma_wf_grow(&self.balances, fresh as int, fresh + 1);
        }
        self.next_id = fresh + 1;
        Ok(id)
    }

    /// Performs one write as a single step: an upsert keyed by external id, with its parent
    /// resolved in the same step, or a delete. A write whose parent is not stored changes
    /// nothing and reports `UnknownReference`.
    pub fn apply(&mut self, w: StoreWrite) -> (r: Result<WriteOutcome, PersistenceError>)
        requires
            old(self).wf(),
        ensures
            final(self).wf(),
            match write_effect(old(self).view(), w) {
                WriteEffect::Done(v) => r == Ok::<WriteOutcome, PersistenceError>(
                    WriteOutcome::Applied,
                ) && final(self).view() == v,
                WriteEffect::Skipped => r == Ok::<WriteOutcome, PersistenceError>(
                    WriteOutcome::UnknownReference,
                ) && final(self).view() == old(self).view(),
                WriteEffect::Exhausted => r == Err::<WriteOutcome, PersistenceError>(
                    PersistenceError::IdsExhausted,
                ) && final(self).view() == old(self).view(),
            },
    {
        let bound = Ghost(self.next_id as int);
        let fresh = self.next_id;
        match w {
            StoreWrite::RefreshItem { item_external_id, connector } => {
                match self.items.find(&item_external_id) {
                    None => Ok(WriteOutcome::UnknownReference),
                    Some(i) => {
                        proof {
                            lemma_index_unique(self.items.rows@, fresh as int, i as int);
                        }
                        self.items.set_connector_at(i, connector, bound);
                        Ok(WriteOutcome::Applied)
                    },
                }
            },
            StoreWrite::UpsertAccount { external_id, item_external_id, fields } => {
                let (item_id, owner) = match self.items.get(&item_external_id, bound) {
                    None => {
                        return Ok(WriteOutcome::UnknownReference);
                    },
                    Some(row) => (row.local_id, row.data.owner),
                };
                let existing = self.accounts.find(&external_id);
                proof {
                    if let Some(i) = existing {
                        lemma_index_unique(self.accounts.rows@, fresh as int, i as int);
                    }
                }
                if existing.is_none() && fresh == u128::MAX {
                    return Err(PersistenceError::IdsExhausted);
                }
                self.accounts.upsert(external_id, AccountData { item_id, owner, fields }, fresh, bound);
                if existing.is_none() {
                    proof {
                        lemma_wf_grow(&self.items, fresh as int, fresh + 1);
                        lemma_wf_grow(&self.transactions, fresh as int, fresh + 1);
                        lemma_wf_grow(&self.balances, fresh as int, fresh + 1);
                    }
                    self.next_id = fresh + 1;
                }
                Ok(WriteOutcome::Applied)
            },
            StoreWrite::UpsertTransaction { external_id, account_external_id, fields } => {
                let (account_id, item_id, owner) = match self.accounts.get(
                    &account_external_id,
                    bound,
                ) {
                    None => {
                        return Ok(WriteOutcome::UnknownReference);
                    },
                    Some(row) => (row.local_id, row.data.item_id, row.data.owner),
                };
                let existing = self.transactions.find(&external_id);
                proof {
                    if let Some(i) = existing {
                        lemma_index_unique(self.transactions.rows@, fresh as int, i as int);
                    }
                }
                if existing.is_none() && fresh == u128::MAX {
                    return Err(PersistenceError::IdsExhausted);
                }
                self.transactions.upsert(
                    external_id,
                    TransactionData { account_id, item_id, owner, fields },
                    fresh,
                    bound,
                );
                if existing.is_none() {
                    proof {
                        lemma_wf_grow(&self.items, fresh as int, fresh + 1);
                        lemma_wf_grow(&self.accounts, fresh as int, fresh + 1);
                        lemma_wf_grow(&self.balances, fresh as int, fresh + 1);
                    }
                    self.next_id = fresh + 1;
                }
                Ok(WriteOutcome::Applied)
            },
            StoreWrite::UpsertBalance { external_id, account_external_id, balance, currency } => {
                let ai = match self.accounts.find(&account_external_id) {
                    None => {
                        return Ok(WriteOutcome::UnknownReference);
                    },
                    Some(i) => i,
                };
                proof {
                    lemma_index_unique(self.accounts.rows@, fresh as int, ai as int);
                }
                let account_id = self.accounts.rows[ai].local_id;
                let item_id = self.accounts.rows[ai].data.item_id;
                let existing = self.balances.find(&external_id);
                proof {
                    if let Some(i) = existing {
                        lemma_index_unique(self.balances.rows@, fresh as int, i as int);
                    }
                }
                if existing.is_none() && fresh == u128::MAX {
                    return Err(PersistenceError::IdsExhausted);
                }
                self.balances.upsert(
                    external_id,
                    BalanceData { account_id, item_id, balance, currency },
                    fresh,
                    bound,
                );
                self.accounts.set_balance_at(ai, balance, bound);
                if existing.is_none() {
                    proof {
                        lemma_wf_grow(&self.items, fresh as int, fresh + 1);
                        lemma_wf_grow(&self.accounts, fresh as int, fresh + 1);
                        lemma_wf_grow(&self.transactions, fresh as int, fresh + 1);
                    }
                    self.next_id = fresh + 1;
                }
                Ok(WriteOutcome::Applied)
            },
            StoreWrite::DeleteTransaction { external_id } => {
                self.transactions.remove(&external_id, bound);
                Ok(WriteOutcome::Applied)
            },
        }
    }
    /// Performs the writes in order. A write with an unknown parent is skipped and the run
    /// goes on; a failed write stops the run, with the writes before it kept. Returns the
    /// number of skipped writes.
    pub fn apply_all(&mut self, ws: Vec<StoreWrite>) -> (r: Result<usize, PersistenceError>)
        requires
            old(self).wf(),
        ensures
            final(self).wf(),
            final(self).view() == run_writes(old(self).view(), ws@).0,
            match r {
                Ok(n) => run_writes(old(self).view(), ws@).1 == Ok::<nat, PersistenceError>(n as nat),
                Err(e) => run_writes(old(self).view(), ws@).1 == Err::<nat, PersistenceError>(e),
            },
    {
        let ghost v0 = self.view();
        let ghost ws0 = ws@;
        let mut pending = ws;
        let _n = pending.len();
        let mut skipped: usize = 0;
        while pending.len() > 0
            invariant
                self.wf(),
                ws0.len() <= usize::MAX,
                v0 == old(self).view(),
                ws0 == ws@,
                skipped <= ws0.len() - pending@.len(),
                pending@.len() <= ws0.len(),
                run_writes(v0, ws0) == (
                    run_writes(self.view(), pending@).0,
                    add_skipped(run_writes(self.view(), pending@).1, skipped as nat),
                ),
            decreases pending@.len(),
        {
            let ghost before = self.view();
            let ghost rest = pending@;
            let w = pending.remove(0);
            assert(rest.drop_first() == pending@);
            assert(rest[0] == w);
            let outcome = self.apply(w);
            assert(run_writes(before, rest) == match write_effect(before, w) {
                WriteEffect::Done(v2) => run_writes(v2, pending@),
                WriteEffect::Skipped => {
                    let (vf, r) = run_writes(before, pending@);
                    (vf, add_skipped(r, 1))
                },
                WriteEffect::Exhausted => (before, Err(PersistenceError::IdsExhausted)),
            });
            match outcome {
                Ok(WriteOutcome::Applied) => {},
                Ok(WriteOutcome::UnknownReference) => {
                    let ghost (vf, rr) = run_writes(before, pending@);
                    assert(add_skipped(add_skipped(rr, 1), skipped as nat) == add_skipped(
                        rr,
                        (skipped + 1) as nat,
                    ));
                    skipped = skipped + 1;
                },
                Err(e) => {
                    assert(self.view() == before);
                    assert(run_writes(before, rest) == (before, Err::<nat, PersistenceError>(e)));
                    return Err(e);
                },
            }
        }
        Ok(skipped)
    }
}

} // verus!

verus! {

/// The parent account that a transaction or balance write names, if it names one.
pub open spec fn account_named(w: StoreWrite) -> Option<Seq<char>> {
    match w {
        StoreWrite::UpsertTransaction { account_external_id, .. } => Some(account_external_id@),
        StoreWrite::UpsertBalance { account_external_id, .. } => Some(account_external_id@),
        _ => None,
    }
}

/// Every gateway write is idempotent: making a write a second time, right after it was
/// made, leaves the store exactly as the first time did (same rows, same local ids, same
/// fields, no new id used).
pub proof fn lemma_write_idempotent(v: StoreView, w: StoreWrite)
    ensures
        write_effect(v, w) matches WriteEffect::Done(v2) ==> write_effect(v2, w) == WriteEffect::Done(v2),
{
    if let WriteEffect::Done(v2) = write_effect(v, w) {
        match w {
            StoreWrite::RefreshItem { item_external_id, connector } => {
                let k = item_external_id@;
                assert(v2.items.insert(k, v2.items[k]) =~= v2.items);
            },
            StoreWrite::UpsertAccount { external_id, item_external_id, fields } => {
                let k = external_id@;
                assert(v2.accounts.insert(k, v2.accounts[k]) =~= v2.accounts);
            },
            StoreWrite::UpsertTransaction { external_id, account_external_id, fields } => {
                let k = external_id@;
                assert(v2.transactions.insert(k, v2.transactions[k]) =~= v2.transactions);
            },
            StoreWrite::UpsertBalance { external_id, account_external_id, balance, currency } => {
                let k = external_id@;
                let ak = account_external_id@;
                assert(v2.balances.insert(k, v2.balances[k]) =~= v2.balances);
                assert(v2.accounts.insert(ak, v2.accounts[ak]) =~= v2.accounts);
            },
            StoreWrite::DeleteTransaction { external_id } => {
                assert(v2.transactions.remove(external_id@) =~= v2.transactions);
            },
        }
    }
}

/// Upserts converge, last write wins: after an upsert is made, whatever the store held
/// before (for instance the writes of a concurrent sync of the same item), the row keyed by
/// the write's external id holds exactly the written fields, the keys of its table are the
/// old keys plus that one (no duplicate row), and every other row of the table is as it was.
pub proof fn lemma_upsert_last_write_wins(v: StoreView, w: StoreWrite)
    ensures
        write_effect(v, w) matches WriteEffect::Done(v2) ==> match w {
            StoreWrite::UpsertAccount { external_id, fields, .. } => {
                &&& v2.accounts[external_id@].1.fields == fields
                &&& v2.accounts.dom() == v.accounts.dom().insert(external_id@)
                &&& v2.accounts.remove(external_id@) == v.accounts.remove(external_id@)
            },
            StoreWrite::UpsertTransaction { external_id, fields, .. } => {
                &&& v2.transactions[external_id@].1.fields == fields
                &&& v2.transactions.dom() == v.transactions.dom().insert(external_id@)
                &&& v2.transactions.remove(external_id@) == v.transactions.remove(external_id@)
            },
            StoreWrite::UpsertBalance { external_id, balance, currency, account_external_id } => {
                &&& v2.balances[external_id@].1.balance == balance
                &&& v2.balances[external_id@].1.currency == currency
                &&& v2.accounts[account_external_id@].1.fields.balance == balance
                &&& v2.balances.dom() == v.balances.dom().insert(external_id@)
                &&& v2.balances.remove(external_id@) == v.balances.remove(external_id@)
            },
            _ => true,
        },
{
    if let WriteEffect::Done(v2) = write_effect(v, w) {
        match w {
            StoreWrite::UpsertAccount { external_id, .. } => {
                let k = external_id@;
                assert(v2.accounts.dom() =~= v.accounts.dom().insert(k));
                assert(v2.accounts.remove(k) =~= v.accounts.remove(k));
            },
            StoreWrite::UpsertTransaction { external_id, .. } => {
                let k = external_id@;
                assert(v2.transactions.dom() =~= v.transactions.dom().insert(k));
                assert(v2.transactions.remove(k) =~= v.transactions.remove(k));
            },
            StoreWrite::UpsertBalance { external_id, .. } => {
                let k = external_id@;
                assert(v2.balances.dom() =~= v.balances.dom().insert(k));
                assert(v2.balances.remove(k) =~= v.balances.remove(k));
            },
            _ => {},
        }
    }
}

/// A transaction or balance write whose account is not stored is skipped and the run goes
/// on with the next write: the rest of the run is exactly as if the write were not there,
/// with one more skip counted.
pub proof fn lemma_unknown_account_skipped(v: StoreView, w: StoreWrite, rest: Seq<StoreWrite>)
    requires
        account_named(w) matches Some(ak) && !v.accounts.contains_key(ak),
    ensures
        run_writes(v, seq![w] + rest) == (
            run_writes(v, rest).0,
            add_skipped(run_writes(v, rest).1, 1),
        ),
{
    let ws = seq![w] + rest;
    assert(ws[0] == w);
    assert(ws.drop_first() =~= rest);
}

} // verus!
