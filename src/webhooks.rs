use vstd::prelude::*;
use crate::dates::CalendarDate;
use crate::pluggy::client::AggregatorError;
use crate::pluggy::models::{Balance, Item, Transaction};
use crate::store::{LocalStore, StoreWrite, run_writes};
use crate::sync::{SyncError, clone_error, balance_plan, balance_write, deletion_plan, transaction_event_plan, transaction_writes};

verus! {

/// The item member of a push notification.
pub struct PluggyWebhookItem {
    pub id: String,
    pub status: String,
    pub execution_status: Option<String>,
}

/// A push notification from the aggregator, with the members that the engine reads.
pub struct PluggyWebhookPayload {
    pub event: String,
    pub event_id: Option<String>,
    pub item_id: Option<String>,
    pub item: Option<PluggyWebhookItem>,
    pub account_id: Option<String>,
    pub transaction_ids: Option<Vec<String>>,
    pub created_transactions_link: Option<String>,
    pub transactions_created_at_from: Option<String>,
}

/// The fixed acknowledgment of every notification.
pub struct WebhookResponse {
    pub message: String,
}

/// The classes of notification that the engine tells apart.
#[derive(Clone, Copy, Debug, PartialEq, Eq, Structural)]
pub enum EventKind {
    ItemCreated,
    ItemUpdated,
    ItemError,
    ItemWaitingUserInput,
    ItemLoginSucceeded,
    ItemDeleted,
    TransactionsCreated,
    TransactionsUpdated,
    TransactionsDeleted,
    Unrecognized,
}

/// The class of an event name.
pub open spec fn event_kind(name: Seq<char>) -> EventKind {
    if name == "item.created"@ {
        EventKind::ItemCreated
    } else if name == "item.updated"@ {
        EventKind::ItemUpdated
    } else if name == "item.error"@ {
        EventKind::ItemError
    } else if name == "item.waiting_user_input"@ {
        EventKind::ItemWaitingUserInput
    } else if name == "item.login_succeeded"@ {
        EventKind::ItemLoginSucceeded
    } else if name == "item.deleted"@ {
        EventKind::ItemDeleted
    } else if name == "transactions.created"@ {
        EventKind::TransactionsCreated
    } else if name == "transactions.updated"@ {
        EventKind::TransactionsUpdated
    } else if name == "transactions.deleted"@ {
        EventKind::TransactionsDeleted
    } else {
        EventKind::Unrecognized
    }
}

fn same_text(a: &str, b: &str) -> (r: bool)
    ensures
        r == (a@ == b@),
{
    a.to_owned() == b.to_owned()
}

/// Classifies an event name.
pub fn classify(name: &str) -> (r: EventKind)
    ensures
        r == event_kind(name@),
{
    if same_text(name, "item.created") {
        EventKind::ItemCreated
    } else if same_text(name, "item.updated") {
        EventKind::ItemUpdated
    } else if same_text(name, "item.error") {
        EventKind::ItemError
    } else if same_text(name, "item.waiting_user_input") {
        EventKind::ItemWaitingUserInput
    } else if same_text(name, "item.login_succeeded") {
        EventKind::ItemLoginSucceeded
    } else if same_text(name, "item.deleted") {
        EventKind::ItemDeleted
    } else if same_text(name, "transactions.created") {
        EventKind::TransactionsCreated
    } else if same_text(name, "transactions.updated") {
        EventKind::TransactionsUpdated
    } else if same_text(name, "transactions.deleted") {
        EventKind::TransactionsDeleted
    } else {
        EventKind::Unrecognized
    }
}

/// What to do for one notification.
pub enum WebhookAction {
    /// `item.created` / `item.updated`: fetch the item's detail, refresh its metadata, and
    /// sync it in full if it is fully updated.
    SyncItem { item_id: String },
    /// Error, waiting, login and deletion events of an item: observed only.
    Observe { kind: EventKind, item_id: String },
    /// `transactions.created` / `transactions.updated`: refetch and upsert the account's
    /// transactions, then refresh its balances.
    RefreshTransactions { item_id: String, account_id: String },
    /// `transactions.deleted`: delete the listed transactions, then refresh balances.
    DeleteTransactions { item_id: String, account_id: String, transaction_ids: Vec<String> },
    /// An event the engine does not handle.
    Ignore,
}

/// A notification that lacks a member its class needs.
#[derive(Clone, Copy, Debug, PartialEq, Eq, Structural)]
pub enum MalformedEvent {
    MissingItemId,
    MissingAccountId,
    MissingTransactionIds,
}

/// The item a notification is about: `itemId`, or else the id of its `item` member.
pub open spec fn correlated_item(p: PluggyWebhookPayload) -> Option<String> {
    match p.item_id {
        Some(id) => Some(id),
        None => match p.item {
            Some(item) => Some(item.id),
            None => None,
        },
    }
}

/// The action for a notification, or the member it lacks. Item events need an item id;
/// transaction events an item id and an account id; deletions also the transaction ids.
pub open spec fn routed(p: PluggyWebhookPayload) -> Result<WebhookAction, MalformedEvent> {
    let kind = event_kind(p.event@);
    let item = correlated_item(p);
    match kind {
        EventKind::Unrecognized => Ok(WebhookAction::Ignore),
        EventKind::TransactionsCreated | EventKind::TransactionsUpdated
            | EventKind::TransactionsDeleted => {
            if item is None {
                Err(MalformedEvent::MissingItemId)
            } else if p.account_id is None {
                Err(MalformedEvent::MissingAccountId)
            } else if kind == EventKind::TransactionsDeleted {
                match p.transaction_ids {
                    None => Err(MalformedEvent::MissingTransactionIds),
                    Some(ids) => Ok(
                        WebhookAction::DeleteTransactions {
                            item_id: item->0,
                            account_id: p.account_id->0,
                            transaction_ids: ids,
                        },
                    ),
                }
            } else {
                Ok(
                    WebhookAction::RefreshTransactions {
                        item_id: item->0,
                        account_id: p.account_id->0,
                    },
                )
            }
        },
        _ => {
            if item is None {
                Err(MalformedEvent::MissingItemId)
            } else if kind == EventKind::ItemCreated || kind == EventKind::ItemUpdated {
                Ok(WebhookAction::SyncItem { item_id: item->0 })
            } else {
                Ok(WebhookAction::Observe { kind, item_id: item->0 })
            }
        },
    }
}

impl PluggyWebhookPayload {
    /// The item this notification is about.
    pub fn correlated_item_id(&self) -> (r: Option<String>)
        ensures
            r == correlated_item(*self),
    {
        match &self.item_id {
            Some(id) => Some(id.clone()),
            None => match &self.item {
                Some(item) => Some(item.id.clone()),
                None => None,
            },
        }
    }
}

/// Validates a notification and decides what to do for it.
pub fn route_event(payload: PluggyWebhookPayload) -> (r: Result<WebhookAction, MalformedEvent>)
    ensures
        r == routed(payload),
{
    let kind = classify(payload.event.as_str());
    let item = payload.correlated_item_id();
    match kind {
        EventKind::Unrecognized => Ok(WebhookAction::Ignore),
        EventKind::TransactionsCreated | EventKind::TransactionsUpdated
        | EventKind::TransactionsDeleted => {
            let item_id = match item {
                None => {
                    return Err(MalformedEvent::MissingItemId);
                },
                Some(id) => id,
            };
            let account_id = match payload.account_id {
                None => {
                    return Err(MalformedEvent::MissingAccountId);
                },
                Some(id) => id,
            };
            if kind == EventKind::TransactionsDeleted {
                match payload.transaction_ids {
                    None => Err(MalformedEvent::MissingTransactionIds),
                    Some(ids) => Ok(
                        WebhookAction::DeleteTransactions { item_id, account_id, transaction_ids: ids },
                    ),
                }
            } else {
                Ok(WebhookAction::RefreshTransactions { item_id, account_id })
            }
        },
        _ => {
            let item_id = match item {
                None => {
                    return Err(MalformedEvent::MissingItemId);
                },
                Some(id) => id,
            };
            if kind == EventKind::ItemCreated || kind == EventKind::ItemUpdated {
                Ok(WebhookAction::SyncItem { item_id })
            } else {
                Ok(WebhookAction::Observe { kind, item_id })
            }
        },
    }
}

impl WebhookResponse {
    /// The acknowledgment returned for every notification, whatever its processing does.
    pub fn acknowledgment() -> (r: WebhookResponse)
        ensures
            r.message@ == "Webhook recebido com sucesso"@,
    {
        WebhookResponse { message: "Webhook recebido com sucesso".to_owned() }
    }
}

/// The status of an item that has finished collecting its data.
pub open spec fn is_fully_updated(status: Seq<char>) -> bool {
    status == "UPDATED"@
}

/// What follows the detail fetch of an item event: the metadata refresh, and whether to
/// go on to the item's full sync (only for a fetched item that is fully updated).
pub struct ItemEventPlan {
    pub writes: Vec<StoreWrite>,
    pub run_sync: bool,
}

/// Decides an item event from the fetched detail. The connector metadata is refreshed
/// whenever the detail was fetched; accounts and transactions are fetched only for an item
/// whose status is fully updated.
pub fn plan_item_event(item_key: &String, detail: &Result<Item, AggregatorError>) -> (r: ItemEventPlan)
    ensures
        r.run_sync == (detail matches Ok(item) && is_fully_updated(item.status@)),
        detail matches Ok(item) ==> (item.connector matches Some(c) ==> r.writes@ == seq![
            StoreWrite::RefreshItem { item_external_id: *item_key, connector: c },
        ]),
        !(detail matches Ok(item) && item.connector is Some) ==> r.writes@.len() == 0,
{
    let mut writes: Vec<StoreWrite> = Vec::new();
    match detail {
        Ok(item) => {
            match &item.connector {
                Some(c) => {
                    writes.push(
                        StoreWrite::RefreshItem {
                            item_external_id: item_key.clone(),
                            connector: c.clone(),
                        },
                    );
                },
                None => {},
            }
            let ready = same_text(item.status.as_str(), "UPDATED");
            ItemEventPlan { writes, run_sync: ready }
        },
        Err(_) => ItemEventPlan { writes, run_sync: false },
    }
}

/// Applies the transactions fetched for a `transactions.created` / `transactions.updated`
/// event: each is upserted under the event's account (skipped if that account is not
/// stored). Returns the number of skipped writes.
pub fn apply_transaction_event(
    store: &mut LocalStore,
    account_key: &String,
    fetched: &Result<Vec<Transaction>, AggregatorError>,
    today: CalendarDate,
) -> (r: Result<usize, SyncError>)
    requires
        old(store).wf(),
    ensures
        final(store).wf(),
        fetched is Err ==> final(store).view() == old(store).view(),
        *fetched matches Err(e) ==> r == Err::<usize, SyncError>(SyncError::Aggregator(e)),
        *fetched matches Ok(txs) ==> ({
            let (vf, res) = run_writes(old(store).view(), transaction_writes(*account_key, txs@, today));
            &&& final(store).view() == vf
            &&& (res matches Ok(n) ==> r == Ok::<usize, SyncError>(n as usize))
            &&& (res matches Err(e) ==> r == Err::<usize, SyncError>(SyncError::Persistence(e)))
        }),
{
    match fetched {
        Err(e) => Err(SyncError::Aggregator(clone_error(e))),
        Ok(txs) => {
            let writes = transaction_event_plan(account_key, txs, today);
            match store.apply_all(writes) {
                Ok(n) => Ok(n),
                Err(e) => Err(SyncError::Persistence(e)),
            }
        },
    }
}

/// Applies fetched balances: each is upserted by its external id under its account, and
/// the account's own balance field is overwritten; a balance of an account that is not
/// stored is skipped. Returns the number of skipped balances.
pub fn apply_balances(store: &mut LocalStore, fetched: &Result<Vec<Balance>, AggregatorError>) -> (r: Result<usize, SyncError>)
    requires
        old(store).wf(),
    ensures
        final(store).wf(),
        fetched is Err ==> final(store).view() == old(store).view(),
        *fetched matches Err(e) ==> r == Err::<usize, SyncError>(SyncError::Aggregator(e)),
        *fetched matches Ok(bs) ==> ({
            let (vf, res) = run_writes(
                old(store).view(),
                bs@.map_values(|b: Balance| balance_write(b)),
            );
            &&& final(store).view() == vf
            &&& (res matches Ok(n) ==> r == Ok::<usize, SyncError>(n as usize))
            &&& (res matches Err(e) ==> r == Err::<usize, SyncError>(SyncError::Persistence(e)))
        }),
{
    match fetched {
        Err(e) => Err(SyncError::Aggregator(clone_error(e))),
        Ok(bs) => {
            let writes = balance_plan(bs);
            match store.apply_all(writes) {
                Ok(n) => Ok(n),
                Err(e) => Err(SyncError::Persistence(e)),
            }
        },
    }
}

/// Deletes the transactions with the given external ids (a `transactions.deleted`
/// event); every other row is left as it was.
pub fn apply_deletions(store: &mut LocalStore, ids: &Vec<String>)
    requires
        old(store).wf(),
    ensures
        final(store).wf(),
        final(store).view().transactions == old(store).view().transactions.remove_keys(
            ids@.map_values(|id: String| id@).to_set(),
        ),
        final(store).view().items == old(store).view().items,
        final(store).view().accounts == old(store).view().accounts,
        final(store).view().balances == old(store).view().balances,
        final(store).view().next_id == old(store).view().next_id,
{
    let ghost v0 = store.view();
    let mut i: usize = 0;
    while i < ids.len()
        invariant
            i <= ids@.len(),
            store.wf(),
            v0 == old(store).view(),
            store.view().transactions == v0.transactions.remove_keys(
                ids@.subrange(0, i as int).map_values(|id: String| id@).to_set(),
            ),
            store.view().items == v0.items,
            store.view().accounts == v0.accounts,
            store.view().balances == v0.balances,
            store.view().next_id == v0.next_id,
        decreases ids@.len() - i,
    {
        let _ = store.apply(StoreWrite::DeleteTransaction { external_id: ids[i].clone() });
        proof {
            let s0 = ids@.subrange(0, i as int).map_values(|id: String| id@).to_set();
            let s1 = ids@.subrange(0, i + 1).map_values(|id: String| id@).to_set();
            assert(ids@.subrange(0, i + 1) =~= ids@.subrange(0, i as int).push(ids@[i as int]));
            assert(ids@.subrange(0, i + 1).map_values(|id: String| id@) =~= ids@.subrange(
                0,
                i as int,
            ).map_values(|id: String| id@).push(ids@[i as int]@));
            ids@.subrange(0, i as int).map_values(|id: String| id@).lemma_push_to_set_commute(
                ids@[i as int]@,
            );
            assert(s1 =~= s0.insert(ids@[i as int]@));
            assert(store.view().transactions =~= v0.transactions.remove_keys(s1));
        }
        i = i + 1;
    }
    assert(ids@.subrange(0, ids@.len() as int) =~= ids@);
}

} // verus!
