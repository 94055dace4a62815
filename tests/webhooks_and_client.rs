use finsync::belvo::client::{authorization_header, basic_authorization, basic_credentials, token_cache, token_url};
use finsync::config::{AppConfig, ConfigError};
use finsync::dates::{resolve_date, CalendarDate};
use finsync::money::Amount;
use finsync::pluggy::client::{
    accounts_url, auth_url, balances_url, check_auth_response, check_response, drain_page, is_success, item_url,
    transactions_url, AggregatorError, CredentialCache,
};
use finsync::pluggy::models::{ApiKeyResponse, Item, PageResponse, Transaction};
use finsync::store::{LocalStore, StoreWrite};
use finsync::sync::{deletion_plan, plan_item_sync, sync_item_data, AccountFeed, ItemSnapshot};
use finsync::webhooks::{
    apply_deletions, classify, plan_item_event, route_event, EventKind, MalformedEvent, PluggyWebhookItem,
    PluggyWebhookPayload, WebhookAction, WebhookResponse,
};

fn today() -> CalendarDate {
    CalendarDate { year: 2025, month: 6, day: 1 }
}

fn payload(event: &str) -> PluggyWebhookPayload {
    PluggyWebhookPayload {
        event: event.to_string(),
        event_id: Some("evt-1".to_string()),
        item_id: None,
        item: None,
        account_id: None,
        transaction_ids: None,
        created_transactions_link: None,
        transactions_created_at_from: None,
    }
}

fn detail(status: &str, connector: Option<&str>) -> Item {
    Item {
        id: "item-1".to_string(),
        connector: connector.map(|c| c.to_string()),
        created_at: "2024-01-01T00:00:00Z".to_string(),
        updated_at: None,
        status: status.to_string(),
        execution_status: None,
        error: None,
        parameter: None,
        client_user_id: None,
    }
}

fn tx(id: &str, account_id: &str) -> Transaction {
    Transaction {
        id: id.to_string(),
        account_id: account_id.to_string(),
        item_id: None,
        amount: Amount::new(-100, 2),
        date: "2024-05-05".to_string(),
        description: None,
        category: None,
        subcategory: None,
        currency_code: "BRL".to_string(),
        balance: None,
        status: None,
        created_at: "2024-05-05".to_string(),
        updated_at: None,
    }
}

fn store_with_transactions(ids: &[&str]) -> LocalStore {
    let mut store = LocalStore::new();
    store.register_item("item-1".to_string(), 1).unwrap();
    let item = store.items_to_sync().remove(0);
    let snap = ItemSnapshot {
        detail: Ok(detail("UPDATED", None)),
        accounts: Ok(vec![AccountFeed {
            account: finsync::pluggy::models::Account {
                id: "acc-1".to_string(),
                item_id: None,
                name: None,
                number: None,
                balance: None,
                currency_code: None,
                type_field: None,
                subtype: None,
                created_at: "2024-01-01".to_string(),
                updated_at: None,
            },
            transactions: Ok(ids.iter().map(|i| tx(i, "acc-1")).collect()),
        }]),
    };
    assert!(sync_item_data(&mut store, &item, &snap, today()).is_ok());
    store
}

#[test]
fn deletion_event_removes_exactly_listed_rows() {
    let mut store = store_with_transactions(&["tx-1", "tx-2", "tx-3", "tx-4"]);
    let mut p = payload("transactions.deleted");
    p.item_id = Some("item-1".to_string());
    p.account_id = Some("acc-1".to_string());
    p.transaction_ids = Some(vec!["tx-1".to_string(), "tx-2".to_string()]);
    let ids = match route_event(p) {
        Ok(WebhookAction::DeleteTransactions { transaction_ids, .. }) => transaction_ids,
        _ => panic!("expected a deletion"),
    };
    apply_deletions(&mut store, &ids);
    let mut left: Vec<String> = store.transactions.rows.iter().map(|r| r.external_id.clone()).collect();
    left.sort();
    assert_eq!(left, vec!["tx-3".to_string(), "tx-4".to_string()]);
    assert_eq!(store.accounts.rows.len(), 1);
}

#[test]
fn deletion_plan_lists_one_delete_per_id() {
    let plan = deletion_plan(&vec!["a".to_string(), "b".to_string()]);
    assert_eq!(plan.len(), 2);
    assert!(matches!(&plan[0], StoreWrite::DeleteTransaction { external_id } if external_id == "a"));
    assert!(matches!(&plan[1], StoreWrite::DeleteTransaction { external_id } if external_id == "b"));
}

#[test]
fn item_updated_but_not_ready_only_refreshes_metadata() {
    let mut p = payload("item.updated");
    p.item = Some(PluggyWebhookItem {
        id: "item-1".to_string(),
        status: "UPDATING".to_string(),
        execution_status: None,
    });
    let key = match route_event(p) {
        Ok(WebhookAction::SyncItem { item_id }) => item_id,
        _ => panic!("expected an item sync"),
    };
    assert_eq!(key, "item-1");
    let mut store = LocalStore::new();
    store.register_item("item-1".to_string(), 1).unwrap();
    let plan = plan_item_event(&key, &Ok(detail("UPDATING", Some("{\"name\":\"Bank\"}"))));
    assert!(!plan.run_sync);
    assert_eq!(plan.writes.len(), 1);
    assert!(store.apply_all(plan.writes).is_ok());
    assert_eq!(store.items.rows[0].data.connector.as_deref(), Some("{\"name\":\"Bank\"}"));
    assert_eq!(store.accounts.rows.len(), 0);
    assert_eq!(store.transactions.rows.len(), 0);
}

#[test]
fn item_updated_and_ready_runs_sync() {
    let plan = plan_item_event(&"item-1".to_string(), &Ok(detail("UPDATED", None)));
    assert!(plan.run_sync);
    assert!(plan.writes.is_empty());
    let failed = plan_item_event(&"item-1".to_string(), &Err(AggregatorError::Http { status: 404, body: String::new() }));
    assert!(!failed.run_sync);
}

#[test]
fn item_id_takes_precedence_over_item_member() {
    let mut p = payload("item.created");
    p.item_id = Some("from-field".to_string());
    p.item = Some(PluggyWebhookItem { id: "from-member".to_string(), status: "UPDATED".to_string(), execution_status: None });
    assert_eq!(p.correlated_item_id().as_deref(), Some("from-field"));
    assert!(matches!(route_event(p), Ok(WebhookAction::SyncItem { item_id }) if item_id == "from-field"));
}

#[test]
fn observation_events_do_not_sync() {
    for (name, kind) in [
        ("item.error", EventKind::ItemError),
        ("item.waiting_user_input", EventKind::ItemWaitingUserInput),
        ("item.login_succeeded", EventKind::ItemLoginSucceeded),
        ("item.deleted", EventKind::ItemDeleted),
    ] {
        let mut p = payload(name);
        p.item_id = Some("item-1".to_string());
        assert!(matches!(route_event(p), Ok(WebhookAction::Observe { kind: k, .. }) if k == kind));
    }
}

#[test]
fn unrecognized_event_is_ignored() {
    assert_eq!(classify("connector.status_updated"), EventKind::Unrecognized);
    assert!(matches!(route_event(payload("connector.status_updated")), Ok(WebhookAction::Ignore)));
    assert!(matches!(route_event(payload("item/updated")), Ok(WebhookAction::Ignore)));
}

#[test]
fn transaction_events_need_their_fields() {
    assert_eq!(route_event(payload("transactions.created")).err(), Some(MalformedEvent::MissingItemId));
    let mut p = payload("transactions.updated");
    p.item_id = Some("item-1".to_string());
    assert_eq!(route_event(p).err(), Some(MalformedEvent::MissingAccountId));
    let mut p = payload("transactions.deleted");
    p.item_id = Some("item-1".to_string());
    p.account_id = Some("acc-1".to_string());
    assert_eq!(route_event(p).err(), Some(MalformedEvent::MissingTransactionIds));
    assert_eq!(route_event(payload("item.updated")).err(), Some(MalformedEvent::MissingItemId));
    let mut p = payload("transactions.created");
    p.item_id = Some("item-1".to_string());
    p.account_id = Some("acc-1".to_string());
    assert!(matches!(route_event(p), Ok(WebhookAction::RefreshTransactions { item_id, account_id })
        if item_id == "item-1" && account_id == "acc-1"));
}

#[test]
fn acknowledgment_is_fixed() {
    assert_eq!(WebhookResponse::acknowledgment().message, "Webhook recebido com sucesso");
}

#[test]
fn credential_is_reused_within_margin() {
    let mut cache = CredentialCache::for_aggregator();
    assert_eq!(cache.current(1_000), None);
    let key = cache.accept(ApiKeyResponse { api_key: "key-1".to_string(), expires_in: Some(3_600) }, 1_000);
    assert_eq!(key, "key-1");
    assert_eq!(cache.expires_at, Some(4_600));
    assert_eq!(cache.current(1_000).as_deref(), Some("key-1"));
    assert_eq!(cache.current(4_299).as_deref(), Some("key-1"));
    assert_eq!(cache.current(4_300), None);
    cache.store("key-2".to_string(), None, 4_300);
    assert_eq!(cache.expires_at, Some(4_300 + 7_200));
    assert_eq!(cache.current(4_300).as_deref(), Some("key-2"));
}

#[test]
fn credential_expiry_saturates_and_ignores_negative_lifetimes() {
    let mut cache = CredentialCache::new(10, 100);
    cache.store("k".to_string(), Some(i64::MAX), u64::MAX - 5);
    assert_eq!(cache.expires_at, Some(u64::MAX));
    cache.store("k".to_string(), Some(-50), 1_000);
    assert_eq!(cache.expires_at, Some(1_000));
    assert_eq!(cache.current(1_000), None);
}

#[test]
fn request_urls() {
    let base = "https://api.pluggy.ai";
    assert_eq!(auth_url(base), "https://api.pluggy.ai/auth");
    assert_eq!(item_url(base, "it-1"), "https://api.pluggy.ai/items/it-1");
    assert_eq!(accounts_url(base, Some("it-1")), "https://api.pluggy.ai/accounts?itemId=it-1");
    assert_eq!(accounts_url(base, None), "https://api.pluggy.ai/accounts");
    assert_eq!(
        transactions_url(base, Some("it-1"), Some("ac-1")),
        "https://api.pluggy.ai/transactions?itemId=it-1&accountId=ac-1"
    );
    assert_eq!(transactions_url(base, None, Some("ac-1")), "https://api.pluggy.ai/transactions?accountId=ac-1");
    assert_eq!(balances_url(base, Some("it-1"), None), "https://api.pluggy.ai/balances?itemId=it-1");
    assert_eq!(balances_url(base, None, None), "https://api.pluggy.ai/balances");
}

#[test]
fn response_status_is_checked() {
    assert!(is_success(200));
    assert!(is_success(299));
    assert!(!is_success(300));
    assert!(!is_success(199));
    assert_eq!(check_response(201, "ok".to_string()).ok().as_deref(), Some("ok"));
    assert!(matches!(check_response(404, "missing".to_string()),
        Err(AggregatorError::Http { status: 404, body }) if body == "missing"));
    assert!(matches!(check_auth_response(401, "denied".to_string()),
        Err(AggregatorError::Auth { status: 401, body }) if body == "denied"));
}

#[test]
fn pages_are_drained() {
    let mut gathered = vec![1, 2];
    let next = drain_page(&mut gathered, PageResponse { results: vec![3, 4], total: 6, total_pages: 3, page: 1 });
    assert_eq!(next, Some(2));
    let next = drain_page(&mut gathered, PageResponse { results: vec![5, 6], total: 6, total_pages: 3, page: 3 });
    assert_eq!(next, None);
    assert_eq!(gathered, vec![1, 2, 3, 4, 5, 6]);
}

#[test]
fn basic_authorization_header() {
    assert_eq!(basic_credentials("id", "secret"), "id:secret");
    assert_eq!(basic_authorization("abc"), "Basic abc");
    assert_eq!(authorization_header("id", "secret"), "Basic aWQ6c2VjcmV0");
    assert_eq!(token_url("https://sandbox.belvo.com"), "https://sandbox.belvo.com/api/token/");
    let cache = token_cache();
    assert_eq!((cache.margin, cache.default_lifetime), (60, 3_600));
}

#[test]
fn resolved_dates() {
    assert_eq!(resolve_date(Some((2024, 1, 2)), today()), CalendarDate { year: 2024, month: 1, day: 2 });
    assert_eq!(resolve_date(None, today()), today());
}

#[test]
fn config_from_values() {
    let s = |v: &str| Some(v.to_string());
    let c = AppConfig::from_values(s("id"), s("secret"), None, s("postgres://db"), s("jwt"), None, None, None)
        .ok()
        .unwrap();
    assert_eq!(c.environment, "sandbox");
    assert_eq!(c.base_url, "https://api.pluggy.ai");
    assert_eq!(c.client_id, "id");
    let c = AppConfig::from_values(s("id"), s("secret"), s("production"), s("db"), s("jwt"), s("a@b.c"), None, None)
        .ok()
        .unwrap();
    assert_eq!(c.environment, "production");
    assert_eq!(c.admin_email.as_deref(), Some("a@b.c"));
    assert_eq!(
        AppConfig::from_values(None, s("x"), None, s("db"), s("jwt"), None, None, None).err(),
        Some(ConfigError::MissingClientId)
    );
    assert_eq!(
        AppConfig::from_values(s("id"), None, None, s("db"), s("jwt"), None, None, None).err(),
        Some(ConfigError::MissingClientSecret)
    );
    assert_eq!(
        AppConfig::from_values(s("id"), s("x"), None, None, s("jwt"), None, None, None).err(),
        Some(ConfigError::MissingDatabaseUrl)
    );
    assert_eq!(
        AppConfig::from_values(s("id"), s("x"), None, s("db"), None, None, None, None).err(),
        Some(ConfigError::MissingJwtSecret)
    );
}

#[test]
fn plan_orders_accounts_before_their_transactions() {
    let snap = ItemSnapshot {
        detail: Ok(detail("UPDATED", Some("{}"))),
        accounts: Ok(vec![AccountFeed {
            account: finsync::pluggy::models::Account {
                id: "acc-1".to_string(),
                item_id: None,
                name: None,
                number: None,
                balance: None,
                currency_code: None,
                type_field: None,
                subtype: None,
                created_at: "2024-01-01".to_string(),
                updated_at: None,
            },
            transactions: Ok(vec![tx("tx-1", "acc-1")]),
        }]),
    };
    let plan = plan_item_sync(&"item-1".to_string(), &snap, today());
    assert!(plan.outcome.is_ok());
    assert_eq!(plan.writes.len(), 3);
    assert!(matches!(&plan.writes[0], StoreWrite::RefreshItem { item_external_id, .. } if item_external_id == "item-1"));
    assert!(matches!(&plan.writes[1], StoreWrite::UpsertAccount { external_id, .. } if external_id == "acc-1"));
    assert!(matches!(&plan.writes[2], StoreWrite::UpsertTransaction { external_id, account_external_id, .. }
        if external_id == "tx-1" && account_external_id == "acc-1"));
}
