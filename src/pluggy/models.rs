use vstd::prelude::*;
use crate::money::Amount;

verus! {

/// The aggregator's answer to a credential request.
pub struct ApiKeyResponse {
    pub api_key: String,
    /// Lifetime of the credential in seconds, where the aggregator states one.
    pub expires_in: Option<i64>,
}

/// An item (a linked bank connection) as the aggregator reports it. Free-form JSON
/// members are carried as their JSON text.
pub struct Item {
    pub id: String,
    pub connector: Option<String>,
    pub created_at: String,
    pub updated_at: Option<String>,
    pub status: String,
    pub execution_status: Option<String>,
    pub error: Option<String>,
    pub parameter: Option<String>,
    pub client_user_id: Option<String>,
}

/// One page of a paginated list.
pub struct PageResponse<T> {
    pub results: Vec<T>,
    pub total: u32,
    pub total_pages: u32,
    pub page: u32,
}

/// An account as the aggregator reports it.
pub struct Account {
    pub id: String,
    pub item_id: Option<String>,
    pub name: Option<String>,
    pub number: Option<String>,
    pub balance: Option<Amount>,
    pub currency_code: Option<String>,
    pub type_field: Option<String>,
    pub subtype: Option<String>,
    pub created_at: String,
    pub updated_at: Option<String>,
}

/// A transaction as the aggregator reports it.
pub struct Transaction {
    pub id: String,
    pub account_id: String,
    pub item_id: Option<String>,
    pub amount: Amount,
    /// An ISO date, possibly followed by a time of day.
    pub date: String,
    pub description: Option<String>,
    pub category: Option<String>,
    pub subcategory: Option<String>,
    pub currency_code: String,
    pub balance: Option<Amount>,
    pub status: Option<String>,
    pub created_at: String,
    pub updated_at: Option<String>,
}

/// A balance as the aggregator reports it.
pub struct Balance {
    pub id: String,
    pub account_id: String,
    pub item_id: Option<String>,
    pub balance: Amount,
    pub currency: String,
    pub created_at: String,
    pub updated_at: Option<String>,
}

/// The body of an error answer.
pub struct ErrorResponse {
    pub detail: Option<String>,
    pub message: Option<String>,
    pub code: Option<String>,
}

/// The aggregator's answer to a connect-token request.
pub struct ConnectTokenResponse {
    pub connect_token: String,
}

} // verus!
