use vstd::prelude::*;

verus! {

/// The answer to a token request.
pub struct TokenResponse {
    pub access: String,
    pub refresh: Option<String>,
    pub expires_in: Option<i64>,
}

/// A link (a bank connection) as this aggregator reports it.
pub struct Link {
    pub id: String,
    pub institution: String,
    pub access_mode: String,
    pub status: String,
    pub created_at: String,
    pub external_id: Option<String>,
}

/// The body of an error answer.
pub struct ErrorResponse {
    pub detail: Option<String>,
    pub message: Option<String>,
}

} // verus!
