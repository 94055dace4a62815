use vstd::prelude::*;
use crate::pluggy::models::{ApiKeyResponse, PageResponse};

verus! {

/// Seconds before its expiry at which a cached credential is no longer used: enough to
/// cover one round trip.
pub const SAFETY_MARGIN_SECS: u64 = 300;

/// Lifetime assumed for a credential whose issuance states none.
pub const DEFAULT_LIFETIME_SECS: u64 = 7200;

/// A failed call to the aggregator.
pub enum AggregatorError {
    /// Credential issuance answered with a non-success status.
    Auth { status: u16, body: String },
    /// A fetch answered with a non-success status.
    Http { status: u16, body: String },
    /// The request could not be made or its answer could not be read.
    Transport { message: String },
}

/// HTTP success: a status in 200 to 299.
pub open spec fn is_success_status(status: u16) -> bool {
    200 <= status <= 299
}

/// Whether a response status is a success.
pub fn is_success(status: u16) -> (r: bool)
    ensures
        r == is_success_status(status),
{
    200 <= status && status <= 299
}

/// Turns the status and body of a fetch's response into its body, or into the error that
/// carries both.
pub fn check_response(status: u16, body: String) -> (r: Result<String, AggregatorError>)
    ensures
        is_success_status(status) ==> r == Ok::<String, AggregatorError>(body),
        !is_success_status(status) ==> r == Err::<String, AggregatorError>(
            AggregatorError::Http { status, body },
        ),
{
    if is_success(status) {
        Ok(body)
    } else {
        Err(AggregatorError::Http { status, body })
    }
}

/// As `check_response`, for the answer to a credential request.
pub fn check_auth_response(status: u16, body: String) -> (r: Result<String, AggregatorError>)
    ensures
        is_success_status(status) ==> r == Ok::<String, AggregatorError>(body),
        !is_success_status(status) ==> r == Err::<String, AggregatorError>(
            AggregatorError::Auth { status, body },
        ),
{
    if is_success(status) {
        Ok(body)
    } else {
        Err(AggregatorError::Auth { status, body })
    }
}

/// The one cached credential of a client, with its expiry (seconds since the epoch).
/// Callers that share a client hold this behind one lock.
pub struct CredentialCache {
    pub token: Option<String>,
    pub expires_at: Option<u64>,
    pub margin: u64,
    pub default_lifetime: u64,
}

/// The lifetime that an issuance grants: the stated one (a negative one counts as zero),
/// or the default.
pub open spec fn lifetime(expires_in: Option<i64>, default_lifetime: u64) -> int {
    match expires_in {
        Some(s) => if s < 0 { 0 } else { s as int },
        None => default_lifetime as int,
    }
}

/// The expiry of a credential issued at `now`, capped at the largest time.
pub open spec fn expiry(now: u64, expires_in: Option<i64>, default_lifetime: u64) -> u64 {
    if now + lifetime(expires_in, default_lifetime) > u64::MAX {
        u64::MAX
    } else {
        (now + lifetime(expires_in, default_lifetime)) as u64
    }
}

impl CredentialCache {
    /// The cached credential may be used at `now`: `now < expires_at - margin`.
    pub open spec fn reusable(self, now: u64) -> bool {
        &&& self.token is Some
        &&& self.expires_at is Some
        &&& now + self.margin < self.expires_at->0
    }

    /// The cache after a credential was issued at `now`.
    pub open spec fn stored(self, token: String, expires_in: Option<i64>, now: u64) -> CredentialCache {
        CredentialCache {
            token: Some(token),
            expires_at: Some(expiry(now, expires_in, self.default_lifetime)),
            ..self
        }
    }

    /// An empty cache with the given safety margin and default lifetime.
    pub fn new(margin: u64, default_lifetime: u64) -> (r: CredentialCache)
        ensures
            r.token is None,
            r.expires_at is None,
            r.margin == margin,
            r.default_lifetime == default_lifetime,
    {
        CredentialCache { token: None, expires_at: None, margin, default_lifetime }
    }

    /// An empty cache with the aggregator's margin and default lifetime.
    pub fn for_aggregator() -> (r: CredentialCache)
        ensures
            r.token is None,
            r.expires_at is None,
            r.margin == SAFETY_MARGIN_SECS,
            r.default_lifetime == DEFAULT_LIFETIME_SECS,
    {
        CredentialCache::new(SAFETY_MARGIN_SECS, DEFAULT_LIFETIME_SECS)
    }

    /// The credential to use at `now`: the cached one while it is reusable; `None` when a
    /// new one must be issued.
    pub fn current(&self, now: u64) -> (r: Option<String>)
        ensures
            self.reusable(now) ==> r == self.token,
            !self.reusable(now) ==> r is None,
    {
        match (&self.token, self.expires_at) {
            (Some(token), Some(expires_at)) => {
                if now < expires_at && expires_at - now > self.margin {
                    Some(token.clone())
                } else {
                    None
                }
            },
            _ => None,
        }
    }

    /// Records a credential issued at `now`.
    pub fn store(&mut self, token: String, expires_in: Option<i64>, now: u64)
        ensures
            *final(self) == old(self).stored(token, expires_in, now),
    {
        let life: u64 = match expires_in {
            Some(s) => if s < 0 { 0 } else { s as u64 },
            None => self.default_lifetime,
        };
        let at = if life > u64::MAX - now { u64::MAX } else { now + life };
        self.token = Some(token);
        self.expires_at = Some(at);
    }

    /// Records the aggregator's answer to a credential request made at `now`, and returns
    /// the credential.
    pub fn accept(&mut self, response: ApiKeyResponse, now: u64) -> (r: String)
        ensures
            r == response.api_key,
            *final(self) == old(self).stored(response.api_key, response.expires_in, now),
    {
        let key = response.api_key.clone();
        self.store(response.api_key, response.expires_in, now);
        key
    }
}

/// A credential stored at `issued_at` is reused by every call up to the safety margin
/// before its expiry, so two such calls need no second issuance.
pub proof fn lemma_credential_reuse(
    c: CredentialCache,
    token: String,
    expires_in: Option<i64>,
    issued_at: u64,
    t1: u64,
    t2: u64,
)
    requires
        issued_at <= t1 <= t2,
        t2 + c.margin < expiry(issued_at, expires_in, c.default_lifetime),
    ensures
        c.stored(token, expires_in, issued_at).reusable(t1),
        c.stored(token, expires_in, issued_at).reusable(t2),
        c.stored(token, expires_in, issued_at).token == Some(token),
{
}

/// A call at or past the safety margin before expiry finds no usable credential, and one
/// issuance at that time, with a lifetime longer than the margin, makes the credential
/// usable again: exactly one re-issuance.
pub proof fn lemma_credential_renewal(
    c: CredentialCache,
    now: u64,
    token: String,
    expires_in: Option<i64>,
)
    requires
        c.expires_at matches Some(e) && now + c.margin >= e,
        now + lifetime(expires_in, c.default_lifetime) <= u64::MAX,
        lifetime(expires_in, c.default_lifetime) > c.margin,
    ensures
        !c.reusable(now),
        c.stored(token, expires_in, now).reusable(now),
        c.stored(token, expires_in, now).token == Some(token),
{
}

/// The query that filters a list by item and by account, each where given.
pub open spec fn filter_query(item_id: Option<Seq<char>>, account_id: Option<Seq<char>>) -> Seq<char> {
    match (item_id, account_id) {
        (None, None) => Seq::empty(),
        (Some(i), None) => "?itemId="@ + i,
        (None, Some(a)) => "?accountId="@ + a,
        (Some(i), Some(a)) => "?itemId="@ + i + "&accountId="@ + a,
    }
}

pub open spec fn opt_view(o: Option<&str>) -> Option<Seq<char>> {
    match o {
        Some(s) => Some(s@),
        None => None,
    }
}

/// `base` followed by `path`.
pub fn endpoint(base: &str, path: &str) -> (r: String)
    ensures
        r@ == base@ + path@,
{
    let mut url = base.to_owned();
    url.append(path);
    url
}

/// The URL of a list endpoint filtered by item and account, each where given.
pub fn filtered_url(base: &str, path: &str, item_id: Option<&str>, account_id: Option<&str>) -> (r: String)
    ensures
        r@ == base@ + path@ + filter_query(opt_view(item_id), opt_view(account_id)),
{
    let mut url = endpoint(base, path);
    match item_id {
        Some(i) => {
            url.append("?itemId=");
            url.append(i);
            match account_id {
                Some(a) => {
                    url.append("&accountId=");
                    url.append(a);
                },
                None => {},
            }
        },
        None => {
            match account_id {
                Some(a) => {
                    url.append("?accountId=");
                    url.append(a);
                },
                None => {},
            }
        },
    }
    proof {
        let b = base@ + path@;
        match (opt_view(item_id), opt_view(account_id)) {
            (Some(i), Some(a)) => {
                assert(b + "?itemId="@ + i + "&accountId="@ + a =~= b + ("?itemId="@ + i
                    + "&accountId="@ + a));
            },
            (Some(i), None) => {
                assert(b + "?itemId="@ + i =~= b + ("?itemId="@ + i));
            },
            (None, Some(a)) => {
                assert(b + "?accountId="@ + a =~= b + ("?accountId="@ + a));
            },
            (None, None) => {
                assert(b + Seq::<char>::empty() =~= b);
            },
        }
    }
    url
}

/// The URL that issues credentials.
pub fn auth_url(base: &str) -> (r: String)
    ensures
        r@ == base@ + "/auth"@,
{
    endpoint(base, "/auth")
}

/// The URL of one item's detail.
pub fn item_url(base: &str, item_id: &str) -> (r: String)
    ensures
        r@ == base@ + "/items/"@ + item_id@,
{
    let mut url = endpoint(base, "/items/");
    url.append(item_id);
    url
}

/// The URL of the accounts of an item (of all items when none is given).
pub fn accounts_url(base: &str, item_id: Option<&str>) -> (r: String)
    ensures
        r@ == base@ + "/accounts"@ + filter_query(opt_view(item_id), None),
{
    filtered_url(base, "/accounts", item_id, None)
}

/// The URL of the transactions filtered by item and account.
pub fn transactions_url(base: &str, item_id: Option<&str>, account_id: Option<&str>) -> (r: String)
    ensures
        r@ == base@ + "/transactions"@ + filter_query(opt_view(item_id), opt_view(account_id)),
{
    filtered_url(base, "/transactions", item_id, account_id)
}

/// The URL of the balances filtered by item and account.
pub fn balances_url(base: &str, item_id: Option<&str>, account_id: Option<&str>) -> (r: String)
    ensures
        r@ == base@ + "/balances"@ + filter_query(opt_view(item_id), opt_view(account_id)),
{
    filtered_url(base, "/balances", item_id, account_id)
}

/// The page that follows page `page` of `total_pages`, if any.
pub open spec fn following_page(page: u32, total_pages: u32) -> Option<u32> {
    if page < total_pages {
        Some((page + 1) as u32)
    } else {
        None
    }
}

/// Adds one page's results to those gathered so far, and says which page to fetch next,
/// if any: a list is drained to its last page before it is handed on.
pub fn drain_page<T>(gathered: &mut Vec<T>, page: PageResponse<T>) -> (r: Option<u32>)
    ensures
        final(gathered)@ == old(gathered)@ + page.results@,
        r == following_page(page.page, page.total_pages),
{
    let mut results = page.results;
    gathered.append(&mut results);
    if page.page < page.total_pages {
        Some(page.page + 1)
    } else {
        None
    }
}

} // verus!
