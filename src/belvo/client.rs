use vstd::prelude::*;
use base64::Engine;
use crate::pluggy::client::CredentialCache;

verus! {

/// Seconds before expiry at which a cached token is no longer used.
pub const TOKEN_MARGIN_SECS: u64 = 60;

/// Lifetime assumed for a token whose answer states none.
pub const TOKEN_DEFAULT_LIFETIME_SECS: u64 = 3600;

/// Longest text, in characters, that `encode_base64` is given.
pub const MAX_ENCODED_INPUT: u64 = 0x1000_0000;

/// The standard base64 encoding (with padding) of the UTF-8 bytes of a text.
pub uninterp spec fn base64_of(s: Seq<char>) -> Seq<char>;

/// Relies on base64's `STANDARD` engine `encode`: the result depends on the bytes alone,
/// and no bytes encode to the empty text. The length bound keeps its size computation
/// from overflowing, which would panic.
#[verifier::external_body]
fn encode_base64(s: &str) -> (r: String)
    requires
        s@.len() <= MAX_ENCODED_INPUT,
    ensures
        r@ == base64_of(s@),
        s@.len() == 0 ==> r@.len() == 0,
{
    base64::engine::general_purpose::STANDARD.encode(s.as_bytes())
}

/// An empty token cache with this aggregator's margin and default lifetime.
pub fn token_cache() -> (r: CredentialCache)
    ensures
        r.token is None,
        r.expires_at is None,
        r.margin == TOKEN_MARGIN_SECS,
        r.default_lifetime == TOKEN_DEFAULT_LIFETIME_SECS,
{
    CredentialCache::new(TOKEN_MARGIN_SECS, TOKEN_DEFAULT_LIFETIME_SECS)
}

/// The text that basic authentication encodes: `id:password`.
pub fn basic_credentials(secret_id: &str, secret_password: &str) -> (r: String)
    ensures
        r@ == secret_id@ + ":"@ + secret_password@,
{
    let mut s = secret_id.to_owned();
    s.append(":");
    s.append(secret_password);
    s
}

/// The `Authorization` header value for encoded basic credentials.
pub fn basic_authorization(encoded: &str) -> (r: String)
    ensures
        r@ == "Basic "@ + encoded@,
{
    let mut s = "Basic ".to_owned();
    s.append(encoded);
    s
}

/// The `Authorization` header value of a token request.
pub fn authorization_header(secret_id: &str, secret_password: &str) -> (r: String)
    requires
        secret_id@.len() + secret_password@.len() < MAX_ENCODED_INPUT,
    ensures
        r@ == "Basic "@ + base64_of(secret_id@ + ":"@ + secret_password@),
{
    let credentials = basic_credentials(secret_id, secret_password);
    proof {
        reveal_strlit(":");
    }
    let encoded = encode_base64(credentials.as_str());
    basic_authorization(encoded.as_str())
}

/// The URL that issues tokens.
pub fn token_url(base: &str) -> (r: String)
    ensures
        r@ == base@ + "/api/token/"@,
{
    let mut s = base.to_owned();
    s.append("/api/token/");
    s
}

} // verus!
