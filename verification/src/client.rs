//! The authenticated session to the client's local HTTPS service.
//!
//! A session is built once per discovery from [`RiotLockFile`] credentials:
//! its base URL is `<protocol>://127.0.0.1:<port>` and every request carries
//! the fixed `Authorization: Basic <token>` header. The service presents a
//! self-signed certificate unique per launch, so certificate verification is
//! disabled for this client instance alone; unrelated clients keep full
//! validation. Requests and responses themselves are asynchronous transport
//! and live outside the library; the URL and path construction and the
//! classification of response statuses are defined and verified here.

use vstd::prelude::*;

use crate::lcc::RiotLockFile;
use crate::strutil::{dec_str, dec_str_signed, u64_to_string, i64_to_string};

verus! {

#[verifier::external_type_specification]
#[verifier::external_body]
pub struct ExClient(reqwest::Client);

/// Failure modes of the session: the transport client could not be built or
/// a call failed below HTTP, or the service answered with a non-success
/// status, preserved for the caller's own decisions.
#[derive(Debug, Clone, Copy, PartialEq, Eq, Structural)]
pub enum LeagueClientError {
    ReqwestError,
    ApiError(u16),
}

/// The fixed request timeout, in seconds, bounding hangs against an
/// unresponsive local service.
pub const REQUEST_TIMEOUT_SECS: u64 = 10;

/// Relies on reqwest's `ClientBuilder` and header types: the built client
/// carries the given value as its permanent `Authorization` header, marked
/// sensitive so the transport never logs it; certificate verification is
/// disabled for this one client instance (the local service's certificate is
/// self-signed); and every request is bounded by the given timeout.
/// `HeaderValue::from_str` rejects values with characters not permitted in a
/// header, and building can fail, so nothing is promised of the outcome.
#[verifier::external_body]
fn build_lcu_client(auth_value: &str, user_agent: &str, timeout_secs: u64) -> (r: Result<
    reqwest::Client,
    (),
>)
{
    let mut headers = reqwest::header::HeaderMap::new();
    let mut auth = match reqwest::header::HeaderValue::from_str(auth_value) {
        Ok(v) => v,
        Err(_) => return Err(()),
    };
    auth.set_sensitive(true);
    headers.insert(reqwest::header::AUTHORIZATION, auth);
    reqwest::Client::builder()
        .default_headers(headers)
        .danger_accept_invalid_certs(true)
        .user_agent(user_agent)
        .timeout(std::time::Duration::from_secs(timeout_secs))
        .build()
        .map_err(|_| ())
}

/// The session base URL for the given wire protocol and port.
pub open spec fn spec_base_url(protocol: Seq<char>, port: nat) -> Seq<char> {
    protocol + "://127.0.0.1:"@ + dec_str(port)
}

/// An authenticated session to the local service: the transport client with
/// its fixed sensitive Authorization header, and the base URL every endpoint
/// path is appended to.
pub struct LeagueClient {
    pub client: reqwest::Client,
    pub base_url: String,
}

/// The `Authorization` header value derived from the credentials.
pub fn auth_header_value(lockfile: &RiotLockFile) -> (r: String)
    ensures
        r@ == "Basic "@ + lockfile.b64_auth@,
{
    let mut v = String::from_str("Basic ");
    v.append(lockfile.b64_auth.as_str());
    v
}

impl LeagueClient {
    /// Builds a session from credentials. On success the base URL is exactly
    /// `<protocol>://127.0.0.1:<port>`; the only failure is the transport
    /// client refusing to build (an invalid header value, or builder
    /// failure), reported as `ReqwestError`.
    pub fn new(lockfile: RiotLockFile) -> (r: Result<LeagueClient, LeagueClientError>)
        ensures
            r matches Ok(c) ==> c.base_url@ == spec_base_url(
                lockfile.protocol@,
                lockfile.port as nat,
            ),
            r matches Err(e) ==> e == LeagueClientError::ReqwestError,
    {
        let auth_value = auth_header_value(&lockfile);
        match build_lcu_client(auth_value.as_str(), "uggo-lol-client/0.5.1", REQUEST_TIMEOUT_SECS) {
            Err(()) => Err(LeagueClientError::ReqwestError),
            Ok(client) => {
                let mut base_url = lockfile.protocol.clone();
                base_url.append("://127.0.0.1:");
                base_url.append(u64_to_string(lockfile.port as u64).as_str());
                proof {
                    assert(base_url@ =~= spec_base_url(lockfile.protocol@, lockfile.port as nat));
                }
                Ok(LeagueClient { client, base_url })
            },
        }
    }

    /// The full URL of one endpoint: the base URL with the path appended.
    pub fn request_url(&self, endpoint: &str) -> (r: String)
        ensures
            r@ == self.base_url@ + endpoint@,
    {
        let mut u = self.base_url.clone();
        u.append(endpoint);
        u
    }
}

/// Classifies one HTTP response status: success exactly for the 2xx range,
/// and any other status preserved in `ApiError` for the caller.
pub fn classify_status(code: u16) -> (r: Result<(), LeagueClientError>)
    ensures
        r matches Ok(u) <==> 200 <= code < 300,
        r matches Err(e) ==> e == LeagueClientError::ApiError(code),
{
    if 200 <= code && code < 300 {
        Ok(())
    } else {
        Err(LeagueClientError::ApiError(code))
    }
}

/// The endpoint serving the current identity.
pub fn summoner_path() -> (r: &'static str)
    ensures
        r@ == "/lol-summoner/v1/current-summoner"@,
{
    "/lol-summoner/v1/current-summoner"
}

/// The endpoint listing all configuration pages.
pub fn rune_pages_path() -> (r: &'static str)
    ensures
        r@ == "/lol-perks/v1/pages"@,
{
    "/lol-perks/v1/pages"
}

/// The endpoint serving the currently active configuration page.
pub fn current_rune_page_path() -> (r: &'static str)
    ensures
        r@ == "/lol-perks/v1/currentpage"@,
{
    "/lol-perks/v1/currentpage"
}

/// The endpoint addressing one configuration page by its numeric id.
pub fn rune_page_path(id: i64) -> (r: String)
    ensures
        r@ == "/lol-perks/v1/pages/"@ + dec_str_signed(id as int),
{
    let mut p = String::from_str("/lol-perks/v1/pages/");
    p.append(i64_to_string(id).as_str());
    p
}

} // verus!
