//! The credential cache: at most one token with its expiry text, and the
//! evaluation of that expiry against a clock.
use vstd::prelude::*;
use crate::clock::{
    UtcInstant, is_after, later_than, parse_naive_utc, parse_rfc2822, parse_rfc3339,
    naive_utc_instant, rfc2822_instant, rfc3339_instant, utc_now,
};
use crate::error::StoreError;

verus! {

/// Zone-less pattern "YYYY-MM-DD HH:MM:SS".
pub const NAIVE_PATTERN: &'static str = "%Y-%m-%d %H:%M:%S";

/// Zone-less ISO-like pattern with fractional seconds and a literal `Z`.
pub const FRACTIONAL_PATTERN: &'static str = "%Y-%m-%dT%H:%M:%S%.fZ";

/// One stored credential.
pub struct AuthRecord {
    pub token: String,
    pub expires_at: String,
}

/// The credential rows, in the order they were inserted (oldest first).
pub struct AuthTable {
    pub rows: Vec<AuthRecord>,
}

/// Request body of a remote login.
#[derive(Debug)]
pub struct LoginRequest {
    pub username: String,
    pub password: String,
}

/// Answer of a remote login.
#[derive(Debug)]
pub struct LoginResponse {
    pub success: bool,
    pub token: String,
    pub expires_at: String,
}

/// What the command layer sees of the stored credential.
#[derive(Debug)]
pub struct TokenInfo {
    pub token: String,
    pub expires_at: String,
    pub is_valid: bool,
}

/// The view of a table: (token, expiry) pairs, oldest first.
pub open spec fn rows_view(t: &AuthTable) -> Seq<(Seq<char>, Seq<char>)> {
    t.rows@.map_values(|r: AuthRecord| (r.token@, r.expires_at@))
}

/// The most recently inserted credential, if any.
pub open spec fn latest(rows: Seq<(Seq<char>, Seq<char>)>) -> Option<(Seq<char>, Seq<char>)> {
    if rows.len() == 0 {
        None
    } else {
        Some(rows.last())
    }
}

/// The view of an optional (token, expiry) pair.
pub open spec fn pair_view(p: Option<(String, String)>) -> Option<(Seq<char>, Seq<char>)> {
    match p {
        Some((a, b)) => Some((a@, b@)),
        None => None,
    }
}

/// The instant that an expiry text denotes: the first of RFC 3339, RFC 2822,
/// the naive pattern and the fractional pattern (both read as UTC) that reads it.
pub open spec fn expiry_of(s: Seq<char>) -> Option<(i64, u32)> {
    if rfc3339_instant(s).is_some() {
        rfc3339_instant(s)
    } else if rfc2822_instant(s).is_some() {
        rfc2822_instant(s)
    } else if naive_utc_instant(s, NAIVE_PATTERN@).is_some() {
        naive_utc_instant(s, NAIVE_PATTERN@)
    } else {
        naive_utc_instant(s, FRACTIONAL_PATTERN@)
    }
}

/// Whether the latest credential counts as expired at `now`: absent counts as
/// expired; an unreadable expiry is an error; otherwise expired iff the expiry is
/// strictly before `now`.
pub open spec fn expired_status(
    rows: Seq<(Seq<char>, Seq<char>)>,
    now: UtcInstant,
) -> Result<bool, StoreError> {
    match latest(rows) {
        None => Ok(true),
        Some((_, e)) => match expiry_of(e) {
            None => Err(StoreError::TimestampFormat),
            Some((s, n)) => Ok(is_after(now, UtcInstant { secs: s, nanos: n })),
        },
    }
}

/// What `get_token` owes at `now`: `NotFound` when no credential is stored;
/// otherwise the latest credential, valid iff it is known not to be expired.
pub open spec fn token_info_at(
    rows: Seq<(Seq<char>, Seq<char>)>,
    now: UtcInstant,
    r: Result<TokenInfo, StoreError>,
) -> bool {
    match latest(rows) {
        None => r == Err::<TokenInfo, StoreError>(StoreError::NotFound),
        Some((t, e)) => r.is_ok() && r.unwrap().token@ == t && r.unwrap().expires_at@ == e
            && r.unwrap().is_valid == (expired_status(rows, now) == Ok::<bool, StoreError>(false)),
    }
}

/// Validity at `now`: the negation of the expiry status, errors passed on.
pub open spec fn valid_status(rows: Seq<(Seq<char>, Seq<char>)>, now: UtcInstant) -> Result<bool, StoreError> {
    match expired_status(rows, now) {
        Ok(b) => Ok(!b),
        Err(e) => Err(e),
    }
}

impl AuthTable {
    /// An empty table.
    pub fn new() -> (r: AuthTable)
        ensures
            rows_view(&r).len() == 0,
    {
        AuthTable { rows: Vec::new() }
    }
}

/// Replaces every stored credential by the one given.
pub fn save_auth_token(table: &mut AuthTable, token: &str, expires_at: &str)
    ensures
        rows_view(final(table)) == seq![(token@, expires_at@)],
{
    table.rows.clear();
    table.rows.push(AuthRecord { token: token.to_owned(), expires_at: expires_at.to_owned() });
    assert(rows_view(table) =~= seq![(token@, expires_at@)]);
}

/// The most recently inserted credential as (token, expiry), or `None`.
pub fn get_auth_token(table: &AuthTable) -> (r: Option<(String, String)>)
    ensures
        pair_view(r) == latest(rows_view(table)),
{
    let n = table.rows.len();
    if n == 0 {
        None
    } else {
        let rec = &table.rows[n - 1];
        Some((rec.token.clone(), rec.expires_at.clone()))
    }
}

/// Removes every stored credential. Removing from an empty table is no error.
pub fn delete_auth_token(table: &mut AuthTable)
    ensures
        rows_view(final(table)).len() == 0,
{
    table.rows.clear();
    assert(rows_view(table) =~= Seq::empty());
}

/// Reads an expiry text with the fallback chain of encodings.
pub fn parse_expiry(s: &str) -> (r: Result<UtcInstant, StoreError>)
    ensures
        match expiry_of(s@) {
            None => r == Err::<UtcInstant, StoreError>(StoreError::TimestampFormat),
            Some((secs, nanos)) => r == Ok::<UtcInstant, StoreError>(UtcInstant { secs, nanos }),
        },
{
    let parsed = match parse_rfc3339(s) {
        Some(p) => Some(p),
        None => match parse_rfc2822(s) {
            Some(p) => Some(p),
            None => match parse_naive_utc(s, NAIVE_PATTERN) {
                Some(p) => Some(p),
                None => parse_naive_utc(s, FRACTIONAL_PATTERN),
            },
        },
    };
    match parsed {
        Some((secs, nanos)) => Ok(UtcInstant { secs, nanos }),
        None => Err(StoreError::TimestampFormat),
    }
}

/// Whether the stored credential is expired at the instant `now`.
pub fn is_token_expired_at(table: &AuthTable, now: UtcInstant) -> (r: Result<bool, StoreError>)
    ensures
        r == expired_status(rows_view(table), now),
{
    match get_auth_token(table) {
        None => Ok(true),
        Some((_, expires_at)) => match parse_expiry(expires_at.as_str()) {
            Err(e) => Err(e),
            Ok(exp) => Ok(later_than(now, exp)),
        },
    }
}

/// Whether the stored credential is expired now, by the wall clock.
pub fn is_token_expired(table: &AuthTable) -> (r: Result<bool, StoreError>)
    ensures
        exists|now: UtcInstant| r == #[trigger] expired_status(rows_view(table), now),
{
    let now = utc_now();
    is_token_expired_at(table, now)
}

/// The stored credential with its validity at `now`; an unreadable expiry
/// counts as not valid.
pub fn get_token_at(table: &AuthTable, now: UtcInstant) -> (r: Result<TokenInfo, StoreError>)
    ensures
        token_info_at(rows_view(table), now, r),
{
    match get_auth_token(table) {
        None => Err(StoreError::NotFound),
        Some((token, expires_at)) => {
            let expired = match is_token_expired_at(table, now) {
                Ok(b) => b,
                Err(_) => true,
            };
            Ok(TokenInfo { token, expires_at, is_valid: !expired })
        },
    }
}

/// The stored credential with its validity by the wall clock.
pub fn get_token(table: &AuthTable) -> (r: Result<TokenInfo, StoreError>)
    ensures
        exists|now: UtcInstant| #[trigger] token_info_at(rows_view(table), now, r),
{
    let now = utc_now();
    get_token_at(table, now)
}

/// Whether the stored credential is still valid at `now`.
pub fn check_token_valid_at(table: &AuthTable, now: UtcInstant) -> (r: Result<bool, StoreError>)
    ensures
        r == valid_status(rows_view(table), now),
{
    match is_token_expired_at(table, now) {
        Ok(b) => Ok(!b),
        Err(e) => Err(e),
    }
}

/// Whether the stored credential is still valid by the wall clock.
pub fn check_token_valid(table: &AuthTable) -> (r: Result<bool, StoreError>)
    ensures
        exists|now: UtcInstant| r == #[trigger] valid_status(rows_view(table), now),
{
    let now = utc_now();
    check_token_valid_at(table, now)
}

/// After a save of (token, expiry), whatever was stored before, the table holds
/// exactly one row and reading it gives back that pair.
pub proof fn law_save_then_get(token: Seq<char>, expires_at: Seq<char>)
    ensures
        seq![(token, expires_at)].len() == 1,
        latest(seq![(token, expires_at)]) == Some((token, expires_at)),
{
}

/// With no credential stored (after a delete, or never saved), reading gives
/// nothing and the credential counts as expired, without error, at any instant.
pub proof fn law_empty_is_absent_and_expired(rows: Seq<(Seq<char>, Seq<char>)>, now: UtcInstant)
    requires
        rows.len() == 0,
    ensures
        latest(rows) == None::<(Seq<char>, Seq<char>)>,
        expired_status(rows, now) == Ok::<bool, StoreError>(true),
{
}

/// When no accepted encoding reads the latest expiry, the expiry check fails
/// with `TimestampFormat` instead of answering.
pub proof fn law_unreadable_expiry_fails(
    rows: Seq<(Seq<char>, Seq<char>)>,
    token: Seq<char>,
    expires_at: Seq<char>,
    now: UtcInstant,
)
    requires
        expiry_of(expires_at).is_none(),
    ensures
        expired_status(rows.push((token, expires_at)), now) == Err::<bool, StoreError>(
            StoreError::TimestampFormat,
        ),
{
}

/// Why a remote login did not yield a credential.
#[derive(Debug, Clone, Copy, PartialEq, Eq, Structural)]
pub enum LoginFailure {
    /// The server refused the user name or password.
    BadCredentials,
    /// The server answered with this non-success status.
    Http(u16),
    /// The answer's body could not be read.
    InvalidResponse,
}

/// HTTP success statuses.
pub open spec fn is_success_status(status: u16) -> bool {
    200 <= status <= 299
}

/// Completes a login from the server's status and its decoded body (`None`
/// when the body could not be read). A successful answer with `success` set
/// replaces the stored credential; every other outcome leaves the table as it was.
pub fn complete_login(
    table: &mut AuthTable,
    status: u16,
    response: Option<LoginResponse>,
) -> (r: Result<LoginResponse, LoginFailure>)
    ensures
        is_success_status(status) && response.is_some() && response.unwrap().success ==> r == Ok::<
            LoginResponse,
            LoginFailure,
        >(response.unwrap()) && rows_view(final(table)) == seq![
            (response.unwrap().token@, response.unwrap().expires_at@),
        ],
        is_success_status(status) && response.is_some() && !response.unwrap().success ==> r
            == Err::<LoginResponse, LoginFailure>(LoginFailure::BadCredentials),
        is_success_status(status) && response.is_none() ==> r == Err::<LoginResponse, LoginFailure>(
            LoginFailure::InvalidResponse,
        ),
        !is_success_status(status) && status == 401 ==> r == Err::<LoginResponse, LoginFailure>(
            LoginFailure::BadCredentials,
        ),
        !is_success_status(status) && status != 401 ==> r == Err::<LoginResponse, LoginFailure>(
            LoginFailure::Http(status),
        ),
        r.is_err() ==> final(table).rows@ == old(table).rows@,
{
    if 200 <= status && status <= 299 {
        match response {
            None => Err(LoginFailure::InvalidResponse),
            Some(resp) => {
                if resp.success {
                    save_auth_token(table, resp.token.as_str(), resp.expires_at.as_str());
                    Ok(resp)
                } else {
                    Err(LoginFailure::BadCredentials)
                }
            },
        }
    } else if status == 401 {
        Err(LoginFailure::BadCredentials)
    } else {
        Err(LoginFailure::Http(status))
    }
}

} // verus!
