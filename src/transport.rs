use vstd::prelude::*;

use crate::error::AuthError;
use crate::session::BskySession;

verus! {

/// The one status that marks an access credential as no longer accepted.
/// Every other answer, an unrelated failure included, keeps the credential.
pub const UNAUTHORIZED: u16 = 401;

/// Whether a probe call found the access credential still valid: `status` is
/// the HTTP status it answered with, `None` where the call failed in transport.
pub fn is_token_valid(status: Option<u16>) -> (r: bool)
    ensures
        r == (status matches Some(code) && code != UNAUTHORIZED),
{
    match status {
        Some(code) => code != UNAUTHORIZED,
        None => false,
    }
}

/// Whether an HTTP status reports success.
pub fn is_success(status: u16) -> (r: bool)
    ensures
        r == (200 <= status <= 299),
{
    200 <= status && status <= 299
}

/// The outcome of a session-creation call that answered with `status` and a
/// body that read as `body` (`None` where it was malformed).
pub fn login_outcome(status: u16, body: Option<BskySession>, detail: String) -> (r: Result<BskySession, AuthError>)
    ensures
        match r {
            Ok(s) => 200 <= status <= 299 && body == Some(s),
            Err(e) => !(200 <= status <= 299 && body is Some) && e == AuthError::LoginFailed(detail),
        },
{
    match body {
        Some(s) => if is_success(status) {
            Ok(s)
        } else {
            Err(AuthError::LoginFailed(detail))
        },
        None => Err(AuthError::LoginFailed(detail)),
    }
}

/// The outcome of a session-refresh call that answered with `status` and a
/// body that read as `body` (`None` where it was malformed).
pub fn refresh_outcome(status: u16, body: Option<BskySession>, detail: String) -> (r: Result<BskySession, AuthError>)
    ensures
        match r {
            Ok(s) => 200 <= status <= 299 && body == Some(s),
            Err(e) => !(200 <= status <= 299 && body is Some) && e == AuthError::RefreshFailed(detail),
        },
{
    match body {
        Some(s) => if is_success(status) {
            Ok(s)
        } else {
            Err(AuthError::RefreshFailed(detail))
        },
        None => Err(AuthError::RefreshFailed(detail)),
    }
}

} // verus!
