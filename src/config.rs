use vstd::prelude::*;

use crate::error::AuthError;

verus! {

/// The API origin used when none is configured.
pub const DEFAULT_BASE_URL: &'static str = "https://bsky.social";

/// Where sessions are created.
pub const CREATE_SESSION_PATH: &'static str = "/xrpc/com.atproto.server.createSession";

/// Where sessions are refreshed.
pub const REFRESH_SESSION_PATH: &'static str = "/xrpc/com.atproto.server.refreshSession";

/// A low-cost endpoint that needs a valid access credential.
pub const PROBE_PATH: &'static str = "/xrpc/app.bsky.feed.getTimeline";

/// What logging in needs: who, with what secret, against which origin.
pub struct Credentials {
    pub identifier: String,
    pub secret: String,
    pub base_url: String,
}

/// The API origin: the configured one, or the default.
pub open spec fn base_url_of(configured: Option<String>) -> Seq<char> {
    match configured {
        Some(b) => b@,
        None => DEFAULT_BASE_URL@,
    }
}

/// The API origin: the configured one, or the default.
pub fn base_url(configured: Option<String>) -> (r: String)
    ensures
        r@ == base_url_of(configured),
{
    match configured {
        Some(b) => b,
        None => DEFAULT_BASE_URL.to_owned(),
    }
}

/// The credentials from the configured values; `MissingConfig` when the
/// identifier or the secret is absent.
pub fn get_credentials(identifier: Option<String>, secret: Option<String>, base_url: Option<String>) -> (r: Result<Credentials, AuthError>)
    ensures
        r is Err <==> (identifier is None || secret is None),
        r matches Err(e) ==> e is MissingConfig,
        r matches Ok(c) ==> {
            &&& identifier == Some(c.identifier)
            &&& secret == Some(c.secret)
            &&& c.base_url@ == base_url_of(base_url)
        },
{
    let identifier = match identifier {
        Some(i) => i,
        None => return Err(AuthError::MissingConfig),
    };
    let secret = match secret {
        Some(s) => s,
        None => return Err(AuthError::MissingConfig),
    };
    Ok(Credentials { identifier, secret, base_url: self::base_url(base_url) })
}

/// `base` followed by `path`.
fn join(base: &str, path: &str) -> (r: String)
    ensures
        r@ == base@ + path@,
{
    let mut r = base.to_owned();
    r.append(path);
    r
}

/// The session-creation endpoint of origin `base`.
pub fn login_url(base: &str) -> (r: String)
    ensures
        r@ == base@ + CREATE_SESSION_PATH@,
{
    join(base, CREATE_SESSION_PATH)
}

/// The session-refresh endpoint of origin `base`.
pub fn refresh_url(base: &str) -> (r: String)
    ensures
        r@ == base@ + REFRESH_SESSION_PATH@,
{
    join(base, REFRESH_SESSION_PATH)
}

/// The probe endpoint of origin `base`.
pub fn probe_url(base: &str) -> (r: String)
    ensures
        r@ == base@ + PROBE_PATH@,
{
    join(base, PROBE_PATH)
}

} // verus!
