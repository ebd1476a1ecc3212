use vstd::prelude::*;

verus! {

/// Why no access credential could be produced.
pub enum AuthError {
    /// The identifier or the secret is absent from the configuration.
    MissingConfig,
    /// The session-creation call failed; the text says how.
    LoginFailed(String),
    /// The session-refresh call failed; the text says how.
    RefreshFailed(String),
}

impl AuthError {
    /// The text shown for this error.
    pub fn message(&self) -> (r: String)
        ensures
            r@ == match self {
                AuthError::MissingConfig => "identifier or secret is not configured"@,
                AuthError::LoginFailed(d) => "login failed: "@ + d@,
                AuthError::RefreshFailed(d) => "refresh failed: "@ + d@,
            },
    {
        match self {
            AuthError::MissingConfig => "identifier or secret is not configured".to_owned(),
            AuthError::LoginFailed(d) => {
                let mut r = "login failed: ".to_owned();
                r.append(d.as_str());
                r
            },
            AuthError::RefreshFailed(d) => {
                let mut r = "refresh failed: ".to_owned();
                r.append(d.as_str());
                r
            },
        }
    }
}

/// The failure of a call made through the retry-coupled caller.
pub enum CallError<E> {
    /// No access credential could be obtained before the first attempt.
    Auth(AuthError),
    /// The downstream operation failed.
    Op(E),
}

} // verus!
