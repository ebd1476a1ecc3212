use bsky_widget::error::{AuthError, CallError};
use bsky_widget::retry::{RetryCall, RetryEvent, RetryStep};
use bsky_widget::session::BskySession;
use bsky_widget::token::{AuthEvent, AuthStep, Phase, TokenCache};

fn session(access: &str, refresh: &str, did: &str) -> BskySession {
    BskySession { access_jwt: access.to_string(), refresh_jwt: refresh.to_string(), did: did.to_string() }
}

fn same(a: &BskySession, b: &BskySession) -> bool {
    a.access_jwt == b.access_jwt && a.refresh_jwt == b.refresh_jwt && a.did == b.did
}

/// One ensure-token run against fakes; returns its result and the outside calls made.
fn run_ensure(
    cache: &mut TokenCache,
    force: bool,
    probe_valid: bool,
    mut refresh: impl FnMut(&str) -> Result<BskySession, AuthError>,
    mut login: impl FnMut() -> Result<BskySession, AuthError>,
) -> (Result<String, AuthError>, Vec<String>) {
    let mut calls = Vec::new();
    let mut step = cache.step(AuthEvent::Start(force));
    loop {
        step = match step {
            AuthStep::Probe(t) => {
                calls.push(format!("probe:{}", t));
                cache.step(AuthEvent::Probed(probe_valid))
            }
            AuthStep::Refresh(r) => {
                calls.push(format!("refresh:{}", r));
                cache.step(AuthEvent::Refreshed(refresh(&r)))
            }
            AuthStep::Login => {
                calls.push("login".to_string());
                cache.step(AuthEvent::LoggedIn(login()))
            }
            AuthStep::Finish(r) => return (r, calls),
        };
    }
}

fn no_refresh(_: &str) -> Result<BskySession, AuthError> {
    panic!("refresh must not be called")
}

fn no_login() -> Result<BskySession, AuthError> {
    panic!("login must not be called")
}

#[test]
fn empty_cache_logs_in_and_caches_session() {
    let mut cache = TokenCache::new(None);
    let (r, calls) = run_ensure(&mut cache, false, true, no_refresh, || Ok(session("A1", "R1", "u1")));
    assert_eq!(r.ok(), Some("A1".to_string()));
    assert_eq!(calls, vec!["login".to_string()]);
    assert!(same(cache.session.as_ref().unwrap(), &session("A1", "R1", "u1")));
    assert!(matches!(cache.phase, Phase::Idle));
    let text = bsky_widget::record::encode_session(cache.session.as_ref().unwrap());
    let back = bsky_widget::record::decode_session(&text).unwrap();
    assert!(same(&back, &session("A1", "R1", "u1")));
}

#[test]
fn invalid_probe_refreshes_without_login() {
    let mut cache = TokenCache::new(Some(session("A0", "R0", "u1")));
    let (r, calls) = run_ensure(&mut cache, false, false, |_| Ok(session("A2", "R2", "u1")), no_login);
    assert_eq!(r.ok(), Some("A2".to_string()));
    assert_eq!(calls, vec!["probe:A0".to_string(), "refresh:R0".to_string()]);
    assert!(same(cache.session.as_ref().unwrap(), &session("A2", "R2", "u1")));
}

#[test]
fn valid_cached_session_is_reused_after_one_probe() {
    let mut cache = TokenCache::new(Some(session("A0", "R0", "u1")));
    let (r, calls) = run_ensure(&mut cache, false, true, no_refresh, no_login);
    assert_eq!(r.ok(), Some("A0".to_string()));
    assert_eq!(calls, vec!["probe:A0".to_string()]);
    assert!(same(cache.session.as_ref().unwrap(), &session("A0", "R0", "u1")));
}

#[test]
fn many_callers_cause_a_single_login() {
    let mut cache = TokenCache::new(None);
    let mut logins = 0;
    let mut all_calls = Vec::new();
    for _ in 0..8 {
        let (r, calls) = run_ensure(&mut cache, false, true, no_refresh, || {
            logins += 1;
            Ok(session("A1", "R1", "u1"))
        });
        assert_eq!(r.ok(), Some("A1".to_string()));
        all_calls.extend(calls);
    }
    assert_eq!(logins, 1);
    assert_eq!(all_calls.iter().filter(|c| c.as_str() == "login").count(), 1);
    assert_eq!(all_calls[0], "login");
}

#[test]
fn failed_refresh_falls_back_to_one_login() {
    let mut cache = TokenCache::new(Some(session("A0", "R0", "u1")));
    let (r, calls) = run_ensure(
        &mut cache,
        false,
        false,
        |_| Err(AuthError::RefreshFailed("expired".to_string())),
        || Ok(session("A3", "R3", "u1")),
    );
    assert_eq!(r.ok(), Some("A3".to_string()));
    assert_eq!(calls, vec!["probe:A0".to_string(), "refresh:R0".to_string(), "login".to_string()]);
    assert!(same(cache.session.as_ref().unwrap(), &session("A3", "R3", "u1")));
}

#[test]
fn forced_run_skips_probe() {
    let mut cache = TokenCache::new(Some(session("A0", "R0", "u1")));
    let (r, calls) = run_ensure(&mut cache, true, true, |_| Ok(session("A4", "R4", "u1")), no_login);
    assert_eq!(r.ok(), Some("A4".to_string()));
    assert_eq!(calls, vec!["refresh:R0".to_string()]);
}

#[test]
fn failed_login_keeps_stale_session() {
    let mut cache = TokenCache::new(Some(session("A0", "R0", "u1")));
    let (r, calls) = run_ensure(
        &mut cache,
        true,
        true,
        |_| Err(AuthError::RefreshFailed("expired".to_string())),
        || Err(AuthError::LoginFailed("bad password".to_string())),
    );
    assert!(matches!(r, Err(AuthError::LoginFailed(ref d)) if d == "bad password"));
    assert_eq!(calls, vec!["refresh:R0".to_string(), "login".to_string()]);
    assert!(same(cache.session.as_ref().unwrap(), &session("A0", "R0", "u1")));
    assert!(matches!(cache.phase, Phase::Idle));
}

#[test]
fn failed_login_on_empty_cache_leaves_it_empty() {
    let mut cache = TokenCache::new(None);
    let (r, _) = run_ensure(&mut cache, false, true, no_refresh, || Err(AuthError::MissingConfig));
    assert!(matches!(r, Err(AuthError::MissingConfig)));
    assert!(cache.session.is_none());
}

#[test]
fn expects_only_the_awaited_event() {
    let mut cache = TokenCache::new(Some(session("A0", "R0", "u1")));
    assert!(cache.expects(&AuthEvent::Start(false)));
    assert!(!cache.expects(&AuthEvent::Probed(true)));
    let _ = cache.step(AuthEvent::Start(false));
    assert!(matches!(cache.phase, Phase::Probing));
    assert!(cache.expects(&AuthEvent::Probed(true)));
    assert!(!cache.expects(&AuthEvent::Start(true)));
}

/// Runs one retry-coupled call against fakes; returns its result and the steps taken.
fn run_retry(
    tokens: Vec<Result<String, AuthError>>,
    results: Vec<Result<u32, String>>,
) -> (Result<u32, CallError<String>>, Vec<String>) {
    let mut tokens = tokens.into_iter();
    let mut results = results.into_iter();
    let mut steps = Vec::new();
    let (mut state, mut step) = RetryCall::<String>::new().step(RetryEvent::Begin);
    loop {
        let event = match step {
            RetryStep::Ensure(force) => {
                steps.push(format!("ensure:{}", force));
                RetryEvent::Ensured(tokens.next().expect("no more ensure outcomes"))
            }
            RetryStep::Invoke(t) => {
                steps.push(format!("invoke:{}", t));
                RetryEvent::Returned(results.next().expect("no more op outcomes"))
            }
            RetryStep::Finish(r) => return (r, steps),
        };
        assert!(state.expects(&event));
        let (s, a) = state.step(event);
        state = s;
        step = a;
    }
}

#[test]
fn always_failing_op_is_tried_twice() {
    let (r, steps) = run_retry(
        vec![Ok("T1".to_string()), Ok("T2".to_string())],
        vec![Err("boom".to_string()), Err("boom".to_string())],
    );
    assert!(matches!(r, Err(CallError::Op(ref e)) if e == "boom"));
    assert_eq!(steps, vec!["ensure:false", "invoke:T1", "ensure:true", "invoke:T2"]);
}

#[test]
fn forced_reauth_failure_returns_first_op_error() {
    let (r, steps) = run_retry(
        vec![Ok("T1".to_string()), Err(AuthError::LoginFailed("down".to_string()))],
        vec![Err("first".to_string())],
    );
    assert!(matches!(r, Err(CallError::Op(ref e)) if e == "first"));
    assert_eq!(steps, vec!["ensure:false", "invoke:T1", "ensure:true"]);
}

#[test]
fn auth_failure_attempts_no_op() {
    let (r, steps) = run_retry(vec![Err(AuthError::MissingConfig)], vec![]);
    assert!(matches!(r, Err(CallError::Auth(AuthError::MissingConfig))));
    assert_eq!(steps, vec!["ensure:false"]);
}

#[test]
fn success_needs_no_retry() {
    let (r, steps) = run_retry(vec![Ok("T1".to_string())], vec![Ok(7)]);
    assert_eq!(r.ok(), Some(7));
    assert_eq!(steps, vec!["ensure:false", "invoke:T1"]);
}

#[test]
fn second_attempt_success_is_returned() {
    let (r, steps) = run_retry(
        vec![Ok("T1".to_string()), Ok("T2".to_string())],
        vec![Err("expired".to_string()), Ok(9)],
    );
    assert_eq!(r.ok(), Some(9));
    assert_eq!(steps, vec!["ensure:false", "invoke:T1", "ensure:true", "invoke:T2"]);
}
