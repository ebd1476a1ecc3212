use bsky_widget::config::{get_credentials, login_url, probe_url, refresh_url};
use bsky_widget::error::AuthError;
use bsky_widget::render::show_debug_params;
use bsky_widget::session::BskySession;
use bsky_widget::transport::{is_success, is_token_valid, login_outcome, refresh_outcome};

fn session(access: &str, refresh: &str, did: &str) -> BskySession {
    BskySession { access_jwt: access.to_string(), refresh_jwt: refresh.to_string(), did: did.to_string() }
}

#[test]
fn credentials_need_identifier_and_secret() {
    assert!(matches!(get_credentials(None, Some("pw".to_string()), None), Err(AuthError::MissingConfig)));
    assert!(matches!(get_credentials(Some("me".to_string()), None, None), Err(AuthError::MissingConfig)));
}

#[test]
fn base_url_defaults() {
    let c = get_credentials(Some("me".to_string()), Some("pw".to_string()), None).ok().unwrap();
    assert_eq!(c.identifier, "me");
    assert_eq!(c.secret, "pw");
    assert_eq!(c.base_url, "https://bsky.social");
    let c = get_credentials(Some("me".to_string()), Some("pw".to_string()), Some("http://local".to_string())).ok().unwrap();
    assert_eq!(c.base_url, "http://local");
}

#[test]
fn endpoints() {
    assert_eq!(login_url("https://bsky.social"), "https://bsky.social/xrpc/com.atproto.server.createSession");
    assert_eq!(refresh_url("https://bsky.social"), "https://bsky.social/xrpc/com.atproto.server.refreshSession");
    assert_eq!(probe_url("http://x"), "http://x/xrpc/app.bsky.feed.getTimeline");
}

#[test]
fn only_unauthorized_invalidates() {
    assert!(!is_token_valid(None));
    assert!(!is_token_valid(Some(401)));
    assert!(is_token_valid(Some(200)));
    assert!(is_token_valid(Some(500)));
    assert!(is_token_valid(Some(403)));
}

#[test]
fn success_statuses() {
    assert!(is_success(200));
    assert!(is_success(299));
    assert!(!is_success(199));
    assert!(!is_success(300));
    assert!(!is_success(401));
}

#[test]
fn login_outcomes() {
    let ok = login_outcome(200, Some(session("A", "R", "d")), "unused".to_string());
    assert_eq!(ok.ok().unwrap().access_jwt, "A");
    let r = login_outcome(401, Some(session("A", "R", "d")), "status 401".to_string());
    assert!(matches!(r, Err(AuthError::LoginFailed(ref d)) if d == "status 401"));
    let r = login_outcome(200, None, "malformed".to_string());
    assert!(matches!(r, Err(AuthError::LoginFailed(ref d)) if d == "malformed"));
}

#[test]
fn refresh_outcomes() {
    let ok = refresh_outcome(201, Some(session("A", "R", "d")), "unused".to_string());
    assert_eq!(ok.ok().unwrap().refresh_jwt, "R");
    let r = refresh_outcome(400, Some(session("A", "R", "d")), "status 400".to_string());
    assert!(matches!(r, Err(AuthError::RefreshFailed(ref d)) if d == "status 400"));
    let r = refresh_outcome(200, None, "malformed".to_string());
    assert!(matches!(r, Err(AuthError::RefreshFailed(_))));
}

#[test]
fn debug_params_are_listed_in_order() {
    let mut body = "<body>".to_string();
    let query = vec![("tags".to_string(), "rust".to_string()), ("limit".to_string(), "5".to_string())];
    show_debug_params(&query, &mut body);
    assert_eq!(
        body,
        "<body><p class=\"size-h1\">Parameters:</p><p><strong>tags:</strong> rust</p><p><strong>limit:</strong> 5</p>"
    );
}

#[test]
fn debug_params_empty() {
    let mut body = String::new();
    show_debug_params(&Vec::new(), &mut body);
    assert_eq!(body, "<p class=\"size-h1\">Parameters:</p>");
}
