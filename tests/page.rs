use bsky_widget::config::base_url;
use bsky_widget::error::AuthError;
use bsky_widget::html::{build_html_header, build_posts_html, PostView};
use bsky_widget::order::newest_first;
use bsky_widget::params::{parse_params, parse_relative_time, parse_tags};
use bsky_widget::search::{build_search_query, search_limit};
use bsky_widget::session::BskySession;
use bsky_widget::token::{AuthEvent, AuthStep, Phase, TokenCache};

fn q(pairs: &[(&str, &str)]) -> Vec<(String, String)> {
    pairs.iter().map(|(k, v)| (k.to_string(), v.to_string())).collect()
}

#[test]
fn relative_times() {
    assert_eq!(parse_relative_time("-7d"), Some(7 * 86400));
    assert_eq!(parse_relative_time("-12h"), Some(12 * 3600));
    assert_eq!(parse_relative_time("-30m"), Some(1800));
    assert_eq!(parse_relative_time("-45s"), Some(45));
    assert_eq!(parse_relative_time("--2h"), Some(-7200));
    assert_eq!(parse_relative_time("-+3m"), Some(180));
    assert_eq!(parse_relative_time("7d"), None);
    assert_eq!(parse_relative_time("-d"), None);
    assert_eq!(parse_relative_time("-7w"), None);
    assert_eq!(parse_relative_time("-x7d"), None);
    assert_eq!(parse_relative_time(""), None);
    assert_eq!(parse_relative_time("-9223372036854775807s"), Some(i64::MAX));
    assert_eq!(parse_relative_time("-9223372036854775807d"), None);
    assert_eq!(parse_relative_time("-99999999999999999999s"), None);
}

#[test]
fn params_defaults() {
    let p = parse_params(&Vec::new());
    assert!(p.tags.is_empty());
    assert_eq!(p.limit, 10);
    assert!(!p.debug);
    assert_eq!(p.text_color, "000000");
    assert_eq!(p.author_color, "666");
    assert_eq!(p.text_hover_color, "000000");
    assert_eq!(p.author_hover_color, "666");
    assert_eq!(p.since_seconds, None);
    assert_eq!(p.sort, "latest");
    assert_eq!(p.title, "Bluesky");
    assert_eq!(p.collapse_after, 5);
}

#[test]
fn params_given() {
    let p = parse_params(&q(&[
        ("tags", " rust, actix ,,web "),
        ("limit", "25"),
        ("debug", "true"),
        ("text_color", "112233"),
        ("author_color", "445566"),
        ("text_hover_color", "778899"),
        ("author_hover_color", "aabbcc"),
        ("since", "-2h"),
        ("sort", "top"),
        ("title", "Rust news"),
        ("collapse_after", "3"),
    ]));
    assert_eq!(p.tags, vec!["rust".to_string(), "actix".to_string(), "web".to_string()]);
    assert_eq!(p.limit, 25);
    assert!(p.debug);
    assert_eq!(p.text_color, "112233");
    assert_eq!(p.author_color, "445566");
    assert_eq!(p.text_hover_color, "778899");
    assert_eq!(p.author_hover_color, "aabbcc");
    assert_eq!(p.since_seconds, Some(7200));
    assert_eq!(p.sort, "top");
    assert_eq!(p.title, "Rust news");
    assert_eq!(p.collapse_after, 3);
}

#[test]
fn params_unreadable_values_take_defaults() {
    let p = parse_params(&q(&[("limit", "-1"), ("debug", "yes"), ("collapse_after", "x"), ("since", "")]));
    assert_eq!(p.limit, 10);
    assert!(!p.debug);
    assert_eq!(p.collapse_after, 5);
    assert_eq!(p.since_seconds, None);
    let p = parse_params(&q(&[("limit", "+7"), ("debug", "false")]));
    assert_eq!(p.limit, 7);
    assert!(!p.debug);
}

#[test]
fn tags_split_and_trimmed() {
    assert_eq!(parse_tags("a,b"), vec!["a".to_string(), "b".to_string()]);
    assert_eq!(parse_tags(""), Vec::<String>::new());
    assert_eq!(parse_tags(" , ,"), Vec::<String>::new());
    assert_eq!(parse_tags("\tx y ,z"), vec!["x y".to_string(), "z".to_string()]);
}

#[test]
fn header_carries_colours() {
    let p = parse_params(&q(&[("text_color", "T1"), ("author_color", "A1"), ("text_hover_color", "T2"), ("author_hover_color", "A2")]));
    let h = build_html_header(&p);
    assert!(h.starts_with("<!DOCTYPE html>\n    <html>"));
    assert!(h.ends_with("</style>\n    </head>\n    <body>\n    "));
    assert!(h.contains(".post-text a {\n                color: #T1;"));
    assert!(h.contains(".post-text a:hover {\n                color: #T2;"));
    assert_eq!(h.matches("color: #A1;").count(), 2);
    assert_eq!(h.matches("color: #A2;").count(), 2);
    assert!(h.contains(".post-container {\n                margin-bottom: 1em;"));
}

#[test]
fn no_posts_notice() {
    let mut body = String::new();
    build_posts_html(&Vec::new(), &mut body, 5);
    assert_eq!(body, "<p>No posts found for those hashtags.</p>");
}

#[test]
fn posts_rendered_in_order() {
    let posts = vec![
        PostView {
            uri: "at://did:plc:abc/app.bsky.feed.post/3kxyz".to_string(),
            text: Some("hello".to_string()),
            handle: Some("alice.bsky.social".to_string()),
            created_at: Some("2025-01-05T12:00:00Z".to_string()),
            like_count: Some(12),
            quote_count: None,
            reply_count: Some(0),
            repost_count: Some(4294967295),
        },
        PostView {
            uri: "plain".to_string(),
            text: None,
            handle: None,
            created_at: None,
            like_count: None,
            quote_count: None,
            reply_count: None,
            repost_count: None,
        },
    ];
    let mut body = String::new();
    build_posts_html(&posts, &mut body, 17);
    assert!(body.starts_with(r#"<ul class="list collapsible-container" data-collapse-after="17">"#));
    assert!(body.ends_with("</ul>"));
    assert!(body.contains(r#"<a href="https://bsky.app/profile/alice.bsky.social/post/3kxyz">hello</a>"#));
    assert!(body.contains(r#"<a href="https://bsky.app/profile/alice.bsky.social">alice.bsky.social</a>"#));
    assert!(body.contains("Likes: 12 &nbsp;&middot;&nbsp;\n                       Quotes: 0 &nbsp;"));
    assert!(body.contains("Reposts: 4294967295\n"));
    assert!(body.contains(r#"<a href="https://bsky.app/profile//post/plain">&lt;no text&gt;</a>"#) == false);
    assert!(body.contains(r#"<a href="https://bsky.app/profile//post/plain"><no text></a>"#));
    assert!(body.contains("<unknown date>"));
    let first = body.find("hello").unwrap();
    let second = body.find("<no text>").unwrap();
    assert!(first < second);
    assert_eq!(body.matches("<li class=\"post-container\">").count(), 2);
}

#[test]
fn search_queries() {
    let tags = vec!["rust".to_string(), "actix".to_string()];
    assert_eq!(build_search_query(&tags, None), "#rust #actix");
    assert_eq!(
        build_search_query(&tags, Some("2025-01-05T12:34:56+00:00".to_string())),
        "since:2025-01-05T12:34:56+00:00 #rust #actix"
    );
    assert_eq!(build_search_query(&Vec::new(), None), "");
    assert_eq!(search_limit(10), 10);
    assert_eq!(search_limit(50), 50);
    assert_eq!(search_limit(500), 50);
}

#[test]
fn error_messages() {
    assert_eq!(AuthError::MissingConfig.message(), "identifier or secret is not configured");
    assert_eq!(AuthError::LoginFailed("HTTP status 401".to_string()).message(), "login failed: HTTP status 401");
    assert_eq!(AuthError::RefreshFailed("x".to_string()).message(), "refresh failed: x");
}

#[test]
fn base_url_configured_or_default() {
    assert_eq!(base_url(None), "https://bsky.social");
    assert_eq!(base_url(Some("http://127.0.0.1:2583".to_string())), "http://127.0.0.1:2583");
}

#[test]
fn abandoned_run_leaves_session_and_idles() {
    let s = BskySession { access_jwt: "A0".to_string(), refresh_jwt: "R0".to_string(), did: "u1".to_string() };
    let mut cache = TokenCache::new(Some(s));
    assert!(matches!(cache.step(AuthEvent::Start(true)), AuthStep::Refresh(ref r) if r == "R0"));
    assert!(matches!(cache.phase, Phase::Refreshing));
    cache.abandon();
    assert!(matches!(cache.phase, Phase::Idle));
    assert_eq!(cache.session.as_ref().unwrap().access_jwt, "A0");
    assert!(cache.expects(&AuthEvent::Start(false)));
}

#[test]
fn newest_first_orders_by_timestamp() {
    let keys: Vec<String> = ["2025-01-02T00:00:00Z", "2025-01-05T00:00:00Z", "2025-01-01T00:00:00Z", "2025-01-03T00:00:00Z"]
        .iter()
        .map(|s| s.to_string())
        .collect();
    assert_eq!(newest_first(&keys), vec![1, 3, 0, 2]);
    assert_eq!(newest_first(&Vec::new()), Vec::<usize>::new());
}

#[test]
fn newest_first_matches_stable_sort_then_reverse() {
    let keys: Vec<String> = ["b", "a", "b", "", "ab", "a", "é", "z", "b"].iter().map(|s| s.to_string()).collect();
    let mut expected: Vec<usize> = (0..keys.len()).collect();
    expected.sort_by_key(|&i| keys[i].clone());
    expected.reverse();
    assert_eq!(newest_first(&keys), expected);
}

#[test]
fn keep_trimmed_skips_empty() {
    let mut tags = vec!["a".to_string()];
    bsky_widget::params::keep_trimmed(&mut tags, String::new());
    assert_eq!(tags, vec!["a".to_string()]);
    bsky_widget::params::keep_trimmed(&mut tags, "b".to_string());
    assert_eq!(tags, vec!["a".to_string(), "b".to_string()]);
}
