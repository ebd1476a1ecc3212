use bsky_widget::record::{decode_session, encode_session};
use bsky_widget::session::BskySession;

fn session(access: &str, refresh: &str, did: &str) -> BskySession {
    BskySession { access_jwt: access.to_string(), refresh_jwt: refresh.to_string(), did: did.to_string() }
}

#[test]
fn record_is_compact_json() {
    let text = encode_session(&session("A1", "R1", "u1"));
    assert_eq!(text, r#"{"accessJwt":"A1","refreshJwt":"R1","did":"u1"}"#);
}

#[test]
fn record_escapes_quotes_backslashes_and_controls() {
    let text = encode_session(&session("a\"b", "c\\d", "e\nf\u{1}g\u{8}"));
    assert_eq!(text, r#"{"accessJwt":"a\"b","refreshJwt":"c\\d","did":"e\nf\u0001g\b"}"#);
}

#[test]
fn save_then_load_gives_same_session() {
    let cases = [
        session("A1", "R1", "u1"),
        session("", "", ""),
        session("eyJhbGciOi.x\"y\\z", "tab\there\r\u{c}", "did:plc:é✓\u{1f}\u{7f}"),
    ];
    for s in cases.iter() {
        let back = decode_session(&encode_session(s)).expect("record must load");
        assert_eq!(back.access_jwt, s.access_jwt);
        assert_eq!(back.refresh_jwt, s.refresh_jwt);
        assert_eq!(back.did, s.did);
    }
}

#[test]
fn load_reads_record_written_by_hand() {
    let s = decode_session(r#"{"accessJwt":"x\u001fy","refreshJwt":"\"r\"","did":"d"}"#).unwrap();
    assert_eq!(s.access_jwt, "x\u{1f}y");
    assert_eq!(s.refresh_jwt, "\"r\"");
    assert_eq!(s.did, "d");
}

#[test]
fn load_rejects_what_is_no_record() {
    assert!(decode_session("").is_none());
    assert!(decode_session("not json").is_none());
    assert!(decode_session(r#"{"accessJwt":"A1","refreshJwt":"R1"}"#).is_none());
    assert!(decode_session(r#"{"accessJwt":"A1","refreshJwt":"R1","did":"u1"} "#).is_none());
    assert!(decode_session(r#"{"accessJwt":"A\q","refreshJwt":"R1","did":"u1"}"#).is_none());
    assert!(decode_session("{\"accessJwt\":\"A\n\",\"refreshJwt\":\"R1\",\"did\":\"u1\"}").is_none());
    assert!(decode_session(r#"{"accessJwt":"A\u0008","refreshJwt":"R1","did":"u1"}"#).is_none());
}
