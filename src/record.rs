use vstd::prelude::*;

use crate::escape::{escaped, lemma_string_at_unique, push_escaped, read_string, string_at};
use crate::session::{BskySession, SessionView};
use crate::text::{chars_of, match_literal};

verus! {

/// What the record holds before the access credential.
pub const RECORD_OPEN: &'static str = "{\"accessJwt\":\"";

/// What stands between the access and the refresh credential.
pub const RECORD_REFRESH: &'static str = "\",\"refreshJwt\":\"";

/// What stands between the refresh credential and the account.
pub const RECORD_DID: &'static str = "\",\"did\":\"";

/// What closes the record.
pub const RECORD_CLOSE: &'static str = "\"}";

/// The persisted record of session `v`: one compact JSON object with the
/// fields `accessJwt`, `refreshJwt` and `did`, in that order.
pub open spec fn record_text(v: SessionView) -> Seq<char> {
    RECORD_OPEN@ + escaped(v.access) + RECORD_REFRESH@ + escaped(v.refresh) + RECORD_DID@
        + escaped(v.did) + RECORD_CLOSE@
}

/// The pieces of a record, with their positions.
proof fn lemma_record_parts(v: SessionView)
    ensures
        ({
            let t = record_text(v);
            let a0 = RECORD_OPEN@.len() as int;
            let e0 = a0 + escaped(v.access).len();
            let a1 = e0 + RECORD_REFRESH@.len();
            let e1 = a1 + escaped(v.refresh).len();
            let a2 = e1 + RECORD_DID@.len();
            let e2 = a2 + escaped(v.did).len();
            &&& t.subrange(0, a0) == RECORD_OPEN@
            &&& string_at(t, a0, v.access)
            &&& t.subrange(e0, a1) == RECORD_REFRESH@
            &&& string_at(t, a1, v.refresh)
            &&& t.subrange(e1, a2) == RECORD_DID@
            &&& string_at(t, a2, v.did)
            &&& t.subrange(e2, e2 + RECORD_CLOSE@.len()) == RECORD_CLOSE@
            &&& e2 + RECORD_CLOSE@.len() == t.len()
        }),
{
    reveal_strlit("\",\"refreshJwt\":\"");
    reveal_strlit("\",\"did\":\"");
    reveal_strlit("\"}");
    let t = record_text(v);
    let a0 = RECORD_OPEN@.len() as int;
    let e0 = a0 + escaped(v.access).len();
    let a1 = e0 + RECORD_REFRESH@.len();
    let e1 = a1 + escaped(v.refresh).len();
    let a2 = e1 + RECORD_DID@.len();
    let e2 = a2 + escaped(v.did).len();
    assert(t.subrange(0, a0) =~= RECORD_OPEN@);
    assert(t.subrange(a0, e0) =~= escaped(v.access));
    assert(t.subrange(e0, a1) =~= RECORD_REFRESH@);
    assert(t.subrange(a1, e1) =~= escaped(v.refresh));
    assert(t.subrange(e1, a2) =~= RECORD_DID@);
    assert(t.subrange(a2, e2) =~= escaped(v.did));
    assert(t.subrange(e2, e2 + RECORD_CLOSE@.len()) =~= RECORD_CLOSE@);
    assert(t[e0] == RECORD_REFRESH@[0]);
    assert(t[e1] == RECORD_DID@[0]);
    assert(t[e2] == RECORD_CLOSE@[0]);
}

/// A saved record loads back as the session that was saved: the record of
/// `v` is the record of no other session.
pub proof fn lemma_save_then_load(v: SessionView, w: SessionView)
    requires
        record_text(w) == record_text(v),
    ensures
        w == v,
{
    let a0 = RECORD_OPEN@.len() as int;
    lemma_record_parts(v);
    lemma_record_parts(w);
    let t = record_text(v);
    lemma_string_at_unique(t, a0, v.access, w.access);
    let a1 = a0 + escaped(v.access).len() + RECORD_REFRESH@.len();
    lemma_string_at_unique(t, a1, v.refresh, w.refresh);
    let a2 = a1 + escaped(v.refresh).len() + RECORD_DID@.len();
    lemma_string_at_unique(t, a2, v.did, w.did);
}

/// The persisted record of `s`.
pub fn encode_session(s: &BskySession) -> (r: String)
    ensures
        r@ == record_text(s@),
{
    let mut out = String::new();
    out.append(RECORD_OPEN);
    push_escaped(&mut out, s.access_jwt.as_str());
    out.append(RECORD_REFRESH);
    push_escaped(&mut out, s.refresh_jwt.as_str());
    out.append(RECORD_DID);
    push_escaped(&mut out, s.did.as_str());
    out.append(RECORD_CLOSE);
    proof {
        assert(out@ =~= record_text(s@));
    }
    out
}

/// The session whose persisted record `text` is, or `None` where `text` is
/// the record of no session.
pub fn decode_session(text: &str) -> (r: Option<BskySession>)
    ensures
        match r {
            Some(s) => record_text(s@) == text@,
            None => forall|v: SessionView| #[trigger] record_text(v) != text@,
        },
{
    let t = chars_of(text);
    let ghost some_record = exists|v: SessionView| #[trigger] record_text(v) == text@;
    let ghost w = choose|v: SessionView| #[trigger] record_text(v) == text@;
    proof {
        if some_record {
            lemma_record_parts(w);
        }
    }
    let a0 = match match_literal(&t, 0, RECORD_OPEN) {
        Some(p) => p,
        None => return None,
    };
    let (access, e0) = match read_string(&t, a0) {
        Some(x) => x,
        None => return None,
    };
    let a1 = match match_literal(&t, e0, RECORD_REFRESH) {
        Some(p) => p,
        None => return None,
    };
    let (refresh, e1) = match read_string(&t, a1) {
        Some(x) => x,
        None => return None,
    };
    let a2 = match match_literal(&t, e1, RECORD_DID) {
        Some(p) => p,
        None => return None,
    };
    let (did, e2) = match read_string(&t, a2) {
        Some(x) => x,
        None => return None,
    };
    let close_end = match match_literal(&t, e2, RECORD_CLOSE) {
        Some(p) => p,
        None => return None,
    };
    if close_end != t.len() {
        return None;
    }
    let s = BskySession { access_jwt: access, refresh_jwt: refresh, did };
    proof {
        assert(t@ =~= t@.subrange(0, a0 as int) + t@.subrange(a0 as int, e0 as int) + t@.subrange(e0 as int, a1 as int)
            + t@.subrange(a1 as int, e1 as int) + t@.subrange(e1 as int, a2 as int) + t@.subrange(a2 as int, e2 as int)
            + t@.subrange(e2 as int, close_end as int));
        assert(record_text(s@) =~= text@);
    }
    Some(s)
}

} // verus!
