use vstd::prelude::*;

verus! {

/// An authenticated identity: the short-lived access credential, the
/// longer-lived refresh credential, and the account it belongs to.
///
/// All three fields are opaque strings: they are carried, never parsed.
pub struct BskySession {
    pub access_jwt: String,
    pub refresh_jwt: String,
    pub did: String,
}

/// The mathematical value of a session: its three fields as character sequences.
pub struct SessionView {
    pub access: Seq<char>,
    pub refresh: Seq<char>,
    pub did: Seq<char>,
}

impl View for BskySession {
    type V = SessionView;

    open spec fn view(&self) -> SessionView {
        SessionView { access: self.access_jwt@, refresh: self.refresh_jwt@, did: self.did@ }
    }
}

impl Clone for BskySession {
    fn clone(&self) -> (r: BskySession)
        ensures
            r@ == self@,
    {
        BskySession {
            access_jwt: self.access_jwt.clone(),
            refresh_jwt: self.refresh_jwt.clone(),
            did: self.did.clone(),
        }
    }
}

} // verus!
