use vstd::prelude::*;

use crate::error::AuthError;
use crate::session::BskySession;

verus! {

/// Where an ensure-token run stands.
pub enum Phase {
    /// No run is in progress.
    Idle,
    /// The cached access credential is being probed.
    Probing,
    /// The cached refresh credential is being exchanged for a new session.
    Refreshing,
    /// A fresh login is in flight.
    LoggingIn,
}

/// What the outside world must do next for a run to go on.
pub enum AuthStep {
    /// Probe this access credential and report whether it is still accepted.
    Probe(String),
    /// Exchange this refresh credential for a new session.
    Refresh(String),
    /// Log in with the configured identifier and secret.
    Login,
    /// The run is over, with this credential or this error.
    Finish(Result<String, AuthError>),
}

/// What the outside world reports back.
pub enum AuthEvent {
    /// A run starts; `true` skips the validity short-circuit.
    Start(bool),
    /// The probe ended; `true` when the credential is still accepted.
    Probed(bool),
    /// The refresh call ended.
    Refreshed(Result<BskySession, AuthError>),
    /// The login call ended.
    LoggedIn(Result<BskySession, AuthError>),
}

/// The process-wide session cache, together with the run that is using it.
///
/// Whoever holds it holds the exclusive access: a run goes from `Start` to
/// `Finish` before another may begin.
pub struct TokenCache {
    pub session: Option<BskySession>,
    pub phase: Phase,
}

/// Whether `e` is the event that `phase` waits for.
pub open spec fn expected(phase: Phase, e: AuthEvent) -> bool {
    match phase {
        Phase::Idle => e is Start,
        Phase::Probing => e is Probed,
        Phase::Refreshing => e is Refreshed,
        Phase::LoggingIn => e is LoggedIn,
    }
}

/// The step a run takes from `c` on event `e`: the new cache and what to do next.
pub open spec fn next(c: TokenCache, e: AuthEvent) -> (TokenCache, AuthStep) {
    match e {
        AuthEvent::Start(force) => match c.session {
            Some(s) => if !force {
                (TokenCache { phase: Phase::Probing, ..c }, AuthStep::Probe(s.access_jwt))
            } else {
                (TokenCache { phase: Phase::Refreshing, ..c }, AuthStep::Refresh(s.refresh_jwt))
            },
            None => (TokenCache { phase: Phase::LoggingIn, ..c }, AuthStep::Login),
        },
        AuthEvent::Probed(valid) => {
            let s = c.session->0;
            if valid {
                (TokenCache { phase: Phase::Idle, ..c }, AuthStep::Finish(Ok(s.access_jwt)))
            } else {
                (TokenCache { phase: Phase::Refreshing, ..c }, AuthStep::Refresh(s.refresh_jwt))
            }
        },
        AuthEvent::Refreshed(r) => match r {
            Ok(n) => (
                TokenCache { session: Some(n), phase: Phase::Idle },
                AuthStep::Finish(Ok(n.access_jwt)),
            ),
            Err(_) => (TokenCache { phase: Phase::LoggingIn, ..c }, AuthStep::Login),
        },
        AuthEvent::LoggedIn(r) => match r {
            Ok(n) => (
                TokenCache { session: Some(n), phase: Phase::Idle },
                AuthStep::Finish(Ok(n.access_jwt)),
            ),
            Err(err) => (TokenCache { phase: Phase::Idle, ..c }, AuthStep::Finish(Err(err))),
        },
    }
}

impl TokenCache {
    /// A probe or a refresh only ever runs against a cached session.
    pub open spec fn wf(&self) -> bool {
        (self.phase is Probing || self.phase is Refreshing) ==> self.session is Some
    }

    /// The cache at process start, holding what persistence gave back.
    pub fn new(session: Option<BskySession>) -> (r: TokenCache)
        ensures
            r.wf(),
            r.phase is Idle,
            r.session == session,
    {
        TokenCache { session, phase: Phase::Idle }
    }

    /// Whether `e` is the event that the current phase waits for.
    pub fn expects(&self, e: &AuthEvent) -> (r: bool)
        ensures
            r == expected(self.phase, *e),
    {
        match (&self.phase, e) {
            (Phase::Idle, AuthEvent::Start(_)) => true,
            (Phase::Probing, AuthEvent::Probed(_)) => true,
            (Phase::Refreshing, AuthEvent::Refreshed(_)) => true,
            (Phase::LoggingIn, AuthEvent::LoggedIn(_)) => true,
            _ => false,
        }
    }

    /// Ends a run that was cut off before its `Finish` (its caller went away):
    /// the cache is idle again and keeps the session it held.
    pub fn abandon(&mut self)
        ensures
            final(self).wf(),
            final(self).phase is Idle,
            final(self).session == old(self).session,
    {
        self.phase = Phase::Idle;
    }

    /// Takes one step of the ensure-token decision procedure.
    pub fn step(&mut self, e: AuthEvent) -> (r: AuthStep)
        requires
            old(self).wf(),
            expected(old(self).phase, e),
        ensures
            final(self).wf(),
            (*final(self), r) == next(*old(self), e),
    {
        match e {
            AuthEvent::Start(force) => match &self.session {
                Some(s) => if !force {
                    let t = s.access_jwt.clone();
                    self.phase = Phase::Probing;
                    AuthStep::Probe(t)
                } else {
                    let t = s.refresh_jwt.clone();
                    self.phase = Phase::Refreshing;
                    AuthStep::Refresh(t)
                },
                None => {
                    self.phase = Phase::LoggingIn;
                    AuthStep::Login
                },
            },
            AuthEvent::Probed(valid) => {
                let s = self.session.as_ref().unwrap();
                if valid {
                    let t = s.access_jwt.clone();
                    self.phase = Phase::Idle;
                    AuthStep::Finish(Ok(t))
                } else {
                    let t = s.refresh_jwt.clone();
                    self.phase = Phase::Refreshing;
                    AuthStep::Refresh(t)
                }
            },
            AuthEvent::Refreshed(r) => match r {
                Ok(n) => {
                    let t = n.access_jwt.clone();
                    self.session = Some(n);
                    self.phase = Phase::Idle;
                    AuthStep::Finish(Ok(t))
                },
                Err(_) => {
                    self.phase = Phase::LoggingIn;
                    AuthStep::Login
                },
            },
            AuthEvent::LoggedIn(r) => match r {
                Ok(n) => {
                    let t = n.access_jwt.clone();
                    self.session = Some(n);
                    self.phase = Phase::Idle;
                    AuthStep::Finish(Ok(t))
                },
                Err(err) => {
                    self.phase = Phase::Idle;
                    AuthStep::Finish(Err(err))
                },
            },
        }
    }
}

/// What the outside world answers during one run: the verdict of the probe,
/// the outcome of the refresh call and the outcome of the login call.
pub struct Outcomes {
    pub probe_valid: bool,
    pub refreshed: Result<BskySession, AuthError>,
    pub logged_in: Result<BskySession, AuthError>,
}

/// The event with which the outside world answers step `a`.
pub open spec fn answer(a: AuthStep, o: Outcomes) -> AuthEvent {
    match a {
        AuthStep::Probe(_) => AuthEvent::Probed(o.probe_valid),
        AuthStep::Refresh(_) => AuthEvent::Refreshed(o.refreshed),
        _ => AuthEvent::LoggedIn(o.logged_in),
    }
}

/// Carries a run on from cache `c` and step `a` for at most `fuel` outside
/// calls: the cache after them, the last step, and the calls made, in order.
pub open spec fn drive(c: TokenCache, a: AuthStep, o: Outcomes, fuel: nat) -> (TokenCache, AuthStep, Seq<AuthStep>)
    decreases fuel,
{
    if fuel == 0 || a is Finish {
        (c, a, Seq::empty())
    } else {
        let (c2, a2) = next(c, answer(a, o));
        let rest = drive(c2, a2, o, (fuel - 1) as nat);
        (rest.0, rest.1, seq![a] + rest.2)
    }
}

/// The final step of a run that is over.
pub open spec fn outcome(a: AuthStep) -> Result<String, AuthError> {
    match a {
        AuthStep::Finish(r) => r,
        _ => Err(AuthError::MissingConfig),
    }
}

/// One whole ensure-token run from cache `c`: the cache after it, the
/// credential or error it ends with, and the outside calls it made, in order.
pub open spec fn ensure_run(c: TokenCache, force: bool, o: Outcomes) -> (TokenCache, Result<String, AuthError>, Seq<AuthStep>) {
    let (c1, a1) = next(c, AuthEvent::Start(force));
    let (c2, a2, calls) = drive(c1, a1, o, 3);
    (c2, outcome(a2), calls)
}

/// `n` runs one after the other, none of them forced, as the exclusive
/// access orders concurrent callers: the cache after them, the outcome of
/// each, and all outside calls, in order.
pub open spec fn ensure_runs(c: TokenCache, n: nat, o: Outcomes) -> (TokenCache, Seq<Result<String, AuthError>>, Seq<AuthStep>)
    decreases n,
{
    if n == 0 {
        (c, Seq::empty(), Seq::empty())
    } else {
        let first = ensure_run(c, false, o);
        let rest = ensure_runs(first.0, (n - 1) as nat, o);
        (rest.0, seq![first.1] + rest.1, first.2 + rest.2)
    }
}

/// Every run ends: the cache is idle again and the last step was a `Finish`;
/// a run that fails leaves the cached session as it was.
pub proof fn lemma_run_finishes(c: TokenCache, force: bool, o: Outcomes)
    requires
        c.phase is Idle,
    ensures
        ensure_run(c, force, o).0.phase is Idle,
        ensure_run(c, force, o).0.wf(),
        ensure_run(c, force, o).2.len() <= 3,
        ensure_run(c, force, o).1 is Err ==> ensure_run(c, force, o).0.session == c.session,
{
    reveal_with_fuel(drive, 4);
}

/// Reuse: a cached session whose probe passes is handed out again after one
/// probe, with no refresh and no login, and the cache stays as it was.
pub proof fn lemma_reuse(c: TokenCache, o: Outcomes)
    requires
        c.phase is Idle,
        c.session is Some,
        o.probe_valid,
    ensures
        ensure_run(c, false, o) == (
            c,
            Ok::<String, AuthError>(c.session->0.access_jwt),
            seq![AuthStep::Probe(c.session->0.access_jwt)],
        ),
{
    reveal_with_fuel(drive, 4);
}

/// Refresh before login: when the probe rejects the cached credential, the
/// run probes, then refreshes once; a successful refresh ends the run with
/// the new session and no login, a failed one is followed by one login.
pub proof fn lemma_refresh_before_login(c: TokenCache, o: Outcomes)
    requires
        c.phase is Idle,
        c.session is Some,
        !o.probe_valid,
    ensures
        ({
            let s = c.session->0;
            let run = ensure_run(c, false, o);
            &&& o.refreshed matches Ok(n) ==> run == (
                TokenCache { session: Some(n), phase: Phase::Idle },
                Ok::<String, AuthError>(n.access_jwt),
                seq![AuthStep::Probe(s.access_jwt), AuthStep::Refresh(s.refresh_jwt)],
            )
            &&& o.refreshed is Err ==> run.2 == seq![
                AuthStep::Probe(s.access_jwt),
                AuthStep::Refresh(s.refresh_jwt),
                AuthStep::Login,
            ]
        }),
{
    reveal_with_fuel(drive, 4);
}

/// Fallback: when a cached session must be refreshed (forced, or rejected by
/// the probe) and the refresh fails, exactly one login follows, as the last
/// call of the run. Its success replaces the cache; its failure is returned
/// and leaves the cache as it was.
pub proof fn lemma_fallback(c: TokenCache, force: bool, o: Outcomes)
    requires
        c.phase is Idle,
        c.session is Some,
        force || !o.probe_valid,
        o.refreshed is Err,
    ensures
        ({
            let run = ensure_run(c, force, o);
            &&& run.2.len() >= 2
            &&& run.2.last() is Login
            &&& run.2[run.2.len() - 2] == AuthStep::Refresh(c.session->0.refresh_jwt)
            &&& forall|i: int| 0 <= i < run.2.len() - 1 ==> !(#[trigger] run.2[i] is Login)
            &&& o.logged_in matches Ok(n) ==> run.0.session == Some(n) && run.1 == Ok::<String, AuthError>(n.access_jwt)
            &&& o.logged_in matches Err(e) ==> run.0.session == c.session && run.1 == Err::<String, AuthError>(e)
        }),
{
    reveal_with_fuel(drive, 4);
}

/// Later callers behind a cache that holds `s` and whose probe passes each
/// get the access credential of `s`, one probe apiece.
proof fn lemma_runs_reuse(c: TokenCache, m: nat, o: Outcomes)
    requires
        c.phase is Idle,
        c.session is Some,
        o.probe_valid,
    ensures
        ({
            let runs = ensure_runs(c, m, o);
            &&& runs.0 == c
            &&& runs.1.len() == m
            &&& runs.2.len() == m
            &&& forall|i: int| 0 <= i < m ==> #[trigger] runs.1[i] == Ok::<String, AuthError>(c.session->0.access_jwt)
            &&& forall|i: int| 0 <= i < m ==> #[trigger] runs.2[i] == AuthStep::Probe(c.session->0.access_jwt)
        }),
    decreases m,
{
    if m > 0 {
        lemma_reuse(c, o);
        lemma_runs_reuse(c, (m - 1) as nat, o);
        let rest = ensure_runs(c, (m - 1) as nat, o);
        assert forall|i: int| 0 <= i < m implies #[trigger] ensure_runs(c, m, o).1[i] == Ok::<String, AuthError>(c.session->0.access_jwt) by {
            if i > 0 {
                assert(ensure_runs(c, m, o).1[i] == rest.1[i - 1]);
            }
        }
        assert forall|i: int| 0 <= i < m implies #[trigger] ensure_runs(c, m, o).2[i] == AuthStep::Probe(c.session->0.access_jwt) by {
            if i > 0 {
                assert(ensure_runs(c, m, o).2[i] == rest.2[i - 1]);
            }
        }
    }
}

/// Single flight: `n` callers against an empty cache, served one at a time
/// under the exclusive access, cause exactly one login (the first outside
/// call) and all get the same access credential, the one the login gave.
pub proof fn lemma_single_flight(n: nat, o: Outcomes)
    requires
        n > 0,
        o.logged_in is Ok,
        o.probe_valid,
    ensures
        ({
            let s = o.logged_in->Ok_0;
            let runs = ensure_runs(TokenCache { session: None, phase: Phase::Idle }, n, o);
            &&& runs.0.session == Some(s)
            &&& runs.1.len() == n
            &&& forall|i: int| 0 <= i < n ==> #[trigger] runs.1[i] == Ok::<String, AuthError>(s.access_jwt)
            &&& runs.2[0] is Login
            &&& forall|i: int| 0 < i < runs.2.len() ==> !(#[trigger] runs.2[i] is Login)
        }),
{
    reveal_with_fuel(drive, 4);
    let c0 = TokenCache { session: None, phase: Phase::Idle };
    let first = ensure_run(c0, false, o);
    assert(first.2 == seq![AuthStep::Login]);
    lemma_runs_reuse(first.0, (n - 1) as nat, o);
    let runs = ensure_runs(c0, n, o);
    let rest = ensure_runs(first.0, (n - 1) as nat, o);
    assert forall|i: int| 0 <= i < n implies #[trigger] runs.1[i] == Ok::<String, AuthError>(o.logged_in->Ok_0.access_jwt) by {
        if i > 0 {
            assert(runs.1[i] == rest.1[i - 1]);
        }
    }
    assert forall|i: int| 0 < i < runs.2.len() implies !(#[trigger] runs.2[i] is Login) by {
        assert(runs.2[i] == rest.2[i - 1]);
    }
}

} // verus!
