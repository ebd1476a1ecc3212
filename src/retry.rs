use vstd::prelude::*;

use crate::error::{AuthError, CallError};

verus! {

/// Where a retry-coupled call stands. `E` is the downstream operation's error.
pub enum RetryCall<E> {
    /// Nothing has happened yet.
    Start,
    /// Waiting for the first (lazy) ensure-token run.
    AwaitToken,
    /// The operation runs with the first credential.
    FirstAttempt,
    /// The first attempt failed with this error; a forced ensure-token run is in flight.
    AwaitFreshToken(E),
    /// The operation runs once more, with the fresh credential.
    SecondAttempt,
    /// The call is over.
    Done,
}

/// What the caller must do next.
pub enum RetryStep<T, E> {
    /// Run ensure-token; `true` forces re-authentication.
    Ensure(bool),
    /// Invoke the operation with this access credential.
    Invoke(String),
    /// The call is over, with this result.
    Finish(Result<T, CallError<E>>),
}

/// What the caller reports back.
pub enum RetryEvent<T, E> {
    /// The call begins.
    Begin,
    /// An ensure-token run ended.
    Ensured(Result<String, AuthError>),
    /// The operation returned.
    Returned(Result<T, E>),
}

/// Whether `e` is the event that state `s` waits for.
pub open spec fn retry_expected<T, E>(s: RetryCall<E>, e: RetryEvent<T, E>) -> bool {
    match s {
        RetryCall::Start => e is Begin,
        RetryCall::AwaitToken => e is Ensured,
        RetryCall::AwaitFreshToken(_) => e is Ensured,
        RetryCall::FirstAttempt => e is Returned,
        RetryCall::SecondAttempt => e is Returned,
        RetryCall::Done => false,
    }
}

/// The step a retry-coupled call takes from state `s` on event `e`.
pub open spec fn retry_next<T, E>(s: RetryCall<E>, e: RetryEvent<T, E>) -> (RetryCall<E>, RetryStep<T, E>) {
    match (s, e) {
        (RetryCall::Start, _) => (RetryCall::AwaitToken, RetryStep::Ensure(false)),
        (RetryCall::AwaitToken, RetryEvent::Ensured(Ok(t))) => (RetryCall::FirstAttempt, RetryStep::Invoke(t)),
        (RetryCall::AwaitToken, RetryEvent::Ensured(Err(a))) => (RetryCall::Done, RetryStep::Finish(Err(CallError::Auth(a)))),
        (RetryCall::FirstAttempt, RetryEvent::Returned(Ok(v))) => (RetryCall::Done, RetryStep::Finish(Ok(v))),
        (RetryCall::FirstAttempt, RetryEvent::Returned(Err(x))) => (RetryCall::AwaitFreshToken(x), RetryStep::Ensure(true)),
        (RetryCall::AwaitFreshToken(_), RetryEvent::Ensured(Ok(t))) => (RetryCall::SecondAttempt, RetryStep::Invoke(t)),
        (RetryCall::AwaitFreshToken(x), RetryEvent::Ensured(Err(_))) => (RetryCall::Done, RetryStep::Finish(Err(CallError::Op(x)))),
        (RetryCall::SecondAttempt, RetryEvent::Returned(Ok(v))) => (RetryCall::Done, RetryStep::Finish(Ok(v))),
        (RetryCall::SecondAttempt, RetryEvent::Returned(Err(x))) => (RetryCall::Done, RetryStep::Finish(Err(CallError::Op(x)))),
        (s, _) => (s, RetryStep::Ensure(false)),
    }
}

impl<E> RetryCall<E> {
    /// A call that has not begun.
    pub fn new() -> (r: RetryCall<E>)
        ensures
            r is Start,
    {
        RetryCall::Start
    }

    /// Whether `e` is the event that this state waits for.
    pub fn expects<T>(&self, e: &RetryEvent<T, E>) -> (r: bool)
        ensures
            r == retry_expected(*self, *e),
    {
        match (self, e) {
            (RetryCall::Start, RetryEvent::Begin) => true,
            (RetryCall::AwaitToken, RetryEvent::Ensured(_)) => true,
            (RetryCall::AwaitFreshToken(_), RetryEvent::Ensured(_)) => true,
            (RetryCall::FirstAttempt, RetryEvent::Returned(_)) => true,
            (RetryCall::SecondAttempt, RetryEvent::Returned(_)) => true,
            _ => false,
        }
    }

    /// Takes one step of the retry policy.
    pub fn step<T>(self, e: RetryEvent<T, E>) -> (r: (RetryCall<E>, RetryStep<T, E>))
        requires
            retry_expected(self, e),
        ensures
            r == retry_next(self, e),
    {
        match (self, e) {
            (RetryCall::Start, _) => (RetryCall::AwaitToken, RetryStep::Ensure(false)),
            (RetryCall::AwaitToken, RetryEvent::Ensured(Ok(t))) => (RetryCall::FirstAttempt, RetryStep::Invoke(t)),
            (RetryCall::AwaitToken, RetryEvent::Ensured(Err(a))) => (RetryCall::Done, RetryStep::Finish(Err(CallError::Auth(a)))),
            (RetryCall::FirstAttempt, RetryEvent::Returned(Ok(v))) => (RetryCall::Done, RetryStep::Finish(Ok(v))),
            (RetryCall::FirstAttempt, RetryEvent::Returned(Err(x))) => (RetryCall::AwaitFreshToken(x), RetryStep::Ensure(true)),
            (RetryCall::AwaitFreshToken(_), RetryEvent::Ensured(Ok(t))) => (RetryCall::SecondAttempt, RetryStep::Invoke(t)),
            (RetryCall::AwaitFreshToken(x), RetryEvent::Ensured(Err(_))) => (RetryCall::Done, RetryStep::Finish(Err(CallError::Op(x)))),
            (RetryCall::SecondAttempt, RetryEvent::Returned(Ok(v))) => (RetryCall::Done, RetryStep::Finish(Ok(v))),
            (RetryCall::SecondAttempt, RetryEvent::Returned(Err(x))) => (RetryCall::Done, RetryStep::Finish(Err(CallError::Op(x)))),
            (s, _) => (s, RetryStep::Ensure(false)),
        }
    }
}

/// What the outside world answers during one retry-coupled call: the outcome
/// of the lazy and of the forced ensure-token runs, and of the two attempts.
pub struct RetryOutcomes<T, E> {
    pub first_token: Result<String, AuthError>,
    pub forced_token: Result<String, AuthError>,
    pub first_result: Result<T, E>,
    pub second_result: Result<T, E>,
}

/// The event with which the outside world answers in state `s`.
pub open spec fn retry_answer<T, E>(s: RetryCall<E>, o: RetryOutcomes<T, E>) -> RetryEvent<T, E> {
    match s {
        RetryCall::AwaitToken => RetryEvent::Ensured(o.first_token),
        RetryCall::FirstAttempt => RetryEvent::Returned(o.first_result),
        RetryCall::AwaitFreshToken(_) => RetryEvent::Ensured(o.forced_token),
        RetryCall::SecondAttempt => RetryEvent::Returned(o.second_result),
        _ => RetryEvent::Begin,
    }
}

/// Carries a call on from state `s` for at most `fuel` steps: the state
/// after them and the steps taken, in order.
pub open spec fn retry_drive<T, E>(s: RetryCall<E>, o: RetryOutcomes<T, E>, fuel: nat) -> (RetryCall<E>, Seq<RetryStep<T, E>>)
    decreases fuel,
{
    if fuel == 0 || s is Done {
        (s, Seq::empty())
    } else {
        let (s2, a) = retry_next(s, retry_answer(s, o));
        let rest = retry_drive(s2, o, (fuel - 1) as nat);
        (rest.0, seq![a] + rest.1)
    }
}

/// The steps of one whole retry-coupled call, in order, the last a `Finish`.
pub open spec fn retry_run<T, E>(o: RetryOutcomes<T, E>) -> Seq<RetryStep<T, E>> {
    retry_drive(RetryCall::Start, o, 5).1
}

/// Every retry-coupled call ends within five steps, with a `Finish`, whatever
/// the outside world answers. It runs ensure-token at most twice (first
/// lazily, then forced) and the operation at most twice, each attempt after
/// an ensure-token run.
pub proof fn lemma_retry_finishes<T, E>(o: RetryOutcomes<T, E>)
    ensures
        retry_drive(RetryCall::Start, o, 5).0 is Done,
        1 <= retry_run(o).len() <= 5,
        retry_run(o).last() is Finish,
        forall|i: int| 0 <= i < retry_run(o).len() ==> (#[trigger] retry_run(o)[i] is Ensure ==> i == 0 || i == 2),
        forall|i: int| 0 <= i < retry_run(o).len() ==> (#[trigger] retry_run(o)[i] is Invoke ==> i == 1 || i == 3),
        retry_run(o)[0] == RetryStep::<T, E>::Ensure(false),
        retry_run(o).len() > 2 && retry_run(o)[2] is Ensure ==> retry_run(o)[2] == RetryStep::<T, E>::Ensure(true),
{
    reveal_with_fuel(retry_drive, 6);
}

/// Bounded retry: against an operation that fails on every attempt, a call
/// makes at most two ensure-token runs (the first lazy, the second forced)
/// and at most two attempts. It fails with the authentication error when no
/// first credential comes, with the first attempt's error when the forced run
/// fails, and else with the second attempt's error.
pub proof fn lemma_bounded_retry<T, E>(o: RetryOutcomes<T, E>)
    requires
        o.first_result is Err,
        o.second_result is Err,
    ensures
        ({
            let steps = retry_run(o);
            &&& o.first_token matches Err(a) ==> steps == seq![
                RetryStep::Ensure(false),
                RetryStep::Finish(Err::<T, CallError<E>>(CallError::Auth(a))),
            ]
            &&& o.first_token matches Ok(t1) ==> (o.forced_token is Err ==> steps == seq![
                RetryStep::Ensure(false),
                RetryStep::Invoke(t1),
                RetryStep::Ensure(true),
                RetryStep::Finish(Err::<T, CallError<E>>(CallError::Op(o.first_result->Err_0))),
            ])
            &&& o.first_token matches Ok(t1) ==> (o.forced_token matches Ok(t2) ==> steps == seq![
                RetryStep::Ensure(false),
                RetryStep::Invoke(t1),
                RetryStep::Ensure(true),
                RetryStep::Invoke(t2),
                RetryStep::Finish(Err::<T, CallError<E>>(CallError::Op(o.second_result->Err_0))),
            ])
        }),
{
    reveal_with_fuel(retry_drive, 6);
}

} // verus!
