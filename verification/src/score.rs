//! The score-polling engine as a state machine.
//!
//! One status fetch classifies the evaluation reply: a status of
//! `"executing"` or `"pending"` means the submission is still being graded;
//! anything else is terminal and carries the reply as the payload. The poll
//! machine consumes up to a fixed number of such fetch outcomes, asking the
//! driver to suspend for a fixed interval between them, and ends with the
//! payload, the first fetch error, or a timeout.

use vstd::prelude::*;
use vstd::string::StringExecFns;

verus! {

/// The number of status fetches one poll may consume before timing out.
pub const POLL_TRIES: u32 = 60;

/// How long the driver suspends before the first fetch and after every
/// still-executing reply, in milliseconds.
pub const POLL_INTERVAL_MILLIS: u64 = 1500;

/// The ways a score fetch or a poll can fail.
#[derive(Debug)]
pub enum GetScoreError {
    GenericError { err: String },
    ParseJsonError { json: String, err: String },
    TimeoutError,
}

/// The outcome of one evaluation-status fetch: still being graded, or done
/// with the reply text as the payload.
#[derive(Debug)]
pub enum ScoreStatus {
    DoneExecuting { value: String },
    StillExecuting,
}

/// The status field values that mean the grading is still running.
pub open spec fn spec_still_executing(status: Option<String>) -> bool {
    status matches Some(s) && (s@ == "executing"@ || s@ == "pending"@)
}

/// Classifies one evaluation reply from its status field — the field's
/// value when it is a string, absent otherwise — and the reply's full text.
pub fn classify_score_reply(status: Option<String>, payload: String) -> (r: ScoreStatus)
    ensures
        spec_still_executing(status) ==> r == ScoreStatus::StillExecuting,
        !spec_still_executing(status) ==> r == (ScoreStatus::DoneExecuting { value: payload }),
{
    let executing = String::from_str("executing");
    let pending = String::from_str("pending");
    let still = match &status {
        Some(s) => s.eq(&executing) || s.eq(&pending),
        None => false,
    };
    if still {
        ScoreStatus::StillExecuting
    } else {
        ScoreStatus::DoneExecuting { value: payload }
    }
}

/// Where one poll stands. `Waiting` asks the driver to suspend and fetch
/// once more; `Finishing` holds the payload and asks for one best-effort
/// extra fetch whose outcome is discarded; `Done` is terminal.
pub enum PollState {
    Waiting { tries: u32 },
    Finishing { value: String },
    Done(Result<String, GetScoreError>),
}

/// One transition of the poll machine, given the outcome of the fetch the
/// current state asked for. A terminal state absorbs the event.
pub open spec fn spec_poll_step(s: PollState, e: Result<ScoreStatus, GetScoreError>) -> PollState {
    match s {
        PollState::Waiting { tries } => match e {
            Err(err) => PollState::Done(Err(err)),
            Ok(ScoreStatus::StillExecuting) => if tries > 1 {
                PollState::Waiting { tries: (tries - 1) as u32 }
            } else {
                PollState::Done(Err(GetScoreError::TimeoutError))
            },
            Ok(ScoreStatus::DoneExecuting { value }) => PollState::Finishing { value },
        },
        PollState::Finishing { value } => PollState::Done(Ok(value)),
        PollState::Done(r) => PollState::Done(r),
    }
}

/// The state a poll starts from: the full budget of fetches remains.
pub fn poll_start() -> (r: PollState)
    ensures
        r == (PollState::Waiting { tries: POLL_TRIES }),
{
    PollState::Waiting { tries: POLL_TRIES }
}

/// Drives the poll machine one step.
pub fn poll_step(state: PollState, event: Result<ScoreStatus, GetScoreError>) -> (next: PollState)
    ensures
        next == spec_poll_step(state, event),
{
    match state {
        PollState::Waiting { tries } => match event {
            Err(err) => PollState::Done(Err(err)),
            Ok(ScoreStatus::StillExecuting) => {
                if tries > 1 {
                    PollState::Waiting { tries: tries - 1 }
                } else {
                    PollState::Done(Err(GetScoreError::TimeoutError))
                }
            },
            Ok(ScoreStatus::DoneExecuting { value }) => PollState::Finishing { value },
        },
        PollState::Finishing { value } => PollState::Done(Ok(value)),
        PollState::Done(r) => PollState::Done(r),
    }
}

/// The state after the machine consumes a sequence of fetch outcomes.
pub open spec fn poll_run(s: PollState, es: Seq<Result<ScoreStatus, GetScoreError>>) -> PollState
    decreases es.len()
{
    if es.len() == 0 {
        s
    } else {
        poll_run(spec_poll_step(s, es[0]), es.drop_first())
    }
}

/// How many fetches a run answers: the outcomes consumed while the machine
/// was in `Waiting` or `Finishing`.
pub open spec fn poll_fetches(s: PollState, es: Seq<Result<ScoreStatus, GetScoreError>>) -> nat
    decreases es.len()
{
    if es.len() == 0 {
        0
    } else {
        (if s is Waiting || s is Finishing {
            1nat
        } else {
            0nat
        }) + poll_fetches(spec_poll_step(s, es[0]), es.drop_first())
    }
}

/// How many in-loop suspensions a run asks for: one after every
/// still-executing outcome consumed in `Waiting`. The driver suspends once
/// more before the first fetch.
pub open spec fn poll_sleeps(s: PollState, es: Seq<Result<ScoreStatus, GetScoreError>>) -> nat
    decreases es.len()
{
    if es.len() == 0 {
        0
    } else {
        (if s is Waiting && es[0] == Ok::<ScoreStatus, GetScoreError>(ScoreStatus::StillExecuting) {
            1nat
        } else {
            0nat
        }) + poll_sleeps(spec_poll_step(s, es[0]), es.drop_first())
    }
}

proof fn lemma_poll_done_general(t: u32, value: String, es: Seq<Result<ScoreStatus, GetScoreError>>, k: nat)
    requires
        k < t,
        es.len() == k + 2,
        forall|i: int| 0 <= i < k ==> es[i] == Ok::<ScoreStatus, GetScoreError>(
            ScoreStatus::StillExecuting,
        ),
        es[k as int] == Ok::<ScoreStatus, GetScoreError>(ScoreStatus::DoneExecuting { value }),
    ensures
        poll_run(PollState::Waiting { tries: t }, es) == PollState::Done(
            Ok::<String, GetScoreError>(value),
        ),
        poll_fetches(PollState::Waiting { tries: t }, es) == k + 2,
        poll_sleeps(PollState::Waiting { tries: t }, es) == k,
    decreases k,
{
    let s = PollState::Waiting { tries: t };
    let s1 = spec_poll_step(s, es[0]);
    let es1 = es.drop_first();
    assert(poll_run(s, es) == poll_run(s1, es1));
    assert(poll_fetches(s, es) == 1 + poll_fetches(s1, es1));
    assert(poll_sleeps(s, es) == (if k == 0 { 0nat } else { 1nat }) + poll_sleeps(s1, es1));
    if k == 0 {
        assert(s1 == (PollState::Finishing { value }));
        let s2 = spec_poll_step(s1, es1[0]);
        assert(s2 == PollState::Done(Ok::<String, GetScoreError>(value)));
        let es2 = es1.drop_first();
        assert(es2.len() == 0);
        assert(poll_run(s1, es1) == poll_run(s2, es2));
        assert(poll_fetches(s1, es1) == 1 + poll_fetches(s2, es2));
        assert(poll_sleeps(s1, es1) == poll_sleeps(s2, es2));
    } else {
        assert(es[0] == Ok::<ScoreStatus, GetScoreError>(ScoreStatus::StillExecuting));
        assert(s1 == (PollState::Waiting { tries: (t - 1) as u32 }));
        assert(es1[k - 1] == es[k as int]);
        assert(forall|i: int| 0 <= i < k - 1 ==> es1[i] == es[i + 1]);
        lemma_poll_done_general((t - 1) as u32, value, es1, (k - 1) as nat);
    }
}

/// A status sequence of `StillExecuting` repeated `k` times followed by
/// `DoneExecuting(payload)` with `k` below the fetch budget: the poll
/// returns the payload unchanged after exactly `k + 1` status fetches plus
/// one best-effort extra fetch, and asks for `k` in-loop suspensions — with
/// the driver's one up-front suspension, at least `(k + 1)` intervals in
/// all. The extra fetch's outcome is discarded whatever it is.
pub proof fn lemma_poll_done_after_k(value: String, es: Seq<Result<ScoreStatus, GetScoreError>>, k: nat)
    requires
        k < POLL_TRIES,
        es.len() == k + 2,
        forall|i: int| 0 <= i < k ==> es[i] == Ok::<ScoreStatus, GetScoreError>(
            ScoreStatus::StillExecuting,
        ),
        es[k as int] == Ok::<ScoreStatus, GetScoreError>(ScoreStatus::DoneExecuting { value }),
    ensures
        poll_run(PollState::Waiting { tries: POLL_TRIES }, es) == PollState::Done(
            Ok::<String, GetScoreError>(value),
        ),
        poll_fetches(PollState::Waiting { tries: POLL_TRIES }, es) == k + 2,
        poll_sleeps(PollState::Waiting { tries: POLL_TRIES }, es) == k,
{
    lemma_poll_done_general(POLL_TRIES, value, es, k);
}

proof fn lemma_poll_timeout_general(t: u32, es: Seq<Result<ScoreStatus, GetScoreError>>)
    requires
        t >= 1,
        es.len() == t,
        forall|i: int| 0 <= i < es.len() ==> es[i] == Ok::<ScoreStatus, GetScoreError>(
            ScoreStatus::StillExecuting,
        ),
    ensures
        poll_run(PollState::Waiting { tries: t }, es) == PollState::Done(
            Err::<String, GetScoreError>(GetScoreError::TimeoutError),
        ),
        poll_fetches(PollState::Waiting { tries: t }, es) == t,
        poll_sleeps(PollState::Waiting { tries: t }, es) == t,
    decreases t,
{
    let s = PollState::Waiting { tries: t };
    assert(es[0] == Ok::<ScoreStatus, GetScoreError>(ScoreStatus::StillExecuting));
    let s1 = spec_poll_step(s, es[0]);
    let es1 = es.drop_first();
    assert(poll_run(s, es) == poll_run(s1, es1));
    assert(poll_fetches(s, es) == 1 + poll_fetches(s1, es1));
    assert(poll_sleeps(s, es) == 1 + poll_sleeps(s1, es1));
    if t > 1 {
        assert(s1 == (PollState::Waiting { tries: (t - 1) as u32 }));
        assert(forall|i: int| 0 <= i < es1.len() ==> es1[i] == es[i + 1]);
        lemma_poll_timeout_general((t - 1) as u32, es1);
    } else {
        assert(s1 == PollState::Done(Err::<String, GetScoreError>(GetScoreError::TimeoutError)));
        assert(es1.len() == 0);
    }
}

/// A status sequence of `StillExecuting` through the whole fetch budget:
/// the poll fails with the timeout error after exactly the budget's worth
/// of status fetches, and no extra fetch.
pub proof fn lemma_poll_timeout(es: Seq<Result<ScoreStatus, GetScoreError>>)
    requires
        es.len() == POLL_TRIES,
        forall|i: int| 0 <= i < es.len() ==> es[i] == Ok::<ScoreStatus, GetScoreError>(
            ScoreStatus::StillExecuting,
        ),
    ensures
        poll_run(PollState::Waiting { tries: POLL_TRIES }, es) == PollState::Done(
            Err::<String, GetScoreError>(GetScoreError::TimeoutError),
        ),
        poll_fetches(PollState::Waiting { tries: POLL_TRIES }, es) == POLL_TRIES,
        poll_sleeps(PollState::Waiting { tries: POLL_TRIES }, es) == POLL_TRIES,
{
    lemma_poll_timeout_general(POLL_TRIES, es);
}

} // verus!
