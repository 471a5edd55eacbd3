//! The bounded-retry helper as a state machine.
//!
//! `retry` with a budget of `n` runs the operation up to `n` times,
//! discarding every failure; the first success ends the run. When the whole
//! budget fails, one unconditional extra call is made and its outcome —
//! success or failure — is the run's result. The extra call is part of the
//! observed behaviour and is kept as it stands: a budget of `n` can reach
//! `n + 1` calls in all.

use vstd::prelude::*;

verus! {

/// Where one retried operation stands. `Trying` consumes failures from the
/// budget; `Extra` awaits the one unconditional extra call; `Done` is
/// terminal and holds the overall outcome.
pub enum RetryState<T, E> {
    Trying { remaining: u32 },
    Extra,
    Done(Result<T, E>),
}

/// The state a retry run starts from: the whole budget remains, or the
/// extra call alone when the budget is zero.
pub open spec fn spec_retry_start<T, E>(attempts: u32) -> RetryState<T, E> {
    if attempts == 0 {
        RetryState::Extra
    } else {
        RetryState::Trying { remaining: attempts }
    }
}

/// One transition of the retry machine, given the outcome of the call the
/// current state asked for. A terminal state absorbs the event.
pub open spec fn spec_retry_step<T, E>(s: RetryState<T, E>, outcome: Result<T, E>) -> RetryState<T, E> {
    match s {
        RetryState::Trying { remaining } => match outcome {
            Ok(v) => RetryState::Done(Ok(v)),
            Err(e) => if remaining > 1 {
                RetryState::Trying { remaining: (remaining - 1) as u32 }
            } else {
                RetryState::Extra
            },
        },
        RetryState::Extra => RetryState::Done(outcome),
        RetryState::Done(r) => RetryState::Done(r),
    }
}

/// Begins a retry run with the given budget.
pub fn retry_start<T, E>(attempts: u32) -> (r: RetryState<T, E>)
    ensures
        r == spec_retry_start::<T, E>(attempts),
{
    if attempts == 0 {
        RetryState::Extra
    } else {
        RetryState::Trying { remaining: attempts }
    }
}

/// Drives the retry machine one step.
pub fn retry_step<T, E>(state: RetryState<T, E>, outcome: Result<T, E>) -> (next: RetryState<T, E>)
    ensures
        next == spec_retry_step(state, outcome),
{
    match state {
        RetryState::Trying { remaining } => match outcome {
            Ok(v) => RetryState::Done(Ok(v)),
            Err(e) => {
                if remaining > 1 {
                    RetryState::Trying { remaining: remaining - 1 }
                } else {
                    RetryState::Extra
                }
            },
        },
        RetryState::Extra => RetryState::Done(outcome),
        RetryState::Done(r) => RetryState::Done(r),
    }
}

/// The state after the machine consumes a sequence of call outcomes.
pub open spec fn retry_run<T, E>(s: RetryState<T, E>, es: Seq<Result<T, E>>) -> RetryState<T, E>
    decreases es.len()
{
    if es.len() == 0 {
        s
    } else {
        retry_run(spec_retry_step(s, es[0]), es.drop_first())
    }
}

/// How many calls a run answers: the outcomes consumed while the machine
/// was in `Trying` or `Extra`.
pub open spec fn retry_calls<T, E>(s: RetryState<T, E>, es: Seq<Result<T, E>>) -> nat
    decreases es.len()
{
    if es.len() == 0 {
        0
    } else {
        (if s is Trying || s is Extra {
            1nat
        } else {
            0nat
        }) + retry_calls(spec_retry_step(s, es[0]), es.drop_first())
    }
}

proof fn lemma_retry_success_general<T, E>(n: u32, es: Seq<Result<T, E>>, v: T)
    requires
        n >= 1,
        es.len() == n,
        forall|i: int| 0 <= i < n - 1 ==> es[i] is Err,
        es[n - 1] == Ok::<T, E>(v),
    ensures
        retry_run(RetryState::Trying { remaining: n }, es) == RetryState::Done(Ok::<T, E>(v)),
        retry_calls(RetryState::Trying { remaining: n }, es) == n,
    decreases n,
{
    let s = RetryState::Trying::<T, E> { remaining: n };
    let s1 = spec_retry_step(s, es[0]);
    let es1 = es.drop_first();
    assert(retry_run(s, es) == retry_run(s1, es1));
    assert(retry_calls(s, es) == 1 + retry_calls(s1, es1));
    if n > 1 {
        assert(es[0] is Err);
        assert(s1 == (RetryState::Trying::<T, E> { remaining: (n - 1) as u32 }));
        assert(es1[n - 2] == es[n - 1]);
        assert(forall|i: int| 0 <= i < n - 2 ==> es1[i] == es[i + 1]);
        lemma_retry_success_general((n - 1) as u32, es1, v);
    } else {
        assert(es[0] == Ok::<T, E>(v));
        assert(s1 == RetryState::Done(Ok::<T, E>(v)));
        assert(es1.len() == 0);
    }
}

/// An operation that fails on its first `n - 1` calls and succeeds on call
/// `n` makes the whole retry succeed with that value after exactly `n`
/// calls: the unconditional extra call is never reached.
pub proof fn lemma_retry_succeeds_on_last_budgeted_call<T, E>(n: u32, es: Seq<Result<T, E>>, v: T)
    requires
        n >= 1,
        es.len() == n,
        forall|i: int| 0 <= i < n - 1 ==> es[i] is Err,
        es[n - 1] == Ok::<T, E>(v),
    ensures
        retry_run(spec_retry_start::<T, E>(n), es) == RetryState::Done(Ok::<T, E>(v)),
        retry_calls(spec_retry_start::<T, E>(n), es) == n,
{
    lemma_retry_success_general(n, es, v);
}

proof fn lemma_retry_all_fail_general<T, E>(n: u32, es: Seq<Result<T, E>>)
    requires
        es.len() == n + 1,
        forall|i: int| 0 <= i < n ==> es[i] is Err,
    ensures
        retry_run(spec_retry_start::<T, E>(n), es) == RetryState::Done(es[n as int]),
        retry_calls(spec_retry_start::<T, E>(n), es) == n + 1,
    decreases n,
{
    let s = spec_retry_start::<T, E>(n);
    let s1 = spec_retry_step(s, es[0]);
    let es1 = es.drop_first();
    assert(retry_run(s, es) == retry_run(s1, es1));
    assert(retry_calls(s, es) == 1 + retry_calls(s1, es1));
    if n > 0 {
        assert(es[0] is Err);
        assert(s1 == spec_retry_start::<T, E>((n - 1) as u32));
        assert(es1[n - 1] == es[n as int]);
        assert(forall|i: int| 0 <= i < n - 1 ==> es1[i] == es[i + 1]);
        lemma_retry_all_fail_general((n - 1) as u32, es1);
    } else {
        assert(s1 == RetryState::Done(es[0]));
        assert(es1.len() == 0);
    }
}

/// When the whole budget fails, the extra call's outcome — whatever it is —
/// becomes the run's result, after exactly `n + 1` calls.
pub proof fn lemma_retry_extra_call_surfaces<T, E>(n: u32, es: Seq<Result<T, E>>)
    requires
        es.len() == n + 1,
        forall|i: int| 0 <= i < n ==> es[i] is Err,
    ensures
        retry_run(spec_retry_start::<T, E>(n), es) == RetryState::Done(es[n as int]),
        retry_calls(spec_retry_start::<T, E>(n), es) == n + 1,
{
    lemma_retry_all_fail_general(n, es);
}

} // verus!
