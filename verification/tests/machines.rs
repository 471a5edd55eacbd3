use pbinfo_api::classify_score_reply;
use pbinfo_api::compute_scores;
use pbinfo_api::has_perfect_score;
use pbinfo_api::login_step;
use pbinfo_api::poll_start;
use pbinfo_api::poll_step;
use pbinfo_api::retry_start;
use pbinfo_api::retry_step;
use pbinfo_api::top_score_step;
use pbinfo_api::GetScoreError;
use pbinfo_api::LoginError;
use pbinfo_api::LoginEvent;
use pbinfo_api::LoginState;
use pbinfo_api::PbinfoUser;
use pbinfo_api::PollState;
use pbinfo_api::RetryState;
use pbinfo_api::ScoreStatus;
use pbinfo_api::SolutionListReply;
use pbinfo_api::SubmitReply;
use pbinfo_api::TopScoreEvent;
use pbinfo_api::TopScoreState;
use pbinfo_api::TopSolutionResponseType;

fn sample_user() -> PbinfoUser {
    PbinfoUser {
        email: "user@example.com".to_string(),
        password: "secret".to_string(),
        ssid: "oldssid".to_string(),
        form_token: "oldtoken".to_string(),
        user_id: "".to_string(),
    }
}

const EXPIRED: &str = "Formularul a expirat. Încearcă din nou!";
const INCORRECT: &str = "Utilizator/parola incorecte!";

#[test]
fn login_authenticated_probe_short_circuits() {
    let mut user = sample_user();
    let next = login_step(
        &mut user,
        LoginState::Probing,
        LoginEvent::Probe(Ok("4242".to_string())),
    );
    assert!(matches!(next, LoginState::Succeeded));
    // nothing was written back, not even the probed id
    assert_eq!(user.user_id, "");
    assert_eq!(user.ssid, "oldssid");
    assert_eq!(user.form_token, "oldtoken");
}

#[test]
fn login_unauthenticated_probe_moves_to_submission() {
    let mut user = sample_user();
    let next = login_step(
        &mut user,
        LoginState::Probing,
        LoginEvent::Probe(Ok("0".to_string())),
    );
    assert!(matches!(next, LoginState::Submitting { attempt: 1 }));
    assert_eq!(user.user_id, "0");
}

#[test]
fn login_probe_error_fails() {
    let mut user = sample_user();
    let next = login_step(
        &mut user,
        LoginState::Probing,
        LoginEvent::Probe(Err(LoginError::RequestSendError {
            url: "https://www.pbinfo.ro".to_string(),
            err: "connection refused".to_string(),
        })),
    );
    assert!(matches!(next, LoginState::Failed(LoginError::RequestSendError { .. })));
    assert_eq!(user.ssid, "oldssid");
}

#[test]
fn login_expired_form_refreshes_token_once() {
    let mut user = sample_user();
    let next = login_step(
        &mut user,
        LoginState::Submitting { attempt: 1 },
        LoginEvent::Submit(Ok(SubmitReply {
            ssid: Ok("discarded".to_string()),
            raspuns: Some(EXPIRED.to_string()),
            form_token_raw: "\"freshtoken\"".to_string(),
        })),
    );
    assert!(matches!(next, LoginState::Submitting { attempt: 2 }));
    assert_eq!(user.form_token, "freshtoken");
    // the first attempt's cookie extraction is discarded in this branch
    assert_eq!(user.ssid, "oldssid");
}

#[test]
fn login_expired_on_second_attempt_goes_to_success_path() {
    let mut user = sample_user();
    let next = login_step(
        &mut user,
        LoginState::Submitting { attempt: 2 },
        LoginEvent::Submit(Ok(SubmitReply {
            ssid: Ok("newssid".to_string()),
            raspuns: Some(EXPIRED.to_string()),
            form_token_raw: "\"ignored\"".to_string(),
        })),
    );
    // the expired branch is allowed exactly once; on the second attempt the
    // reply falls into the generic success path
    assert!(matches!(next, LoginState::Reprobing));
    assert_eq!(user.ssid, "newssid");
    assert_eq!(user.form_token, "oldtoken");
}

#[test]
fn login_incorrect_credentials_fail() {
    for attempt in [1u32, 2u32] {
        let mut user = sample_user();
        user.user_id = "0".to_string();
        let next = login_step(
            &mut user,
            LoginState::Submitting { attempt },
            LoginEvent::Submit(Ok(SubmitReply {
                ssid: Ok("newssid".to_string()),
                raspuns: Some(INCORRECT.to_string()),
                form_token_raw: "\"tok\"".to_string(),
            })),
        );
        assert!(matches!(
            next,
            LoginState::Failed(LoginError::IncorrectUsernameOrPasswordError)
        ));
        // the session keeps what the probe step wrote earlier
        assert_eq!(user.user_id, "0");
        assert_eq!(user.ssid, "oldssid");
    }
}

#[test]
fn login_success_path_writes_cookie_then_id() {
    let mut user = sample_user();
    let next = login_step(
        &mut user,
        LoginState::Submitting { attempt: 1 },
        LoginEvent::Submit(Ok(SubmitReply {
            ssid: Ok("brandnew".to_string()),
            raspuns: Some("alt raspuns".to_string()),
            form_token_raw: "\"tok\"".to_string(),
        })),
    );
    assert!(matches!(next, LoginState::Reprobing));
    assert_eq!(user.ssid, "brandnew");
    let done = login_step(
        &mut user,
        LoginState::Reprobing,
        LoginEvent::Probe(Ok("777".to_string())),
    );
    assert!(matches!(done, LoginState::Succeeded));
    assert_eq!(user.user_id, "777");
}

#[test]
fn login_cookie_failure_surfaces_on_success_path() {
    let mut user = sample_user();
    let next = login_step(
        &mut user,
        LoginState::Submitting { attempt: 2 },
        LoginEvent::Submit(Ok(SubmitReply {
            ssid: Err(LoginError::NoCookieError),
            raspuns: None,
            form_token_raw: "null".to_string(),
        })),
    );
    assert!(matches!(next, LoginState::Failed(LoginError::NoCookieError)));
    assert_eq!(user.ssid, "oldssid");
}

#[test]
fn classify_score_reply_statuses() {
    assert!(matches!(
        classify_score_reply(Some("executing".to_string()), "{}".to_string()),
        ScoreStatus::StillExecuting
    ));
    assert!(matches!(
        classify_score_reply(Some("pending".to_string()), "{}".to_string()),
        ScoreStatus::StillExecuting
    ));
    match classify_score_reply(Some("complet".to_string()), "{\"scor\":100}".to_string()) {
        ScoreStatus::DoneExecuting { value } => assert_eq!(value, "{\"scor\":100}"),
        ScoreStatus::StillExecuting => panic!("a non-running status must be terminal"),
    }
    assert!(matches!(
        classify_score_reply(None, "{}".to_string()),
        ScoreStatus::DoneExecuting { .. }
    ));
}

#[test]
fn poll_returns_payload_after_k_still_rounds() {
    let k = 2;
    let mut state = poll_start();
    let mut fetches = 0;
    for _ in 0..k {
        state = poll_step(state, Ok(ScoreStatus::StillExecuting));
        fetches += 1;
        assert!(matches!(state, PollState::Waiting { .. }));
    }
    state = poll_step(
        state,
        Ok(ScoreStatus::DoneExecuting { value: "payload".to_string() }),
    );
    fetches += 1;
    assert!(matches!(state, PollState::Finishing { .. }));
    // one best-effort extra fetch, its outcome discarded
    state = poll_step(state, Err(GetScoreError::TimeoutError));
    fetches += 1;
    match state {
        PollState::Done(Ok(v)) => assert_eq!(v, "payload"),
        other => panic!("poll must end with the payload, got {:?}", fetch_count_msg(other)),
    }
    assert_eq!(fetches, k + 2);
}

fn fetch_count_msg(s: PollState) -> String {
    match s {
        PollState::Waiting { tries } => format!("still waiting with {} tries", tries),
        PollState::Finishing { .. } => "finishing".to_string(),
        PollState::Done(Ok(_)) => "done ok".to_string(),
        PollState::Done(Err(_)) => "done err".to_string(),
    }
}

#[test]
fn poll_times_out_after_sixty_fetches() {
    let mut state = poll_start();
    let mut fetches = 0;
    loop {
        match state {
            PollState::Waiting { .. } => {
                state = poll_step(state, Ok(ScoreStatus::StillExecuting));
                fetches += 1;
            },
            PollState::Finishing { .. } => panic!("no terminal status was ever fed"),
            PollState::Done(r) => {
                assert!(matches!(r, Err(GetScoreError::TimeoutError)));
                break;
            },
        }
    }
    assert_eq!(fetches, 60);
}

#[test]
fn poll_propagates_fetch_error() {
    let state = poll_step(
        poll_start(),
        Err(GetScoreError::ParseJsonError {
            json: "not json".to_string(),
            err: "expected value".to_string(),
        }),
    );
    assert!(matches!(
        state,
        PollState::Done(Err(GetScoreError::ParseJsonError { .. }))
    ));
}

#[test]
fn retry_succeeds_on_last_budgeted_call() {
    let n = 3;
    let mut state: RetryState<u32, String> = retry_start(n);
    let mut calls = 0;
    for _ in 0..n - 1 {
        state = retry_step(state, Err("transient".to_string()));
        calls += 1;
        assert!(matches!(state, RetryState::Trying { .. }));
    }
    state = retry_step(state, Ok(7));
    calls += 1;
    match state {
        RetryState::Done(Ok(v)) => assert_eq!(v, 7),
        _ => panic!("the budgeted success must end the run"),
    }
    assert_eq!(calls, n);
}

#[test]
fn retry_extra_call_surfaces_after_total_failure() {
    let mut state: RetryState<u32, String> = retry_start(3);
    for _ in 0..3 {
        state = retry_step(state, Err("down".to_string()));
    }
    assert!(matches!(state, RetryState::Extra));
    let state = retry_step(state, Err("final failure".to_string()));
    match state {
        RetryState::Done(Err(e)) => assert_eq!(e, "final failure"),
        _ => panic!("the extra call's failure must surface"),
    }
}

#[test]
fn retry_extra_call_can_still_succeed() {
    let mut state: RetryState<u32, String> = retry_start(1);
    state = retry_step(state, Err("down".to_string()));
    assert!(matches!(state, RetryState::Extra));
    state = retry_step(state, Ok(9));
    assert!(matches!(state, RetryState::Done(Ok(9))));
}

#[test]
fn retry_zero_budget_goes_straight_to_extra() {
    let state: RetryState<u32, String> = retry_start(0);
    assert!(matches!(state, RetryState::Extra));
}

fn list_reply(total: Option<i64>, entries: Option<Vec<Option<String>>>, raw: &str) -> SolutionListReply {
    SolutionListReply { total, entries, raw: raw.to_string() }
}

#[test]
fn top_score_absent_problem_is_not_found() {
    let next = top_score_step(
        TopScoreState::CheckingExistence,
        TopScoreEvent::Existence(Ok(false)),
    );
    assert!(matches!(
        next,
        TopScoreState::Finished(TopSolutionResponseType::ProblemNotFound)
    ));
}

#[test]
fn top_score_existence_error_is_page_error() {
    let next = top_score_step(
        TopScoreState::CheckingExistence,
        TopScoreEvent::Existence(Err("connection reset".to_string())),
    );
    match next {
        TopScoreState::Finished(TopSolutionResponseType::PageError(m)) => {
            assert_eq!(m, "connection reset")
        },
        _ => panic!("a transport failure must become a page error"),
    }
}

#[test]
fn top_score_zero_count_is_no_solution() {
    let s1 = top_score_step(
        TopScoreState::CheckingExistence,
        TopScoreEvent::Existence(Ok(true)),
    );
    assert!(matches!(s1, TopScoreState::FetchingCount));
    let s2 = top_score_step(
        s1,
        TopScoreEvent::CountReply(Ok(list_reply(Some(0), None, "{\"numar_total_solutii\":0}"))),
    );
    assert!(matches!(
        s2,
        TopScoreState::Finished(TopSolutionResponseType::NoSolution)
    ));
}

#[test]
fn top_score_missing_count_is_page_error() {
    let next = top_score_step(
        TopScoreState::FetchingCount,
        TopScoreEvent::CountReply(Ok(list_reply(None, None, "{\"x\":1}"))),
    );
    match next {
        TopScoreState::Finished(TopSolutionResponseType::PageError(m)) => assert_eq!(
            m,
            "numar_total_solutii couldn't be found in response json as an int!\nResponse json was: {\"x\":1}"
        ),
        _ => panic!("a count reply without the field must be a page error"),
    }
}

#[test]
fn top_score_oversized_count_is_page_error() {
    let next = top_score_step(
        TopScoreState::FetchingCount,
        TopScoreEvent::CountReply(Ok(list_reply(Some(4294967296), None, "{}"))),
    );
    match next {
        TopScoreState::Finished(TopSolutionResponseType::PageError(m)) => assert_eq!(
            m,
            "numar_total_solutii couldn't be parsed to an u32\nnumar_total_solutii was 4294967296"
        ),
        _ => panic!("an oversized count must be a page error"),
    }
    let negative = top_score_step(
        TopScoreState::FetchingCount,
        TopScoreEvent::CountReply(Ok(list_reply(Some(-1), None, "{}"))),
    );
    match negative {
        TopScoreState::Finished(TopSolutionResponseType::PageError(m)) => assert_eq!(
            m,
            "numar_total_solutii couldn't be parsed to an u32\nnumar_total_solutii was -1"
        ),
        _ => panic!("a negative count must be a page error"),
    }
}

#[test]
fn top_score_positive_count_moves_to_list_fetch() {
    let next = top_score_step(
        TopScoreState::FetchingCount,
        TopScoreEvent::CountReply(Ok(list_reply(Some(3), None, "countraw"))),
    );
    match next {
        TopScoreState::FetchingList { count, count_raw } => {
            assert_eq!(count, 3);
            assert_eq!(count_raw, "countraw");
        },
        _ => panic!("a usable count must move the run to the full fetch"),
    }
}

#[test]
fn top_score_perfect_list() {
    let entries = vec![
        Some("80".to_string()),
        Some("100".to_string()),
        Some("-2".to_string()),
    ];
    let next = top_score_step(
        TopScoreState::FetchingList { count: 3, count_raw: "c".to_string() },
        TopScoreEvent::ListReply(Ok(list_reply(None, Some(entries), "{}"))),
    );
    assert!(matches!(
        next,
        TopScoreState::Finished(TopSolutionResponseType::PerfectSolution)
    ));
}

#[test]
fn top_score_imperfect_list() {
    let entries = vec![Some("80".to_string()), Some("45".to_string())];
    let next = top_score_step(
        TopScoreState::FetchingList { count: 2, count_raw: "c".to_string() },
        TopScoreEvent::ListReply(Ok(list_reply(None, Some(entries), "{}"))),
    );
    assert!(matches!(
        next,
        TopScoreState::Finished(TopSolutionResponseType::ImperfectSolution)
    ));
}

#[test]
fn top_score_missing_array_reports_count_reply() {
    let next = top_score_step(
        TopScoreState::FetchingList { count: 2, count_raw: "the count text".to_string() },
        TopScoreEvent::ListReply(Ok(list_reply(None, None, "the list text"))),
    );
    match next {
        TopScoreState::Finished(TopSolutionResponseType::PageError(m)) => {
            // the diagnostic has always carried the count reply's text
            assert_eq!(m, "surse was not an array\nResponse was: the count text")
        },
        _ => panic!("a list reply without the array must be a page error"),
    }
}

#[test]
fn top_score_unparsable_score_is_page_error() {
    let entries = vec![Some("x".to_string())];
    let next = top_score_step(
        TopScoreState::FetchingList { count: 1, count_raw: "c".to_string() },
        TopScoreEvent::ListReply(Ok(list_reply(None, Some(entries), "{}"))),
    );
    match next {
        TopScoreState::Finished(TopSolutionResponseType::PageError(m)) => assert_eq!(
            m,
            "Couldn't parse a score for a solution!\nSolution list was[Some(\"x\")]\nParse Error was invalid digit found in string"
        ),
        _ => panic!("an unparsable score must be a page error"),
    }
}

#[test]
fn compute_scores_substitutes_sentinel() {
    let entries = vec![Some("80".to_string()), None, Some("-2".to_string())];
    assert_eq!(compute_scores(&entries), Ok(vec![80, -2, -2]));
}

#[test]
fn has_perfect_score_looks_for_exactly_one_hundred() {
    assert!(has_perfect_score(&vec![80, 100, -2]));
    assert!(!has_perfect_score(&vec![80, 45]));
    assert!(!has_perfect_score(&vec![]));
    assert!(!has_perfect_score(&vec![99, 101]));
}
