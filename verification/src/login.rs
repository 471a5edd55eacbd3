//! The login handshake as a state machine.
//!
//! One login call is a short run of this machine. The driver performs one
//! network request per non-terminal state — an identity probe in `Probing`
//! and `Reprobing`, a login form submission in `Submitting` — and feeds the
//! outcome back as an event. The machine owns every decision of the
//! handshake: short-circuiting when the probe already shows an
//! authenticated id, refreshing the form token exactly once on an "expired
//! form" reply, rejecting bad credentials, and writing the new cookie and
//! user id back into the session on success.

use vstd::prelude::*;
use vstd::string::StrSliceExecFns;
use vstd::string::StringExecFns;
use crate::session::PbinfoUser;
use crate::session::SessionView;
use crate::strutil::first_char_from;
use crate::strutil::first_match_from;
use crate::strutil::find_char_from;
use crate::strutil::find_substring_from;
use crate::strutil::spec_strip_quotes;
use crate::strutil::strip_quotes;

verus! {

/// The ways a login call can fail. Transport and decoding failures carry
/// the diagnostic text the driver saw.
#[derive(Debug)]
pub enum LoginError {
    NoCookieError,
    HeaderParseError { err: String },
    CookieParseError { cookie: String, err: String },
    RequestSendError { url: String, err: String },
    RequestBuildError { err: String },
    ResponseParseError { err: String },
    JsonParseError { json: String, err: String },
    IncorrectUsernameOrPasswordError,
    NoUserIdError,
}

/// The site's reply to an "expired form token" login submission.
pub open spec fn expired_message() -> Seq<char> {
    "Formularul a expirat. Încearcă din nou!"@
}

/// The site's reply to a submission with bad credentials.
pub open spec fn incorrect_message() -> Seq<char> {
    "Utilizator/parola incorecte!"@
}

/// The text preceding the numeric user id embedded in the landing page.
pub open spec fn id_marker() -> Seq<char> {
    "user_autentificat = {\"id\":"@
}

/// An id is authenticated exactly when it is neither empty nor `"0"`.
pub open spec fn is_authenticated_id(id: Seq<char>) -> bool {
    id != ""@ && id != "0"@
}

/// Decides whether a probed user id denotes an authenticated session.
pub fn check_authenticated_id(id: &str) -> (b: bool)
    ensures
        b == is_authenticated_id(id@),
{
    proof {
        reveal_strlit("");
        reveal_strlit("0");
    }
    let n = id.unicode_len();
    if n == 0 {
        proof {
            assert(id@ =~= ""@);
        }
        return false;
    }
    if n == 1 && id.get_char(0) == '0' {
        proof {
            assert(id@ =~= "0"@);
        }
        return false;
    }
    proof {
        assert(id@ != ""@);
        assert(id@ != "0"@) by {
            if id@ == "0"@ {
                assert(id@.len() == 1 && id@[0] == '0');
            }
        }
    }
    true
}

/// What the session cookie parser yields on a `set-cookie` header value:
/// the text between the first `=` and the following `=` or `;`-segment end,
/// if the first `;`-delimited segment holds an `=` at all.
pub open spec fn spec_ssid_of(h: Seq<char>) -> Option<Seq<char>> {
    let seg_end = match first_char_from(h, ';', 0) {
        Some(j) => j,
        None => h.len() as int,
    };
    let seg = h.subrange(0, seg_end);
    match first_char_from(seg, '=', 0) {
        None => None,
        Some(p) => {
            let val_end = match first_char_from(seg, '=', p + 1) {
                Some(q) => q,
                None => seg.len() as int,
            };
            Some(seg.subrange(p + 1, val_end))
        },
    }
}

/// The first `;`-delimited segment of a `set-cookie` header value, as the
/// cookie parser's error reports it.
pub open spec fn spec_cookie_segment(h: Seq<char>) -> Seq<char> {
    let seg_end = match first_char_from(h, ';', 0) {
        Some(j) => j,
        None => h.len() as int,
    };
    h.subrange(0, seg_end)
}

/// Extracts the session cookie value from the `set-cookie` header of a
/// login reply: the header's first `;`-delimited segment, after its `=`.
/// A missing header is the "no cookie" failure; a segment without `=` is a
/// cookie-format failure carrying that segment.
pub fn try_get_ssid(header: Option<&str>) -> (r: Result<String, LoginError>)
    ensures
        match r {
            Ok(v) => header matches Some(h) && spec_ssid_of(h@) == Some(v@),
            Err(e) => match header {
                None => e is NoCookieError,
                Some(h) => spec_ssid_of(h@) is None && (e matches LoginError::CookieParseError {
                    cookie,
                    err,
                } && cookie@ == spec_cookie_segment(h@) && err@
                    == "Couldn't find anything after the '=' sign!"@),
            },
        },
{
    let h = match header {
        None => {
            return Err(LoginError::NoCookieError);
        },
        Some(h) => h,
    };
    let n = h.unicode_len();
    let seg_end = match find_char_from(h, ';', 0) {
        Some(j) => {
            proof {
                crate::strutil::lemma_first_char_some(h@, ';', 0, j as int);
            }
            j
        },
        None => n,
    };
    let seg = h.substring_char(0, seg_end);
    match find_char_from(seg, '=', 0) {
        None => Err(LoginError::CookieParseError {
            cookie: seg.to_owned(),
            err: "Couldn't find anything after the '=' sign!".to_owned(),
        }),
        Some(p) => {
            proof {
                crate::strutil::lemma_first_char_some(seg@, '=', 0, p as int);
            }
            let val_end = match find_char_from(seg, '=', p + 1) {
                Some(q) => {
                    proof {
                        crate::strutil::lemma_first_char_some(seg@, '=', p + 1, q as int);
                    }
                    q
                },
                None => seg_end,
            };
            let v = seg.substring_char(p + 1, val_end).to_owned();
            proof {
                assert(spec_ssid_of(h@) == Some(v@));
            }
            Ok(v)
        },
    }
}

/// What the user-id scraper yields on a landing page body: the text after
/// the first id marker, cut at the next marker occurrence or the body's
/// end, then cut at the first comma.
pub open spec fn spec_user_id_of(body: Seq<char>) -> Option<Seq<char>> {
    match first_match_from(body, id_marker(), 0) {
        None => None,
        Some(i) => {
            let start = i + id_marker().len();
            let stop = match first_match_from(body, id_marker(), start) {
                Some(j) => j,
                None => body.len() as int,
            };
            let seg = body.subrange(start, stop);
            let id_end = match first_char_from(seg, ',', 0) {
                Some(k) => k,
                None => seg.len() as int,
            };
            Some(seg.subrange(0, id_end))
        },
    }
}

/// Scrapes the numeric user id out of a landing page body. The id is the
/// run of characters after the embedded id marker, up to the first comma.
pub fn extract_user_id(body: &str) -> (r: Result<String, LoginError>)
    ensures
        match r {
            Ok(v) => spec_user_id_of(body@) == Some(v@),
            Err(e) => spec_user_id_of(body@) is None && (e matches LoginError::ResponseParseError {
                err,
            } && err@ == "Didn't find anything after user_autentificat = {\"id\":"@),
        },
{
    let marker = "user_autentificat = {\"id\":";
    let n = body.unicode_len();
    let m = marker.unicode_len();
    match find_substring_from(body, marker, 0) {
        None => Err(LoginError::ResponseParseError {
            err: "Didn't find anything after user_autentificat = {\"id\":".to_owned(),
        }),
        Some(i) => {
            proof {
                crate::strutil::lemma_first_match_some(body@, marker@, 0, i as int);
            }
            let start = i + m;
            let stop = match find_substring_from(body, marker, start) {
                Some(j) => {
                    proof {
                        crate::strutil::lemma_first_match_some(body@, marker@, start as int, j as int);
                    }
                    j
                },
                None => n,
            };
            let seg = body.substring_char(start, stop);
            let id_end = match find_char_from(seg, ',', 0) {
                Some(k) => {
                    proof {
                        crate::strutil::lemma_first_char_some(seg@, ',', 0, k as int);
                    }
                    k
                },
                None => stop - start,
            };
            let v = seg.substring_char(0, id_end).to_owned();
            proof {
                assert(spec_user_id_of(body@) == Some(v@));
            }
            Ok(v)
        },
    }
}

/// What the driver learned from one login form submission: the session
/// cookie extraction's outcome, the reply's status message when it is a
/// string, and the reply's form-token field rendered as text.
pub struct SubmitReply {
    pub ssid: Result<String, LoginError>,
    pub raspuns: Option<String>,
    pub form_token_raw: String,
}

/// Where one login call stands. `Probing` and `Reprobing` await an identity
/// probe's outcome; `Submitting` awaits a login form submission's outcome;
/// `Succeeded` and `Failed` are terminal.
pub enum LoginState {
    Probing,
    Submitting { attempt: u32 },
    Reprobing,
    Succeeded,
    Failed(LoginError),
}

/// The outcome of the one network operation a non-terminal state asks for.
pub enum LoginEvent {
    Probe(Result<String, LoginError>),
    Submit(Result<SubmitReply, LoginError>),
}

/// One transition of the login machine: the session's new value and the
/// next state, given where the call stands and what the network returned.
/// Mismatched pairs and terminal states absorb the event unchanged.
pub open spec fn spec_login_step(v: SessionView, s: LoginState, e: LoginEvent) -> (SessionView, LoginState) {
    match (s, e) {
        (LoginState::Probing, LoginEvent::Probe(pr)) => match pr {
            Ok(id) => if is_authenticated_id(id@) {
                (v, LoginState::Succeeded)
            } else {
                (SessionView { user_id: id@, ..v }, LoginState::Submitting { attempt: 1 })
            },
            Err(err) => (v, LoginState::Failed(err)),
        },
        (LoginState::Submitting { attempt }, LoginEvent::Submit(sr)) => match sr {
            Ok(reply) => if attempt == 1 && (reply.raspuns matches Some(msg) && msg@
                == expired_message()) {
                (
                    SessionView { form_token: spec_strip_quotes(reply.form_token_raw@), ..v },
                    LoginState::Submitting { attempt: 2 },
                )
            } else if reply.raspuns matches Some(msg) && msg@ == incorrect_message() {
                (v, LoginState::Failed(LoginError::IncorrectUsernameOrPasswordError))
            } else {
                match reply.ssid {
                    Ok(ss) => (SessionView { ssid: ss@, ..v }, LoginState::Reprobing),
                    Err(err) => (v, LoginState::Failed(err)),
                }
            },
            Err(err) => (v, LoginState::Failed(err)),
        },
        (LoginState::Reprobing, LoginEvent::Probe(pr)) => match pr {
            Ok(id) => (SessionView { user_id: id@, ..v }, LoginState::Succeeded),
            Err(err) => (v, LoginState::Failed(err)),
        },
        (other, _) => (v, other),
    }
}

/// Drives the login machine one step, applying the transition's session
/// mutation to `user`.
pub fn login_step(user: &mut PbinfoUser, state: LoginState, event: LoginEvent) -> (next: LoginState)
    ensures
        final(user)@ == spec_login_step(old(user)@, state, event).0,
        next == spec_login_step(old(user)@, state, event).1,
{
    match (state, event) {
        (LoginState::Probing, LoginEvent::Probe(pr)) => match pr {
            Ok(id) => {
                if check_authenticated_id(id.as_str()) {
                    LoginState::Succeeded
                } else {
                    user.user_id = id;
                    LoginState::Submitting { attempt: 1 }
                }
            },
            Err(err) => LoginState::Failed(err),
        },
        (LoginState::Submitting { attempt }, LoginEvent::Submit(sr)) => match sr {
            Ok(reply) => {
                let expired = String::from_str("Formularul a expirat. Încearcă din nou!");
                let incorrect = String::from_str("Utilizator/parola incorecte!");
                let is_expired = match &reply.raspuns {
                    Some(msg) => msg.eq(&expired),
                    None => false,
                };
                let is_incorrect = match &reply.raspuns {
                    Some(msg) => msg.eq(&incorrect),
                    None => false,
                };
                if attempt == 1 && is_expired {
                    user.form_token = strip_quotes(reply.form_token_raw.as_str());
                    LoginState::Submitting { attempt: 2 }
                } else if is_incorrect {
                    LoginState::Failed(LoginError::IncorrectUsernameOrPasswordError)
                } else {
                    match reply.ssid {
                        Ok(ss) => {
                            user.ssid = ss;
                            LoginState::Reprobing
                        },
                        Err(err) => LoginState::Failed(err),
                    }
                }
            },
            Err(err) => LoginState::Failed(err),
        },
        (LoginState::Reprobing, LoginEvent::Probe(pr)) => match pr {
            Ok(id) => {
                user.user_id = id;
                LoginState::Succeeded
            },
            Err(err) => LoginState::Failed(err),
        },
        (other, _) => other,
    }
}

/// The session and state after the machine consumes a sequence of events.
pub open spec fn login_run(v: SessionView, s: LoginState, es: Seq<LoginEvent>) -> (SessionView, LoginState)
    decreases es.len()
{
    if es.len() == 0 {
        (v, s)
    } else {
        let r = spec_login_step(v, s, es[0]);
        login_run(r.0, r.1, es.drop_first())
    }
}

/// How many login form submissions a run answers: the submission outcomes
/// consumed while the machine was in a `Submitting` state.
pub open spec fn login_posts(v: SessionView, s: LoginState, es: Seq<LoginEvent>) -> nat
    decreases es.len()
{
    if es.len() == 0 {
        0
    } else {
        let r = spec_login_step(v, s, es[0]);
        (if s is Submitting && es[0] is Submit {
            1nat
        } else {
            0nat
        }) + login_posts(r.0, r.1, es.drop_first())
    }
}

/// How many identity probes a run answers: the probe outcomes consumed
/// while the machine was in `Probing` or `Reprobing`.
pub open spec fn login_probes(v: SessionView, s: LoginState, es: Seq<LoginEvent>) -> nat
    decreases es.len()
{
    if es.len() == 0 {
        0
    } else {
        let r = spec_login_step(v, s, es[0]);
        (if (s is Probing || s is Reprobing) && es[0] is Probe {
            1nat
        } else {
            0nat
        }) + login_probes(r.0, r.1, es.drop_first())
    }
}

pub open spec fn is_terminal(s: LoginState) -> bool {
    s is Succeeded || s is Failed
}

/// A terminal state absorbs every further event: nothing changes and no
/// further network operation is answered.
pub proof fn lemma_terminal_absorbs(v: SessionView, s: LoginState, es: Seq<LoginEvent>)
    requires
        is_terminal(s),
    ensures
        login_run(v, s, es) == (v, s),
        login_posts(v, s, es) == 0,
        login_probes(v, s, es) == 0,
    decreases es.len(),
{
    if es.len() > 0 {
        lemma_terminal_absorbs(v, s, es.drop_first());
    }
}

/// When the identity probe yields an authenticated id, login completes
/// successfully at once: the session is untouched and no login form
/// submission is ever answered, whatever events follow.
pub proof fn lemma_login_already_authenticated(v: SessionView, es: Seq<LoginEvent>)
    requires
        es.len() >= 1,
        es[0] matches LoginEvent::Probe(Ok(id)) && is_authenticated_id(id@),
    ensures
        login_run(v, LoginState::Probing, es).1 == LoginState::Succeeded,
        login_run(v, LoginState::Probing, es).0 == v,
        login_posts(v, LoginState::Probing, es) == 0,
{
    let r = spec_login_step(v, LoginState::Probing, es[0]);
    lemma_terminal_absorbs(r.0, r.1, es.drop_first());
}

/// From a `Submitting` state, a run that reaches a terminal state has
/// answered at least one login form submission.
proof fn lemma_submitting_posts_at_least_one(v: SessionView, a: u32, es: Seq<LoginEvent>)
    requires
        is_terminal(login_run(v, LoginState::Submitting { attempt: a }, es).1),
    ensures
        login_posts(v, LoginState::Submitting { attempt: a }, es) >= 1,
    decreases es.len(),
{
    let s = LoginState::Submitting { attempt: a };
    let r = spec_login_step(v, s, es[0]);
    if !(es[0] is Submit) {
        lemma_submitting_posts_at_least_one(v, a, es.drop_first());
    }
}

/// When the identity probe yields an unauthenticated id, the probed id is
/// written into the session, and any run that then reaches a terminal state
/// has answered at least one login form submission.
pub proof fn lemma_login_probe_unauthenticated(v: SessionView, es: Seq<LoginEvent>)
    requires
        es.len() >= 1,
        es[0] matches LoginEvent::Probe(Ok(id)) && !is_authenticated_id(id@),
        is_terminal(login_run(v, LoginState::Probing, es).1),
    ensures
        login_posts(v, LoginState::Probing, es) >= 1,
{
    let r = spec_login_step(v, LoginState::Probing, es[0]);
    lemma_submitting_posts_at_least_one(r.0, 1, es.drop_first());
}

/// After the second submission attempt the machine never submits again.
proof fn lemma_no_posts_after_second_attempt(v: SessionView, s: LoginState, es: Seq<LoginEvent>)
    requires
        s is Reprobing || is_terminal(s),
    ensures
        login_posts(v, s, es) == 0,
    decreases es.len(),
{
    if es.len() > 0 {
        let r = spec_login_step(v, s, es[0]);
        lemma_no_posts_after_second_attempt(r.0, r.1, es.drop_first());
    }
}

/// From the second submission attempt, a run that reaches a terminal state
/// answers exactly one further login form submission.
proof fn lemma_second_attempt_posts_exactly_one(v: SessionView, es: Seq<LoginEvent>)
    requires
        is_terminal(login_run(v, LoginState::Submitting { attempt: 2 }, es).1),
    ensures
        login_posts(v, LoginState::Submitting { attempt: 2 }, es) == 1,
    decreases es.len(),
{
    let s = LoginState::Submitting { attempt: 2 };
    let r = spec_login_step(v, s, es[0]);
    if es[0] is Submit {
        lemma_no_posts_after_second_attempt(r.0, r.1, es.drop_first());
    } else {
        lemma_second_attempt_posts_exactly_one(v, es.drop_first());
    }
}

/// The "form expired" reply on the first attempt refreshes the form token
/// exactly once — the new token is the reply's form-token text with its
/// surrounding quotes stripped — and leads to exactly one further login
/// form submission, whatever the second attempt's outcome.
pub proof fn lemma_expired_token_refresh(v: SessionView, reply: SubmitReply, es: Seq<LoginEvent>)
    requires
        reply.raspuns matches Some(msg) && msg@ == expired_message(),
        is_terminal(
            login_run(
                spec_login_step(v, LoginState::Submitting { attempt: 1 }, LoginEvent::Submit(Ok(reply))).0,
                spec_login_step(v, LoginState::Submitting { attempt: 1 }, LoginEvent::Submit(Ok(reply))).1,
                es,
            ).1,
        ),
    ensures
        ({
            let v1 = spec_login_step(
                v,
                LoginState::Submitting { attempt: 1 },
                LoginEvent::Submit(Ok(reply)),
            ).0;
            let s1 = spec_login_step(
                v,
                LoginState::Submitting { attempt: 1 },
                LoginEvent::Submit(Ok(reply)),
            ).1;
            &&& s1 == LoginState::Submitting { attempt: 2 }
            &&& v1.form_token == spec_strip_quotes(reply.form_token_raw@)
            &&& v1.email == v.email
            &&& v1.password == v.password
            &&& v1.ssid == v.ssid
            &&& v1.user_id == v.user_id
            &&& login_posts(v1, s1, es) == 1
        }),
{
    let v1 = spec_login_step(
        v,
        LoginState::Submitting { attempt: 1 },
        LoginEvent::Submit(Ok(reply)),
    ).0;
    lemma_second_attempt_posts_exactly_one(v1, es);
}

/// How many further submissions a state can still answer: two before the
/// first attempt is answered, one more after a token refresh, none once the
/// machine reprobes or ends.
pub open spec fn max_posts(s: LoginState) -> nat {
    match s {
        LoginState::Probing => 2,
        LoginState::Submitting { attempt } => if attempt == 1 {
            2
        } else {
            1
        },
        LoginState::Reprobing => 0,
        LoginState::Succeeded => 0,
        LoginState::Failed(_) => 0,
    }
}

proof fn lemma_posts_bounded_general(v: SessionView, s: LoginState, es: Seq<LoginEvent>)
    ensures
        login_posts(v, s, es) <= max_posts(s),
    decreases es.len(),
{
    if es.len() > 0 {
        let r = spec_login_step(v, s, es[0]);
        lemma_posts_bounded_general(r.0, r.1, es.drop_first());
    }
}

/// At most two login form submissions are answered in one login call,
/// whatever the events: the token-refresh branch is a single structural
/// retry, never a loop.
pub proof fn lemma_at_most_two_posts(v: SessionView, es: Seq<LoginEvent>)
    ensures
        login_posts(v, LoginState::Probing, es) <= 2,
{
    lemma_posts_bounded_general(v, LoginState::Probing, es);
}

/// A submission answered with the "incorrect credentials" message fails the
/// login with the credentials error, leaves the session as it stood, and no
/// further network operation is answered.
pub proof fn lemma_incorrect_credentials(
    v: SessionView,
    a: u32,
    reply: SubmitReply,
    es: Seq<LoginEvent>,
)
    requires
        reply.raspuns matches Some(msg) && msg@ == incorrect_message(),
    ensures
        ({
            let v1 = spec_login_step(
                v,
                LoginState::Submitting { attempt: a },
                LoginEvent::Submit(Ok(reply)),
            ).0;
            let s1 = spec_login_step(
                v,
                LoginState::Submitting { attempt: a },
                LoginEvent::Submit(Ok(reply)),
            ).1;
            &&& s1 == LoginState::Failed(LoginError::IncorrectUsernameOrPasswordError)
            &&& v1 == v
            &&& login_posts(v1, s1, es) == 0
            &&& login_probes(v1, s1, es) == 0
        }),
{
    reveal_strlit("Formularul a expirat. Încearcă din nou!");
    reveal_strlit("Utilizator/parola incorecte!");
    assert(expired_message().len() != incorrect_message().len());
    let s1 = spec_login_step(
        v,
        LoginState::Submitting { attempt: a },
        LoginEvent::Submit(Ok(reply)),
    ).1;
    lemma_terminal_absorbs(v, s1, es);
}

} // verus!
