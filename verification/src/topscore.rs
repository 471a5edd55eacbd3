//! The top-score aggregation as a state machine.
//!
//! One aggregation call composes three retried network phases — a
//! problem-existence check, a submission-count probe, and a full
//! submission-list fetch — into exactly one of five outcomes. The driver
//! performs the phase each non-terminal state asks for (each wrapped in the
//! bounded-retry helper) and feeds the outcome back; every decision,
//! including the parsing of the string-encoded scores and the wording of
//! the diagnostic outcomes, is made here.

use vstd::prelude::*;
use vstd::string::StrSliceExecFns;
use vstd::string::StringExecFns;
use crate::strutil::i64_to_string;
use crate::strutil::parse_i64;
use crate::strutil::spec_i64_string;
use crate::strutil::spec_parse_i64;
use crate::strutil::ParseIntFailure;

verus! {

/// What is known of the best solution to a problem: solved perfectly,
/// attempted without a perfect score, never attempted, no such problem, or
/// a diagnostic when a reply could not be understood.
#[derive(Debug)]
pub enum TopSolutionResponseType {
    PerfectSolution,
    ImperfectSolution,
    NoSolution,
    ProblemNotFound,
    PageError(String),
}

/// The abstract value of an aggregation outcome.
pub ghost enum TopOutcomeView {
    PerfectSolution,
    ImperfectSolution,
    NoSolution,
    ProblemNotFound,
    PageError(Seq<char>),
}

impl View for TopSolutionResponseType {
    type V = TopOutcomeView;

    open spec fn view(&self) -> TopOutcomeView {
        match self {
            TopSolutionResponseType::PerfectSolution => TopOutcomeView::PerfectSolution,
            TopSolutionResponseType::ImperfectSolution => TopOutcomeView::ImperfectSolution,
            TopSolutionResponseType::NoSolution => TopOutcomeView::NoSolution,
            TopSolutionResponseType::ProblemNotFound => TopOutcomeView::ProblemNotFound,
            TopSolutionResponseType::PageError(m) => TopOutcomeView::PageError(m@),
        }
    }
}

/// One decoded submission-list reply: the total-count field when present as
/// an integer, the score field of each array entry when the array is
/// present — each score a string or absent — and the reply's full text for
/// diagnostics.
pub struct SolutionListReply {
    pub total: Option<i64>,
    pub entries: Option<Vec<Option<String>>>,
    pub raw: String,
}

/// The abstract value of a decoded submission-list reply.
pub ghost struct SolutionListReplyView {
    pub total: Option<int>,
    pub entries: Option<Seq<Option<Seq<char>>>>,
    pub raw: Seq<char>,
}

impl View for SolutionListReply {
    type V = SolutionListReplyView;

    open spec fn view(&self) -> SolutionListReplyView {
        SolutionListReplyView {
            total: match self.total {
                Some(n) => Some(n as int),
                None => None,
            },
            entries: self.entries.deep_view(),
            raw: self.raw@,
        }
    }
}

/// The diagnostic for a count reply without an integer total-count field.
pub open spec fn count_missing_message(raw: Seq<char>) -> Seq<char> {
    "numar_total_solutii couldn't be found in response json as an int!\nResponse json was: "@ + raw
}

/// The diagnostic for a total count outside the unsigned 32-bit range.
pub open spec fn count_not_u32_message(n: int) -> Seq<char> {
    "numar_total_solutii couldn't be parsed to an u32\nnumar_total_solutii was "@
        + spec_i64_string(n)
}

/// The diagnostic for a list reply without an array field. It carries the
/// count reply's text, as the flow has always reported it.
pub open spec fn list_not_array_message(count_raw: Seq<char>) -> Seq<char> {
    "surse was not an array\nResponse was: "@ + count_raw
}

/// The standard parser's description of each failure kind.
pub open spec fn parse_failure_text(f: ParseIntFailure) -> Seq<char> {
    match f {
        ParseIntFailure::Empty => "cannot parse integer from empty string"@,
        ParseIntFailure::InvalidDigit => "invalid digit found in string"@,
        ParseIntFailure::PosOverflow => "number too large to fit in target type"@,
        ParseIntFailure::NegOverflow => "number too small to fit in target type"@,
    }
}

/// One score entry as the diagnostic renders it.
pub open spec fn render_entry(e: Option<Seq<char>>) -> Seq<char> {
    match e {
        Some(s) => "Some(\""@ + s + "\")"@,
        None => "None"@,
    }
}

/// The score entries from position `i` on, comma-separated.
pub open spec fn render_items_from(s: Seq<Option<Seq<char>>>, i: int) -> Seq<char>
    decreases s.len() - i
{
    if i < 0 || i >= s.len() {
        Seq::empty()
    } else if i == s.len() - 1 {
        render_entry(s[i])
    } else {
        render_entry(s[i]) + ", "@ + render_items_from(s, i + 1)
    }
}

/// The whole score list as the diagnostic renders it.
pub open spec fn render_entries(s: Seq<Option<Seq<char>>>) -> Seq<char> {
    "["@ + render_items_from(s, 0) + "]"@
}

/// The diagnostic for a score that could not be parsed: the full list and
/// the parse failure.
pub open spec fn score_parse_message(entries: Seq<Option<Seq<char>>>, f: ParseIntFailure) -> Seq<char> {
    "Couldn't parse a score for a solution!\nSolution list was"@ + render_entries(entries)
        + "\nParse Error was "@ + parse_failure_text(f)
}

fn build_count_missing_message(raw: &str) -> (r: String)
    ensures
        r@ == count_missing_message(raw@),
{
    let mut s = String::from_str(
        "numar_total_solutii couldn't be found in response json as an int!\nResponse json was: ",
    );
    s.append(raw);
    s
}

fn build_count_not_u32_message(n: i64) -> (r: String)
    ensures
        r@ == count_not_u32_message(n as int),
{
    let mut s = String::from_str(
        "numar_total_solutii couldn't be parsed to an u32\nnumar_total_solutii was ",
    );
    let num = i64_to_string(n);
    s.append(num.as_str());
    s
}

fn build_list_not_array_message(count_raw: &str) -> (r: String)
    ensures
        r@ == list_not_array_message(count_raw@),
{
    let mut s = String::from_str("surse was not an array\nResponse was: ");
    s.append(count_raw);
    s
}

fn parse_failure_string(f: ParseIntFailure) -> (r: String)
    ensures
        r@ == parse_failure_text(f),
{
    match f {
        ParseIntFailure::Empty => String::from_str("cannot parse integer from empty string"),
        ParseIntFailure::InvalidDigit => String::from_str("invalid digit found in string"),
        ParseIntFailure::PosOverflow => String::from_str(
            "number too large to fit in target type",
        ),
        ParseIntFailure::NegOverflow => String::from_str(
            "number too small to fit in target type",
        ),
    }
}

fn render_entries_exec(entries: &Vec<Option<String>>) -> (r: String)
    ensures
        r@ == render_entries(entries.deep_view()),
{
    let ghost dv = entries.deep_view();
    let mut s = String::from_str("[");
    let mut i: usize = 0;
    while i < entries.len()
        invariant
            i <= entries.len(),
            dv.len() == entries@.len(),
            dv == entries.deep_view(),
            s@ + render_items_from(dv, i as int) == "["@ + render_items_from(dv, 0),
        decreases entries.len() - i,
    {
        let ghost s_before = s@;
        match &entries[i] {
            Some(st) => {
                s.append("Some(\"");
                s.append(st.as_str());
                s.append("\")");
                proof {
                    assert(dv[i as int] == Some(st@));
                    assert(s@ =~= s_before + render_entry(dv[i as int]));
                }
            },
            None => {
                s.append("None");
                proof {
                    assert(dv[i as int] is None);
                    assert(s@ =~= s_before + render_entry(dv[i as int]));
                }
            },
        }
        if i + 1 < entries.len() {
            s.append(", ");
            proof {
                assert(render_items_from(dv, i as int) == render_entry(dv[i as int]) + ", "@
                    + render_items_from(dv, i + 1));
                assert(s@ + render_items_from(dv, i + 1) =~= s_before + render_items_from(
                    dv,
                    i as int,
                ));
            }
        } else {
            proof {
                assert(i == dv.len() - 1);
                assert(render_items_from(dv, i as int) == render_entry(dv[i as int]));
                assert(render_items_from(dv, i + 1) =~= Seq::<char>::empty());
                assert(s@ + render_items_from(dv, i + 1) =~= s_before + render_items_from(
                    dv,
                    i as int,
                ));
            }
        }
        i = i + 1;
    }
    proof {
        assert(render_items_from(dv, i as int) =~= Seq::<char>::empty());
        assert(s@ =~= "["@ + render_items_from(dv, 0));
    }
    s.append("]");
    s
}

fn build_score_parse_message(entries: &Vec<Option<String>>, f: ParseIntFailure) -> (r: String)
    ensures
        r@ == score_parse_message(entries.deep_view(), f),
{
    let mut s = String::from_str("Couldn't parse a score for a solution!\nSolution list was");
    let list = render_entries_exec(entries);
    s.append(list.as_str());
    s.append("\nParse Error was ");
    let tail = parse_failure_string(f);
    s.append(tail.as_str());
    proof {
        assert(s@ =~= score_parse_message(entries.deep_view(), f));
    }
    s
}

/// The score of one entry: its string parsed as a decimal integer, or the
/// unscored sentinel `-2` when the field was absent or not a string.
pub open spec fn spec_entry_score(e: Option<Seq<char>>) -> Result<int, ParseIntFailure> {
    match e {
        Some(s) => spec_parse_i64(s),
        None => Ok(-2),
    }
}

/// All entry scores, left to right, stopping at the first parse failure.
pub open spec fn spec_scores(s: Seq<Option<Seq<char>>>) -> Result<Seq<i64>, ParseIntFailure>
    decreases s.len()
{
    if s.len() == 0 {
        Ok(Seq::empty())
    } else {
        match spec_scores(s.drop_last()) {
            Err(f) => Err(f),
            Ok(pre) => match spec_entry_score(s.last()) {
                Err(f) => Err(f),
                Ok(v) => Ok(pre.push(v as i64)),
            },
        }
    }
}

proof fn lemma_scores_err_extends(s: Seq<Option<Seq<char>>>, i: int, f: ParseIntFailure)
    requires
        0 <= i <= s.len(),
        spec_scores(s.subrange(0, i)) == Err::<Seq<i64>, ParseIntFailure>(f),
    ensures
        spec_scores(s) == Err::<Seq<i64>, ParseIntFailure>(f),
    decreases s.len(),
{
    if i == s.len() {
        assert(s.subrange(0, i) =~= s);
    } else {
        assert(s.drop_last().subrange(0, i) =~= s.subrange(0, i));
        lemma_scores_err_extends(s.drop_last(), i, f);
    }
}

/// Parses every entry's score, substituting `-2` for absent or non-string
/// fields, and fails with the first entry's parse failure otherwise.
pub fn compute_scores(entries: &Vec<Option<String>>) -> (r: Result<Vec<i64>, ParseIntFailure>)
    ensures
        match r {
            Ok(v) => spec_scores(entries.deep_view()) == Ok::<Seq<i64>, ParseIntFailure>(v@),
            Err(f) => spec_scores(entries.deep_view()) == Err::<Seq<i64>, ParseIntFailure>(f),
        },
{
    let ghost dv = entries.deep_view();
    let mut out: Vec<i64> = Vec::new();
    let mut i: usize = 0;
    proof {
        assert(dv.subrange(0, 0) =~= Seq::<Option<Seq<char>>>::empty());
        assert(out@ =~= Seq::<i64>::empty());
    }
    while i < entries.len()
        invariant
            i <= entries.len(),
            dv.len() == entries@.len(),
            dv == entries.deep_view(),
            spec_scores(dv.subrange(0, i as int)) == Ok::<Seq<i64>, ParseIntFailure>(out@),
        decreases entries.len() - i,
    {
        let sc: Result<i64, ParseIntFailure> = match &entries[i] {
            Some(st) => parse_i64(st.as_str()),
            None => Ok(-2),
        };
        proof {
            assert(dv.subrange(0, i + 1).drop_last() =~= dv.subrange(0, i as int));
            assert(dv.subrange(0, i + 1).last() == dv[i as int]);
        }
        match sc {
            Ok(v) => {
                out.push(v);
            },
            Err(f) => {
                proof {
                    assert(spec_scores(dv.subrange(0, i + 1)) == Err::<Seq<i64>, ParseIntFailure>(
                        f,
                    ));
                    lemma_scores_err_extends(dv, i + 1, f);
                }
                return Err(f);
            },
        }
        i = i + 1;
    }
    proof {
        assert(dv.subrange(0, i as int) =~= dv);
    }
    Ok(out)
}

/// Some parsed score is exactly one hundred.
pub open spec fn spec_has_perfect(scores: Seq<i64>) -> bool {
    exists|i: int| 0 <= i < scores.len() && scores[i] == 100
}

/// Whether any parsed score is exactly one hundred.
pub fn has_perfect_score(scores: &Vec<i64>) -> (b: bool)
    ensures
        b == spec_has_perfect(scores@),
{
    let mut i: usize = 0;
    while i < scores.len()
        invariant
            i <= scores.len(),
            forall|j: int| 0 <= j < i ==> scores@[j] != 100,
        decreases scores.len() - i,
    {
        if scores[i] == 100 {
            return true;
        }
        i = i + 1;
    }
    false
}

/// Where one aggregation stands. The non-terminal states ask the driver for
/// the existence check, the count probe (a one-entry list fetch), and the
/// full list fetch, each wrapped in the bounded-retry helper.
pub enum TopScoreState {
    CheckingExistence,
    FetchingCount,
    FetchingList { count: u32, count_raw: String },
    Finished(TopSolutionResponseType),
}

/// The abstract value of an aggregation state.
pub ghost enum TopStateView {
    CheckingExistence,
    FetchingCount,
    FetchingList { count: int, count_raw: Seq<char> },
    Finished(TopOutcomeView),
}

impl View for TopScoreState {
    type V = TopStateView;

    open spec fn view(&self) -> TopStateView {
        match self {
            TopScoreState::CheckingExistence => TopStateView::CheckingExistence,
            TopScoreState::FetchingCount => TopStateView::FetchingCount,
            TopScoreState::FetchingList { count, count_raw } => (TopStateView::FetchingList {
                count: *count as int,
                count_raw: count_raw@,
            }),
            TopScoreState::Finished(o) => TopStateView::Finished(o@),
        }
    }
}

/// The outcome of the retried phase a non-terminal state asked for. An
/// error carries the final failure's text.
pub enum TopScoreEvent {
    Existence(Result<bool, String>),
    CountReply(Result<SolutionListReply, String>),
    ListReply(Result<SolutionListReply, String>),
}

/// The abstract value of a phase outcome.
pub ghost enum TopEventView {
    Existence(Result<bool, Seq<char>>),
    CountReply(Result<SolutionListReplyView, Seq<char>>),
    ListReply(Result<SolutionListReplyView, Seq<char>>),
}

impl View for TopScoreEvent {
    type V = TopEventView;

    open spec fn view(&self) -> TopEventView {
        match self {
            TopScoreEvent::Existence(r) => TopEventView::Existence(
                match r {
                    Ok(b) => Ok(*b),
                    Err(m) => Err(m@),
                },
            ),
            TopScoreEvent::CountReply(r) => TopEventView::CountReply(
                match r {
                    Ok(reply) => Ok(reply@),
                    Err(m) => Err(m@),
                },
            ),
            TopScoreEvent::ListReply(r) => TopEventView::ListReply(
                match r {
                    Ok(reply) => Ok(reply@),
                    Err(m) => Err(m@),
                },
            ),
        }
    }
}

/// One transition of the aggregation machine: a transport failure in any
/// phase is a diagnostic outcome; an absent problem, a zero count and the
/// five-way score verdict end the run; a usable count moves the run to the
/// full fetch. Mismatched pairs and the terminal state absorb the event.
pub open spec fn spec_top_score_step(s: TopStateView, e: TopEventView) -> TopStateView {
    match (s, e) {
        (TopStateView::CheckingExistence, TopEventView::Existence(r)) => match r {
            Ok(true) => TopStateView::FetchingCount,
            Ok(false) => TopStateView::Finished(TopOutcomeView::ProblemNotFound),
            Err(m) => TopStateView::Finished(TopOutcomeView::PageError(m)),
        },
        (TopStateView::FetchingCount, TopEventView::CountReply(r)) => match r {
            Err(m) => TopStateView::Finished(TopOutcomeView::PageError(m)),
            Ok(reply) => match reply.total {
                None => TopStateView::Finished(
                    TopOutcomeView::PageError(count_missing_message(reply.raw)),
                ),
                Some(n) => if n < 0 || n > u32::MAX {
                    TopStateView::Finished(TopOutcomeView::PageError(count_not_u32_message(n)))
                } else if n == 0 {
                    TopStateView::Finished(TopOutcomeView::NoSolution)
                } else {
                    TopStateView::FetchingList { count: n, count_raw: reply.raw }
                },
            },
        },
        (TopStateView::FetchingList { count, count_raw }, TopEventView::ListReply(r)) => match r {
            Err(m) => TopStateView::Finished(TopOutcomeView::PageError(m)),
            Ok(reply) => match reply.entries {
                None => TopStateView::Finished(
                    TopOutcomeView::PageError(list_not_array_message(count_raw)),
                ),
                Some(entries) => match spec_scores(entries) {
                    Err(f) => TopStateView::Finished(
                        TopOutcomeView::PageError(score_parse_message(entries, f)),
                    ),
                    Ok(scores) => if spec_has_perfect(scores) {
                        TopStateView::Finished(TopOutcomeView::PerfectSolution)
                    } else {
                        TopStateView::Finished(TopOutcomeView::ImperfectSolution)
                    },
                },
            },
        },
        (other, _) => other,
    }
}

/// Drives the aggregation machine one step.
pub fn top_score_step(state: TopScoreState, event: TopScoreEvent) -> (next: TopScoreState)
    ensures
        next@ == spec_top_score_step(state@, event@),
{
    match (state, event) {
        (TopScoreState::CheckingExistence, TopScoreEvent::Existence(r)) => match r {
            Ok(true) => TopScoreState::FetchingCount,
            Ok(false) => TopScoreState::Finished(TopSolutionResponseType::ProblemNotFound),
            Err(m) => TopScoreState::Finished(TopSolutionResponseType::PageError(m)),
        },
        (TopScoreState::FetchingCount, TopScoreEvent::CountReply(r)) => match r {
            Err(m) => TopScoreState::Finished(TopSolutionResponseType::PageError(m)),
            Ok(reply) => match reply.total {
                None => TopScoreState::Finished(
                    TopSolutionResponseType::PageError(
                        build_count_missing_message(reply.raw.as_str()),
                    ),
                ),
                Some(n) => {
                    if n < 0 || n > 4294967295i64 {
                        TopScoreState::Finished(
                            TopSolutionResponseType::PageError(build_count_not_u32_message(n)),
                        )
                    } else if n == 0 {
                        TopScoreState::Finished(TopSolutionResponseType::NoSolution)
                    } else {
                        TopScoreState::FetchingList { count: n as u32, count_raw: reply.raw }
                    }
                },
            },
        },
        (TopScoreState::FetchingList { count: _, count_raw }, TopScoreEvent::ListReply(r)) => match r {
            Err(m) => TopScoreState::Finished(TopSolutionResponseType::PageError(m)),
            Ok(reply) => match reply.entries {
                None => TopScoreState::Finished(
                    TopSolutionResponseType::PageError(
                        build_list_not_array_message(count_raw.as_str()),
                    ),
                ),
                Some(entries) => match compute_scores(&entries) {
                    Err(f) => TopScoreState::Finished(
                        TopSolutionResponseType::PageError(
                            build_score_parse_message(&entries, f),
                        ),
                    ),
                    Ok(scores) => {
                        if has_perfect_score(&scores) {
                            TopScoreState::Finished(TopSolutionResponseType::PerfectSolution)
                        } else {
                            TopScoreState::Finished(TopSolutionResponseType::ImperfectSolution)
                        }
                    },
                },
            },
        },
        (other, _) => other,
    }
}

/// The state after the machine consumes a sequence of phase outcomes.
pub open spec fn top_run(s: TopStateView, es: Seq<TopEventView>) -> TopStateView
    decreases es.len()
{
    if es.len() == 0 {
        s
    } else {
        top_run(spec_top_score_step(s, es[0]), es.drop_first())
    }
}

/// How many count probes a run answers: the count replies consumed while
/// the machine awaited the count.
pub open spec fn top_count_probes(s: TopStateView, es: Seq<TopEventView>) -> nat
    decreases es.len()
{
    if es.len() == 0 {
        0
    } else {
        (if s is FetchingCount && es[0] is CountReply {
            1nat
        } else {
            0nat
        }) + top_count_probes(spec_top_score_step(s, es[0]), es.drop_first())
    }
}

/// How many full-list fetches a run answers: the list replies consumed
/// while the machine awaited the list.
pub open spec fn top_list_fetches(s: TopStateView, es: Seq<TopEventView>) -> nat
    decreases es.len()
{
    if es.len() == 0 {
        0
    } else {
        (if s is FetchingList && es[0] is ListReply {
            1nat
        } else {
            0nat
        }) + top_list_fetches(spec_top_score_step(s, es[0]), es.drop_first())
    }
}

/// A finished aggregation absorbs every further event: the outcome stands
/// and no further submission-list operation is answered.
pub proof fn lemma_top_finished_absorbs(o: TopOutcomeView, es: Seq<TopEventView>)
    ensures
        top_run(TopStateView::Finished(o), es) == TopStateView::Finished(o),
        top_count_probes(TopStateView::Finished(o), es) == 0,
        top_list_fetches(TopStateView::Finished(o), es) == 0,
    decreases es.len(),
{
    if es.len() > 0 {
        lemma_top_finished_absorbs(o, es.drop_first());
    }
}

/// An existence check reporting the problem absent ends the aggregation as
/// `ProblemNotFound` with no submission-list operation of either kind,
/// whatever events follow.
pub proof fn lemma_top_problem_not_found(es: Seq<TopEventView>)
    requires
        es.len() >= 1,
        es[0] == TopEventView::Existence(Ok::<bool, Seq<char>>(false)),
    ensures
        top_run(TopStateView::CheckingExistence, es) == TopStateView::Finished(
            TopOutcomeView::ProblemNotFound,
        ),
        top_count_probes(TopStateView::CheckingExistence, es) == 0,
        top_list_fetches(TopStateView::CheckingExistence, es) == 0,
{
    lemma_top_finished_absorbs(TopOutcomeView::ProblemNotFound, es.drop_first());
}

/// A total count of zero ends the aggregation as `NoSolution` after exactly
/// one count probe and no full-list fetch, whatever events follow.
pub proof fn lemma_top_no_solution(reply: SolutionListReplyView, es: Seq<TopEventView>)
    requires
        es.len() >= 2,
        es[0] == TopEventView::Existence(Ok::<bool, Seq<char>>(true)),
        es[1] == TopEventView::CountReply(Ok::<SolutionListReplyView, Seq<char>>(reply)),
        reply.total == Some(0int),
    ensures
        top_run(TopStateView::CheckingExistence, es) == TopStateView::Finished(
            TopOutcomeView::NoSolution,
        ),
        top_count_probes(TopStateView::CheckingExistence, es) == 1,
        top_list_fetches(TopStateView::CheckingExistence, es) == 0,
{
    let s0 = TopStateView::CheckingExistence;
    let s1 = spec_top_score_step(s0, es[0]);
    let es1 = es.drop_first();
    assert(s1 == TopStateView::FetchingCount);
    assert(es1[0] == es[1]);
    let s2 = spec_top_score_step(s1, es1[0]);
    assert(s2 == TopStateView::Finished(TopOutcomeView::NoSolution));
    assert(top_run(s0, es) == top_run(s1, es1));
    assert(top_run(s1, es1) == top_run(s2, es1.drop_first()));
    assert(top_count_probes(s0, es) == top_count_probes(s1, es1));
    assert(top_count_probes(s1, es1) == 1 + top_count_probes(s2, es1.drop_first()));
    assert(top_list_fetches(s0, es) == top_list_fetches(s1, es1));
    assert(top_list_fetches(s1, es1) == top_list_fetches(s2, es1.drop_first()));
    lemma_top_finished_absorbs(TopOutcomeView::NoSolution, es1.drop_first());
}

} // verus!
