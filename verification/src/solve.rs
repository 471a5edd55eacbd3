//! The solve flow's one decision: where a problem's solution text comes
//! from. A caller-supplied override wins, then the bundled dataset, and
//! only when both lack the problem is the remote fallback fetched. The
//! lookups and the fetch are the driver's business; the priority order is
//! decided here.

use vstd::prelude::*;

verus! {

/// The ways the solve flow can fail: the solution text could not be had, or
/// the upload of a found solution failed. Both carry the diagnostic text.
#[derive(Debug)]
pub enum SolveError {
    GetSolutionError { problem_id: String, err: String },
    UploadError { problem_id: String, err: String },
}

/// Where the solution text comes from.
#[derive(Debug)]
pub enum SolutionSource {
    FromOverride(String),
    FromBuiltin(String),
    FetchRemote,
}

/// Picks the solution text in priority order: the caller's override when it
/// holds one, else the bundled dataset's, else the remote fallback.
pub fn choose_solution_source(override_text: Option<String>, builtin_text: Option<String>) -> (r:
    SolutionSource)
    ensures
        (override_text matches Some(t) ==> r == SolutionSource::FromOverride(t)),
        override_text is None ==> (builtin_text matches Some(t) ==> r
            == SolutionSource::FromBuiltin(t)),
        override_text is None && builtin_text is None ==> r == SolutionSource::FetchRemote,
{
    match override_text {
        Some(t) => SolutionSource::FromOverride(t),
        None => match builtin_text {
            Some(t) => SolutionSource::FromBuiltin(t),
            None => SolutionSource::FetchRemote,
        },
    }
}

} // verus!
