//! Classifying one run of the external tool.
//!
//! The tool's exit code overloads two meanings: a failing exit with an empty
//! error stream is its way of saying "ran fine, found nothing", while a
//! failing exit with error text is a real failure. Only the latter reaches
//! the caller as an error; everything else becomes a (possibly empty) record
//! list.

use vstd::prelude::*;

use crate::parse::{parse_results, spec_results, MAX_RESULTS};
use crate::record::{SearchResult, SearchResultView};

verus! {

/// What a completed run stands for: the decoded records on a successful
/// exit, an empty list on a failing exit with silent error stream, and the
/// error text itself otherwise.
pub open spec fn spec_outcome(
    success: bool,
    stdout: Seq<char>,
    stderr: Seq<char>,
    pattern: Seq<char>,
    drive_letter: bool,
) -> Result<Seq<SearchResultView>, Seq<char>> {
    if success {
        Ok(spec_results(stdout, pattern, drive_letter))
    } else if stderr.len() > 0 {
        Err(stderr)
    } else {
        Ok(Seq::empty())
    }
}

/// Turns a completed run's exit status and captured streams into the
/// caller's answer: a record list or the error text verbatim.
pub fn interpret_output(
    success: bool,
    stdout: &str,
    stderr: &str,
    pattern: &str,
    drive_letter: bool,
) -> (r: Result<Vec<SearchResult>, String>)
    ensures
        (match r {
            Ok(v) => spec_outcome(success, stdout@, stderr@, pattern@, drive_letter) == Ok::<
                Seq<SearchResultView>,
                Seq<char>,
            >(v.deep_view()),
            Err(e) => spec_outcome(success, stdout@, stderr@, pattern@, drive_letter) == Err::<
                Seq<SearchResultView>,
                Seq<char>,
            >(e@),
        }),
        (r matches Ok(v) ==> v@.len() <= MAX_RESULTS),
{
    if success {
        Ok(parse_results(stdout, pattern, drive_letter))
    } else if !stderr.is_empty() {
        Err(String::from_str(stderr))
    } else {
        let empty: Vec<SearchResult> = Vec::new();
        proof {
            assert(empty.deep_view() =~= Seq::<SearchResultView>::empty());
        }
        Ok(empty)
    }
}

/// The pipeline decides identically on identical inputs: the outcome is a
/// function of the request and the captured run alone, so two calls with the
/// same pattern against the same tool output return the same answer.
pub proof fn lemma_outcome_deterministic(
    success: bool,
    stdout: Seq<char>,
    stderr: Seq<char>,
    pattern: Seq<char>,
    drive_letter: bool,
    r1: Result<Seq<SearchResultView>, Seq<char>>,
    r2: Result<Seq<SearchResultView>, Seq<char>>,
)
    requires
        r1 == spec_outcome(success, stdout, stderr, pattern, drive_letter),
        r2 == spec_outcome(success, stdout, stderr, pattern, drive_letter),
    ensures
        r1 == r2,
{
}

} // verus!
