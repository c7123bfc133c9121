use vstd::prelude::*;

use fuzzy_matcher::skim::SkimMatcherV2;
use fuzzy_matcher::FuzzyMatcher;

use crate::entry::MAX_SCORE;

verus! {

/// What the skim fuzzy matcher, in its default configuration, answers for
/// the candidate `choice` and the search `pattern`.
pub uninterp spec fn skim_score(choice: Seq<char>, pattern: Seq<char>) -> Option<i64>;

/// Relies on fuzzy_matcher's `SkimMatcherV2::fuzzy_match` with the default
/// configuration: its answer is a function of the two strings alone.
#[verifier::external_body]
fn skim_match(choice: &str, pattern: &Vec<char>) -> (r: Option<i64>)
    ensures
        r == skim_score(choice@, pattern@),
{
    let pattern: String = pattern.iter().collect();
    SkimMatcherV2::default().fuzzy_match(choice, &pattern)
}

/// The score kept for a matcher answer: the matcher's score, or -1 when
/// the name does not match at all.
pub open spec fn match_score(m: Option<i64>) -> i64 {
    match m {
        Some(s) => s,
        None => -1i64,
    }
}

/// The score of an entry named `name` under the search term `term`: the
/// largest score when no term is typed, else the matcher's verdict.
pub open spec fn term_score(term: Seq<char>, name: Seq<char>) -> i64 {
    if term.len() == 0 {
        MAX_SCORE
    } else {
        match_score(skim_score(name, term))
    }
}

/// Turns a matcher answer into a stored score.
pub fn score_of_match(m: Option<i64>) -> (r: i64)
    ensures
        r == match_score(m),
{
    match m {
        Some(s) => s,
        None => -1,
    }
}

/// Scores the name `name` against the search term `term`.
pub fn score(term: &Vec<char>, name: &str) -> (r: i64)
    ensures
        r == term_score(term@, name@),
{
    if term.len() == 0 {
        MAX_SCORE
    } else {
        score_of_match(skim_match(name, term))
    }
}

} // verus!
