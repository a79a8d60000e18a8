//! The ranking function behind the live filter: a fuzzy
//! subsequence-matching score from an outside matcher.

use vstd::prelude::*;
use fuzzy_matcher::FuzzyMatcher;
use fuzzy_matcher::skim::SkimMatcherV2;

verus! {

/// The score the skim matcher's default configuration gives a candidate
/// against a pattern; no score where the pattern is not a (smart-case)
/// subsequence of the candidate. A function of the two strings alone.
pub uninterp spec fn fuzzy_score(choice: Seq<char>, pattern: Seq<char>) -> Option<i64>;

/// Relies on fuzzy_matcher's SkimMatcherV2::default() and its
/// FuzzyMatcher::fuzzy_match: with the fixed default configuration the
/// score depends on the two strings alone, and an empty pattern matches
/// everything with score zero.
#[verifier::external_body]
pub(crate) fn fuzzy_match_score(choice: &str, pattern: &str) -> (r: Option<i64>)
    ensures
        r == fuzzy_score(choice@, pattern@),
        pattern@.len() == 0 ==> r == Option::Some(0i64),
{
    SkimMatcherV2::default().fuzzy_match(choice, pattern)
}

} // verus!
