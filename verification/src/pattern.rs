//! Regular-expression matching, done by the `regex` crate.
//!
//! What a regular expression matches is not written out here: each result is
//! a name for what `regex` computes from the pattern and the text.

use regex::Regex;
use vstd::prelude::*;

verus! {

/// Whether `regex::Regex::new` accepts the pattern.
pub uninterp spec fn regex_compiles(pattern: Seq<char>) -> bool;

/// What `Regex::replace_all` gives for the compiled pattern, the text and
/// the replacement.
pub uninterp spec fn regex_replace_all_result(
    pattern: Seq<char>,
    haystack: Seq<char>,
    replacement: Seq<char>,
) -> Seq<char>;

/// The capture groups of the leftmost-first match that `Regex::captures`
/// finds (`None` when there is no match); each group is `None` when it took
/// no part in the match.
pub uninterp spec fn regex_first_captures(pattern: Seq<char>, haystack: Seq<char>) -> Option<
    Seq<Option<Seq<char>>>,
>;

/// The capture groups of each successive non-overlapping match that
/// `Regex::captures_iter` yields.
pub uninterp spec fn regex_all_captures(pattern: Seq<char>, haystack: Seq<char>) -> Seq<
    Seq<Option<Seq<char>>>,
>;

/// Whether `pattern` compiles (`regex::Regex::new(pattern).is_ok()`).
#[verifier::external_body]
pub fn regex_is_valid(pattern: &str) -> (r: bool)
    ensures
        r == regex_compiles(pattern@),
{
    Regex::new(pattern).is_ok()
}

/// Compiles `pattern` with `Regex::new` and, when it compiles, returns
/// `Regex::replace_all(haystack, replacement)`; `None` when it does not
/// compile. The contract names the result and claims nothing more of it.
#[verifier::external_body]
pub fn regex_replace_all(pattern: &str, haystack: &str, replacement: &str) -> (r: Option<String>)
    ensures
        r is Some == regex_compiles(pattern@),
        r matches Some(s) ==> s@ == regex_replace_all_result(pattern@, haystack@, replacement@),
{
    match Regex::new(pattern) {
        Ok(re) => Some(re.replace_all(haystack, replacement).into_owned()),
        Err(_) => None,
    }
}

/// Compiles `pattern` with `Regex::new` and, when it compiles, returns the
/// groups of `Regex::captures(haystack)` as owned texts; `None` when it does
/// not compile. The contract names the result and claims nothing more of it.
#[verifier::external_body]
pub fn regex_captures(pattern: &str, haystack: &str) -> (r: Option<Option<Vec<Option<String>>>>)
    ensures
        r is Some == regex_compiles(pattern@),
        r matches Some(c) ==> c.deep_view() == regex_first_captures(pattern@, haystack@),
{
    match Regex::new(pattern) {
        Ok(re) => Some(
            re.captures(haystack).map(
                |c| c.iter().map(|m| m.map(|m| m.as_str().to_string())).collect(),
            ),
        ),
        Err(_) => None,
    }
}

/// Compiles `pattern` with `Regex::new` and, when it compiles, returns the
/// groups of every match of `Regex::captures_iter(haystack)` as owned texts;
/// `None` when it does not compile. The contract names the result and claims
/// nothing more of it.
#[verifier::external_body]
pub fn regex_captures_all(pattern: &str, haystack: &str) -> (r: Option<Vec<Vec<Option<String>>>>)
    ensures
        r is Some == regex_compiles(pattern@),
        r matches Some(all) ==> all.deep_view() == regex_all_captures(pattern@, haystack@),
{
    match Regex::new(pattern) {
        Ok(re) => Some(
            re.captures_iter(haystack).map(
                |c| c.iter().map(|m| m.map(|m| m.as_str().to_string())).collect(),
            ).collect(),
        ),
        Err(_) => None,
    }
}

/// Group `i` of a match's groups, when present.
pub open spec fn group(groups: Seq<Option<Seq<char>>>, i: int) -> Option<Seq<char>> {
    if 0 <= i < groups.len() {
        groups[i]
    } else {
        None
    }
}

/// Group `i` of a match's groups, or the empty text when it is absent.
pub open spec fn group_or_empty(groups: Seq<Option<Seq<char>>>, i: int) -> Seq<char> {
    match group(groups, i) {
        Some(t) => t,
        None => Seq::<char>::empty(),
    }
}

/// Group `i` of a match, when present.
pub fn get_group(groups: &Vec<Option<String>>, i: usize) -> (r: Option<String>)
    ensures
        match r {
            Some(t) => group(groups.deep_view(), i as int) == Some(t@),
            None => group(groups.deep_view(), i as int) is None,
        },
{
    if i < groups.len() {
        match &groups[i] {
            Some(t) => Some(t.clone()),
            None => None,
        }
    } else {
        None
    }
}

/// Group `i` of a match, or the empty text when it is absent.
pub fn get_group_or_empty(groups: &Vec<Option<String>>, i: usize) -> (r: String)
    ensures
        r@ == group_or_empty(groups.deep_view(), i as int),
{
    match get_group(groups, i) {
        Some(t) => t,
        None => String::new(),
    }
}

} // verus!
