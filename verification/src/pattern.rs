//! Regular expressions, matched by the `regex` crate.
//!
//! Nothing here is proved about what a pattern matches: each search has a
//! name, a function of the pattern and of the text searched, and the contracts
//! of the callers speak of that name.
use vstd::prelude::*;

verus! {

/// What `Regex::captures_iter` yields for `pattern` on `haystack`: one entry for
/// each match, from left to right, each with the text of every capture group
/// (the whole match first), `None` for a group that took no part. `None` where
/// `pattern` does not compile.
pub uninterp spec fn regex_captures_iter(pattern: Seq<char>, haystack: Seq<char>) -> Option<
    Seq<Seq<Option<Seq<char>>>>,
>;

/// What `Regex::captures` yields for `pattern` on `haystack`: the capture
/// groups of the leftmost match, or `Some(None)` where there is no match. `None`
/// where `pattern` does not compile.
pub uninterp spec fn regex_captures(pattern: Seq<char>, haystack: Seq<char>) -> Option<
    Option<Seq<Option<Seq<char>>>>,
>;

/// What `Regex::is_match` answers for `pattern` on `haystack`. `None` where
/// `pattern` does not compile.
pub uninterp spec fn regex_is_match(pattern: Seq<char>, haystack: Seq<char>) -> Option<bool>;

/// Compiles `pattern` with `regex::Regex::new` and runs `Regex::captures_iter`
/// on `haystack`, copying out the text of each group of each match. The
/// contract only names the result.
#[verifier::external_body]
pub(crate) fn captures_iter(pattern: &str, haystack: &str) -> (res: Option<
    Vec<Vec<Option<String>>>,
>)
    ensures
        res.deep_view() == regex_captures_iter(pattern@, haystack@),
{
    let re = regex::Regex::new(pattern).ok()?;
    Some(
        re.captures_iter(haystack).map(
            |c| c.iter().map(|g| g.map(|m| m.as_str().to_string())).collect(),
        ).collect(),
    )
}

/// Compiles `pattern` with `regex::Regex::new` and runs `Regex::captures` on
/// `haystack`, copying out the text of each group of the match. The contract
/// only names the result.
#[verifier::external_body]
pub(crate) fn captures(pattern: &str, haystack: &str) -> (res: Option<Option<Vec<Option<String>>>>)
    ensures
        res.deep_view() == regex_captures(pattern@, haystack@),
{
    let re = regex::Regex::new(pattern).ok()?;
    Some(
        re.captures(haystack).map(
            |c| c.iter().map(|g| g.map(|m| m.as_str().to_string())).collect(),
        ),
    )
}

/// Compiles `pattern` with `regex::Regex::new` and asks `Regex::is_match`
/// about `haystack`. The contract only names the result.
#[verifier::external_body]
pub(crate) fn is_match(pattern: &str, haystack: &str) -> (res: Option<bool>)
    ensures
        res == regex_is_match(pattern@, haystack@),
{
    let re = regex::Regex::new(pattern).ok()?;
    Some(re.is_match(haystack))
}

} // verus!
