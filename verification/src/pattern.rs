//! The boundary to the `regex` crate.
//!
//! Block extraction is a structural text scan: a regular expression finds
//! the blocks and its capture groups give their parts. What a regular
//! expression matches is not restated here. It is given two names, and the
//! one function of this module that runs the engine says that its result is
//! what the names stand for. Nothing in this module is proved.

use vstd::prelude::*;

verus! {

/// The error of `regex::Regex::new`, carried through as it comes.
#[verifier::external_type_specification]
#[verifier::external_body]
pub struct ExRegexError(regex::Error);

/// Whether `regex::Regex::new` accepts `pattern`, with the limits the crate
/// sets by default.
pub uninterp spec fn pattern_compiles(pattern: Seq<char>) -> bool;

/// What `regex::Regex::captures_iter` yields on `haystack` for the regular
/// expression compiled from `pattern`: the successive non-overlapping
/// matches, in the order in which they stand in `haystack`, and of each
/// match its capture groups by number, group 0 being the whole match. A
/// group holds the matched text, or `None` where it took no part in the
/// match.
pub uninterp spec fn pattern_captures(pattern: Seq<char>, haystack: Seq<char>) -> Seq<Seq<Option<Seq<char>>>>;

/// Compiles `pattern` with `regex::Regex::new` and walks `haystack` with
/// `regex::Regex::captures_iter`, copying the text of every group of every
/// match (`regex::Captures::iter`, `regex::Match::as_str`).
///
/// Trusted: that the call succeeds exactly where the pattern compiles, and
/// that the matches handed back are those the engine finds, which
/// [`pattern_captures`] names. Both depend on the two arguments alone.
#[verifier::external_body]
pub(crate) fn captures_in(pattern: &str, haystack: &str) -> (r: Result<Vec<Vec<Option<String>>>, regex::Error>)
    ensures
        r is Ok <==> pattern_compiles(pattern@),
        r matches Ok(found) ==> found.deep_view() == pattern_captures(pattern@, haystack@),
{
    let compiled = regex::Regex::new(pattern)?;
    Ok(
        compiled.captures_iter(haystack).map(
            |found| found.iter().map(|group| group.map(|m| m.as_str().to_string())).collect(),
        ).collect(),
    )
}

} // verus!
