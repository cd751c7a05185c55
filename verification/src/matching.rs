//! Pattern matching through the `regex` and `globset` crates.
//!
//! Rules keep their patterns as text; a pattern is compiled where it is
//! checked or matched. What a pattern compiles to and what it matches is the
//! business of those crates, so their results are named here rather than
//! restated.

use vstd::prelude::*;

verus! {

/// What `regex::Regex::new` reports for a pattern: `None` when it compiles,
/// otherwise the text of its error.
pub uninterp spec fn regex_error(pattern: Seq<char>) -> Option<Seq<char>>;

/// Whether the compiled `pattern` matches somewhere in `text`, as
/// `regex::Regex::is_match` decides it.
pub uninterp spec fn regex_finds(pattern: Seq<char>, text: Seq<char>) -> bool;

/// What `globset` reports when a pattern is parsed by `Glob::new` and its
/// matcher is built by `GlobSetBuilder::build`: `None` when both succeed,
/// otherwise the text of the first error.
pub uninterp spec fn glob_error(pattern: Seq<char>) -> Option<Seq<char>>;

/// Whether the glob `pattern` matches `text`, as `globset::GlobSet::is_match`
/// decides it for the set holding that one glob.
pub uninterp spec fn glob_matches(pattern: Seq<char>, text: Seq<char>) -> bool;

/// Calls `regex::Regex::new` and reports whether the pattern compiles; the
/// outcome, error text included, is named [`regex_error`].
#[verifier::external_body]
pub(crate) fn check_regex(pattern: &str) -> (r: Result<(), String>)
    ensures
        match r {
            Ok(()) => regex_error(pattern@) is None,
            Err(m) => regex_error(pattern@) == Some(m@),
        },
{
    match regex::Regex::new(pattern) {
        Ok(_) => Ok(()),
        Err(err) => Err(err.to_string()),
    }
}

/// Calls `regex::Regex::is_match` on `pattern` compiled by `Regex::new`; the
/// answer is named [`regex_finds`]. A pattern that does not compile matches
/// nothing.
#[verifier::external_body]
pub(crate) fn regex_is_match(pattern: &str, text: &str) -> (r: bool)
    ensures
        r == regex_finds(pattern@, text@),
        r ==> regex_error(pattern@) is None,
{
    match regex::Regex::new(pattern) {
        Ok(re) => re.is_match(text),
        Err(_) => false,
    }
}

/// Calls `globset::Glob::new` and builds the one-glob set with
/// `GlobSetBuilder::build`, which reports (rather than panics on) a pattern
/// whose matcher is too large or too deeply nested; the outcome, error text
/// included, is named [`glob_error`].
#[verifier::external_body]
pub(crate) fn check_glob(pattern: &str) -> (r: Result<(), String>)
    ensures
        match r {
            Ok(()) => glob_error(pattern@) is None,
            Err(m) => glob_error(pattern@) == Some(m@),
        },
{
    match globset::Glob::new(pattern) {
        Ok(glob) => match globset::GlobSetBuilder::new().add(glob).build() {
            Ok(_) => Ok(()),
            Err(err) => Err(err.to_string()),
        },
        Err(err) => Err(err.to_string()),
    }
}

/// Calls `globset::GlobSet::is_match` on the one-glob set of `pattern`, built
/// as [`check_glob`] builds it; the answer is named [`glob_matches`]. A
/// pattern whose set cannot be built matches nothing.
#[verifier::external_body]
pub(crate) fn glob_is_match(pattern: &str, text: &str) -> (r: bool)
    ensures
        r == glob_matches(pattern@, text@),
        r ==> glob_error(pattern@) is None,
{
    match globset::Glob::new(pattern) {
        Ok(glob) => match globset::GlobSetBuilder::new().add(glob).build() {
            Ok(set) => set.is_match(text),
            Err(_) => false,
        },
        Err(_) => false,
    }
}

} // verus!
