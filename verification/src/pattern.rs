//! Regular expressions, as the `regex` crate matches them.
//!
//! What a pattern matches is not restated here. Each search is given a name,
//! and the functions of this module say that they return what the name
//! stands for; the rest of the library reasons from the names.

use regex::RegexBuilder;
use vstd::prelude::*;

verus! {

/// Whether `pattern` compiles as a regular expression under the two flags.
pub uninterp spec fn regex_valid(pattern: Seq<char>, multi_line: bool, crlf: bool) -> bool;

/// Whether `pattern`, compiled under the two flags, matches anywhere in
/// `text`; `None` where it does not compile.
pub uninterp spec fn regex_search(
    pattern: Seq<char>,
    multi_line: bool,
    crlf: bool,
    text: Seq<char>,
) -> Option<bool>;

/// The successive non-overlapping matches of `pattern`, compiled under the two
/// flags, in `text`. Each match is the list of its groups, the whole match
/// first, then the groups in the order of their opening parentheses; a group
/// that took no part in the match is `None`. `None` where the pattern does not
/// compile.
pub uninterp spec fn regex_captures(
    pattern: Seq<char>,
    multi_line: bool,
    crlf: bool,
    text: Seq<char>,
) -> Option<Seq<Seq<Option<Seq<char>>>>>;

/// One match: its groups, the whole match first.
pub type Capture = Vec<Option<String>>;

/// The groups of one match, as mathematical values.
pub open spec fn capture_view(c: Capture) -> Seq<Option<Seq<char>>> {
    Seq::new(
        c@.len(),
        |i: int|
            match c@[i] {
                Some(s) => Some(s@),
                None => None,
            },
    )
}

/// The matches of a list, as mathematical values.
pub open spec fn captures_view(cs: Seq<Capture>) -> Seq<Seq<Option<Seq<char>>>> {
    Seq::new(cs.len(), |i: int| capture_view(cs[i]))
}

/// Calls `regex::RegexBuilder::build` on `pattern` with `multi_line` and
/// `crlf` set as given, and says whether it succeeded. Trusted: the result is
/// `regex_valid` of the same arguments.
#[verifier::external_body]
pub(crate) fn regex_compiles(pattern: &str, multi_line: bool, crlf: bool) -> (ok: bool)
    ensures
        ok == regex_valid(pattern@, multi_line, crlf),
{
    RegexBuilder::new(pattern).multi_line(multi_line).crlf(crlf).build().is_ok()
}

/// Builds `pattern` as `regex_compiles` does and calls `regex::Regex::is_match`
/// on `text`. Trusted: the result is `regex_search` of the same arguments.
#[verifier::external_body]
pub(crate) fn regex_is_match(pattern: &str, multi_line: bool, crlf: bool, text: &str) -> (r:
    Option<bool>)
    ensures
        r == regex_search(pattern@, multi_line, crlf, text@),
{
    match RegexBuilder::new(pattern).multi_line(multi_line).crlf(crlf).build() {
        Ok(re) => Some(re.is_match(text)),
        Err(_) => None,
    }
}

/// Builds `pattern` as `regex_compiles` does, calls
/// `regex::Regex::captures_iter` on `text`, and copies out the text of every
/// group of every match (`regex::Captures::iter`, `regex::Match::as_str`).
/// Trusted: the result is `regex_captures` of the same arguments.
#[verifier::external_body]
pub(crate) fn regex_capture_all(pattern: &str, multi_line: bool, crlf: bool, text: &str) -> (r:
    Option<Vec<Capture>>)
    ensures
        match r {
            Some(cs) => regex_captures(pattern@, multi_line, crlf, text@) == Some(
                captures_view(cs@),
            ),
            None => regex_captures(pattern@, multi_line, crlf, text@) is None,
        },
{
    match RegexBuilder::new(pattern).multi_line(multi_line).crlf(crlf).build() {
        Ok(re) => Some(
            re.captures_iter(text).map(
                |c| c.iter().map(|g| g.map(|m| m.as_str().to_string())).collect(),
            ).collect(),
        ),
        Err(_) => None,
    }
}

} // verus!
