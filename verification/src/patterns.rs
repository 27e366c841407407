//! Regular expressions and wildcards.
use vstd::prelude::*;

verus! {

/// Whether a text is a regular expression, and not one that is too large.
pub uninterp spec fn regex_valid(pattern: Seq<char>) -> bool;

/// Whether a regular expression matches somewhere in a text.
pub uninterp spec fn regex_found(pattern: Seq<char>, haystack: Seq<char>) -> bool;

/// A text with a replacement for each match of a regular expression.
pub uninterp spec fn regex_replaced(
    pattern: Seq<char>,
    haystack: Seq<char>,
    replacement: Seq<char>,
) -> Seq<char>;

/// `regex::Regex::new`: whether it takes the pattern, which depends on the
/// pattern, and on how large the compiled pattern is. A pattern is refused where
/// that would go over a fixed number of bytes; the bytes are those of the layout
/// in memory, so of a pattern right at the limit it holds for one build of this
/// crate at a time.
#[verifier::external_body]
pub(crate) fn is_regex(pattern: &str) -> (r: bool)
    ensures
        r == regex_valid(pattern@),
{
    regex::Regex::new(pattern).is_ok()
}

/// `regex::Regex::is_match`, which depends on the pattern and on the text alone.
#[verifier::external_body]
pub(crate) fn regex_matches(pattern: &str, haystack: &str) -> (r: bool)
    requires
        regex_valid(pattern@),
    ensures
        r == regex_found(pattern@, haystack@),
{
    regex::Regex::new(pattern).unwrap().is_match(haystack)
}

/// `regex::Regex::replace_all`, which depends on the pattern, on the text and on
/// the replacement alone. Without a match the text is left as it is.
#[verifier::external_body]
pub(crate) fn regex_replace_all(pattern: &str, haystack: &str, replacement: &str) -> (r: String)
    requires
        regex_valid(pattern@),
    ensures
        r@ == regex_replaced(pattern@, haystack@, replacement@),
        !regex_found(pattern@, haystack@) ==> r@ == haystack@,
{
    regex::Regex::new(pattern).unwrap().replace_all(haystack, replacement).into_owned()
}

/// Whether a wildcard pattern matches a text. A text that is no pattern matches
/// nothing.
pub uninterp spec fn wildcard_matches(pattern: Seq<char>, s: Seq<char>) -> bool;

/// `glob::Pattern::new`, then `glob::Pattern::matches`. Whether a backslash
/// separates the parts of a path depends on the machine; without one the result
/// depends on the pattern and on the text alone.
#[verifier::external_body]
pub(crate) fn wildcard_match(pattern: &str, s: &str) -> (r: bool)
    ensures
        !pattern@.contains('\\') && !s@.contains('\\') ==> r == wildcard_matches(pattern@, s@),
{
    glob::Pattern::new(pattern).map_or(false, |p| p.matches(s))
}

} // verus!
