//! Regular expressions, compiled and run by the `regex` crate.
use vstd::prelude::*;

verus! {

/// Whether `regex::Regex::new` accepts the pattern.
pub uninterp spec fn regex_compiles(pattern: Seq<char>) -> bool;

/// Whether `regex::Regex::is_match` finds the pattern in the text.
pub uninterp spec fn regex_matches(pattern: Seq<char>, text: Seq<char>) -> bool;

/// What `regex::Regex::replace_all` gives for a pattern, a text and a
/// replacement template.
pub uninterp spec fn regex_replacement(
    pattern: Seq<char>,
    text: Seq<char>,
    replacement: Seq<char>,
) -> Seq<char>;

/// Whether `regex::Regex::new` compiles the pattern. The contract names
/// the crate's decision.
#[verifier::external_body]
pub(crate) fn regex_is_valid(pattern: &str) -> (r: bool)
    ensures
        r == regex_compiles(pattern@),
{
    regex::Regex::new(pattern).is_ok()
}

/// Compiles `pattern` with `regex::Regex::new` and asks
/// `Regex::is_match` whether it occurs in `text`; a pattern that does not
/// compile matches nothing. The contract names the crate's answer.
#[verifier::external_body]
pub(crate) fn regex_is_match(pattern: &str, text: &str) -> (r: bool)
    ensures
        r == (regex_compiles(pattern@) && regex_matches(pattern@, text@)),
{
    match regex::Regex::new(pattern) {
        Ok(re) => re.is_match(text),
        Err(_) => false,
    }
}

/// Compiles `pattern` with `regex::Regex::new` and, when that succeeds,
/// replaces every match in `text` with `replacement` through
/// `Regex::replace_all`. The contract claims `None` exactly when the
/// pattern does not compile and names the replaced text otherwise.
#[verifier::external_body]
pub(crate) fn regex_replace_all(pattern: &str, text: &str, replacement: &str) -> (r: Option<
    String,
>)
    ensures
        r is Some <==> regex_compiles(pattern@),
        r matches Some(t) ==> t@ == regex_replacement(pattern@, text@, replacement@),
{
    match regex::Regex::new(pattern) {
        Ok(re) => Some(re.replace_all(text, replacement).into_owned()),
        Err(_) => None,
    }
}

} // verus!
