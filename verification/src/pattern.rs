//! Regular-expression matching of package names, as used by the cache's
//! listing operation. Whether a pattern compiles and whether a name
//! matches it are decided by the regex crate; the spec functions
//! [`valid_regex`] and [`regex_match`] name those decisions.

use vstd::prelude::*;

verus! {

/// Whether `pattern` compiles as a regular expression. The result depends
/// on the pattern text alone.
pub uninterp spec fn valid_regex(pattern: Seq<char>) -> bool;

/// Whether `text` matches the regular expression `pattern`. The result
/// depends on the two texts alone.
pub uninterp spec fn regex_match(pattern: Seq<char>, text: Seq<char>) -> bool;

/// Relies on regex::Regex::new: whether a pattern compiles depends on the
/// pattern text alone.
#[verifier::external_body]
pub(crate) fn regex_compiles(pattern: &str) -> (r: bool)
    ensures
        r == valid_regex(pattern@),
{
    regex::Regex::new(pattern).is_ok()
}

/// Relies on regex::Regex::new and regex::Regex::is_match: whether a text
/// matches a compilable pattern depends on the two texts alone.
#[verifier::external_body]
pub(crate) fn regex_is_match(pattern: &str, text: &str) -> (r: bool)
    requires
        valid_regex(pattern@),
    ensures
        r == regex_match(pattern@, text@),
{
    match regex::Regex::new(pattern) {
        Ok(re) => re.is_match(text),
        Err(_) => false,
    }
}

} // verus!
