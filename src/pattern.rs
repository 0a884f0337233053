use vstd::prelude::*;

use regex::Regex;

use crate::result::WakuchinError;

verus! {

/// Whether `pattern` is a regular expression that compiles.
pub uninterp spec fn regex_compiles(pattern: Seq<char>) -> bool;

/// Whether the regular expression written `pattern` matches somewhere in `haystack`.
pub uninterp spec fn regex_matches(pattern: Seq<char>, haystack: Seq<char>) -> bool;

#[verifier::external_type_specification]
#[verifier::external_body]
pub struct ExRegex(regex::Regex);

#[verifier::external_type_specification]
#[verifier::external_body]
pub struct ExRegexError(regex::Error);

/// Relies on regex::Regex::new: whether a pattern compiles depends on its text alone.
#[verifier::external_body]
fn compile(pattern: &str) -> (r: Result<Regex, regex::Error>)
    ensures
        r.is_ok() == regex_compiles(pattern@),
{
    Regex::new(pattern)
}

/// A compiled pattern together with the text it was compiled from.
pub struct Pattern {
    source: String,
    regex: Regex,
}

impl Pattern {
    /// The text of the pattern.
    pub closed spec fn text(&self) -> Seq<char> {
        self.source@
    }

    /// Compiles `source`; fails with `InvalidPattern` exactly when it does not compile.
    pub fn new(source: String) -> (r: Result<Pattern, WakuchinError>)
        ensures
            r.is_ok() == regex_compiles(source@),
            r matches Ok(p) ==> p.text() == source@,
            r is Err ==> r == Err::<Pattern, WakuchinError>(WakuchinError::InvalidPattern),
    {
        match compile(source.as_str()) {
            Ok(regex) => Ok(Pattern { source, regex }),
            Err(_) => Err(WakuchinError::InvalidPattern),
        }
    }

    /// Whether the pattern matches `trial`.
    pub fn is_match(&self, trial: &str) -> (r: bool)
        ensures
            r == regex_matches(self.text(), trial@),
    {
        regex_is_match(self, trial)
    }
}

/// Relies on regex::Regex::is_match: the answer depends on the pattern's text
/// and the haystack alone. A `Pattern`'s regex is always compiled from its
/// `source`, which `Pattern::new` alone sets.
#[verifier::external_body]
fn regex_is_match(p: &Pattern, haystack: &str) -> (r: bool)
    ensures
        r == regex_matches(p.text(), haystack@),
{
    p.regex.is_match(haystack)
}

} // verus!
