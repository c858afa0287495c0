//! Row filtering by a regular expression over rendered cell text.

use vstd::prelude::*;

verus! {

#[verifier::external_type_specification]
#[verifier::external_body]
pub struct ExRegex(regex::Regex);

/// Whether `pattern` is a regular expression that compiles.
pub uninterp spec fn regex_valid(pattern: Seq<char>) -> bool;

/// Whether the regular expression `pattern` matches somewhere in `text`.
pub uninterp spec fn regex_matches(pattern: Seq<char>, text: Seq<char>) -> bool;

/// Relies on `regex::Regex::new`: compiles the pattern, or says why not.
#[verifier::external_body]
fn compile(pattern: &str) -> (r: Result<regex::Regex, String>)
    ensures
        r is Ok <==> regex_valid(pattern@),
{
    match regex::Regex::new(pattern) {
        Ok(re) => Ok(re),
        Err(e) => Err(e.to_string()),
    }
}

/// A compiled filter pattern, with the text it was compiled from.
pub struct Filter {
    pattern: String,
    compiled: regex::Regex,
}

impl Filter {
    /// The text the filter was compiled from.
    pub closed spec fn pattern(&self) -> Seq<char> {
        self.pattern@
    }

    /// Compiles a filter; fails exactly when the pattern is not valid.
    pub fn new(pattern: &str) -> (r: Result<Filter, String>)
        ensures
            r is Ok <==> regex_valid(pattern@),
            r matches Ok(f) ==> f.pattern() == pattern@,
    {
        match compile(pattern) {
            Ok(compiled) => Ok(Filter { pattern: String::from_str(pattern), compiled }),
            Err(e) => Err(e),
        }
    }

    /// Relies on `regex::Regex::is_match` on the expression compiled from
    /// `self.pattern()` (the only way a `Filter` is made).
    #[verifier::external_body]
    pub(crate) fn is_match(&self, text: &str) -> (r: bool)
        ensures
            r == regex_matches(self.pattern(), text@),
    {
        self.compiled.is_match(text)
    }
}

} // verus!
