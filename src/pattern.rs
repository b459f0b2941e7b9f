//! A compiled regular expression that keeps the text it was built from.

use vstd::prelude::*;
use regex::Regex;

verus! {

#[verifier::external_type_specification]
#[verifier::external_body]
pub struct ExRegex(Regex);

#[verifier::external_type_specification]
#[verifier::external_body]
pub struct ExRegexError(regex::Error);

/// Whether `regex` accepts `pattern` as a regular expression it can build.
pub uninterp spec fn regex_compiles(pattern: Seq<char>) -> bool;

/// The text that a regex built from `pattern` finds first in `hay`, if any.
pub uninterp spec fn find_of(pattern: Seq<char>, hay: Seq<char>) -> Option<Seq<char>>;

/// A regex together with its source text. Only `compile` makes one, so the
/// regex is always the one built from the source.
#[derive(Debug)]
pub struct Pattern {
    source: String,
    regex: Regex,
}

impl Pattern {
    /// The text the regex was built from.
    pub closed spec fn source(&self) -> Seq<char> {
        self.source@
    }

    /// Relies on regex::Regex::new: it builds a regex from `source`, or
    /// reports an error; which of the two depends on the text alone.
    #[verifier::external_body]
    pub fn compile(source: &str) -> (r: Result<Pattern, regex::Error>)
        ensures
            r is Ok <==> regex_compiles(source@),
            r matches Ok(p) ==> p.source() == source@,
    {
        Regex::new(source).map(|regex| Pattern { source: source.to_string(), regex })
    }

    /// Relies on regex::Regex::find, with `Match::as_str`, over the text made
    /// of `hay`: what a regex finds depends on its source text and the
    /// haystack alone (a regex built by `Regex::new`, default settings).
    #[verifier::external_body]
    pub fn find(&self, hay: &Vec<char>) -> (r: Option<Vec<char>>)
        ensures
            r is None <==> find_of(self.source(), hay@) is None,
            r matches Some(m) ==> find_of(self.source(), hay@) == Some(m@),
    {
        let text: String = hay.iter().collect();
        self.regex.find(&text).map(|m| m.as_str().chars().collect())
    }
}

} // verus!
