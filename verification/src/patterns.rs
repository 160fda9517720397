//! Regular expressions, compiled and run by the `regex` crate. What a match
//! gives is named after the pattern and the text, so that the rules that
//! use them state their results exactly in those terms.

use vstd::prelude::*;

use regex::Regex;

verus! {

#[verifier::external_type_specification]
#[verifier::external_body]
pub struct ExRegex(Regex);

#[verifier::external_type_specification]
#[verifier::external_body]
pub struct ExRegexError(regex::Error);

/// Whether `Regex::new` accepts the pattern: it is valid and its compiled
/// form fits the default size limit.
pub uninterp spec fn regex_valid(pattern: Seq<char>) -> bool;

/// Whether the regex compiled from `pattern` matches somewhere in
/// `haystack` (`Regex::is_match`).
pub uninterp spec fn regex_matches(pattern: Seq<char>, haystack: Seq<char>) -> bool;

/// `haystack` with every non-overlapping match of the regex compiled from
/// `pattern` replaced by `replacement` (`Regex::replace_all`).
pub uninterp spec fn regex_replaced(
    pattern: Seq<char>,
    haystack: Seq<char>,
    replacement: Seq<char>,
) -> Seq<char>;

/// The characters that have a meaning in a regex and are escaped.
pub open spec fn is_meta_character(c: char) -> bool {
    c == '\\' || c == '.' || c == '+' || c == '*' || c == '?' || c == '(' || c == ')' || c == '|'
        || c == '[' || c == ']' || c == '{' || c == '}' || c == '^' || c == '$' || c == '#' || c
        == '&' || c == '-' || c == '~'
}

/// `text` with a backslash before each meta character: a pattern that
/// matches `text` literally.
pub open spec fn spec_escape(text: Seq<char>) -> Seq<char>
    decreases text.len(),
{
    if text.len() == 0 {
        Seq::empty()
    } else {
        spec_escape(text.drop_last()) + if is_meta_character(text.last()) {
            seq!['\\', text.last()]
        } else {
            seq![text.last()]
        }
    }
}

/// `regex::escape`: a backslash before each meta character.
#[verifier::external_body]
pub(crate) fn regex_escape(text: &str) -> (r: String)
    ensures
        r@ == spec_escape(text@),
{
    regex::escape(text)
}

/// `Regex::new`: succeeds exactly on the patterns it accepts.
#[verifier::external_body]
fn regex_new(pattern: &str) -> (r: Result<Regex, regex::Error>)
    ensures
        r is Ok == regex_valid(pattern@),
{
    Regex::new(pattern)
}

/// A regex together with the pattern it was compiled from.
pub struct Pattern {
    source: String,
    regex: Regex,
}

/// A pattern that `Regex::new` refused.
#[derive(Debug, Clone, Copy, PartialEq, Eq, Structural)]
pub struct PatternError;

impl Pattern {
    /// The pattern the regex was compiled from.
    pub closed spec fn source(&self) -> Seq<char> {
        self.source@
    }

    /// Compiles `pattern`.
    pub fn new(pattern: &str) -> (r: Result<Pattern, PatternError>)
        ensures
            r is Ok == regex_valid(pattern@),
            r matches Ok(p) ==> p.source() == pattern@,
    {
        match regex_new(pattern) {
            Ok(regex) => Ok(Pattern { source: crate::text::to_string(pattern), regex }),
            Err(_) => Err(PatternError),
        }
    }

    /// Whether the regex matches somewhere in `haystack`.
    pub fn is_match(&self, haystack: &str) -> (r: bool)
        ensures
            r == regex_matches(self.source(), haystack@),
    {
        regex_is_match(self, haystack)
    }

    /// `haystack` with every match replaced by `replacement`.
    pub fn replace_all(&self, haystack: &str, replacement: &str) -> (r: String)
        ensures
            r@ == regex_replaced(self.source(), haystack@, replacement@),
    {
        regex_replace_all(self, haystack, replacement)
    }
}

/// `Regex::is_match` on the regex of a pattern. Its regex is the one that
/// `Regex::new` compiled from its source: `Pattern::new` is the only place
/// that builds a `Pattern`, and its fields are private.
#[verifier::external_body]
fn regex_is_match(pattern: &Pattern, haystack: &str) -> (r: bool)
    ensures
        r == regex_matches(pattern.source(), haystack@),
{
    pattern.regex.is_match(haystack)
}

/// `Regex::replace_all` on the regex of a pattern (see `regex_is_match` for
/// why its regex is the one compiled from its source).
#[verifier::external_body]
fn regex_replace_all(pattern: &Pattern, haystack: &str, replacement: &str) -> (r: String)
    ensures
        r@ == regex_replaced(pattern.source(), haystack@, replacement@),
{
    pattern.regex.replace_all(haystack, replacement).into_owned()
}

/// Whether the regex compiled from `pattern` matches somewhere in
/// `haystack`; `false` where the pattern does not compile.
pub fn pattern_matches(pattern: &str, haystack: &str) -> (r: bool)
    ensures
        r == (regex_valid(pattern@) && regex_matches(pattern@, haystack@)),
{
    match Pattern::new(pattern) {
        Ok(p) => p.is_match(haystack),
        Err(_) => false,
    }
}

} // verus!
