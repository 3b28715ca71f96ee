//! Matching typed text against an expected message, literally or as a
//! regular expression of the `regex` crate.

use vstd::prelude::*;
use crate::text::str_eq;

verus! {

/// The `regex` crate's compiled regular expression.
#[verifier::external_type_specification]
#[verifier::external_body]
pub struct ExRegex(regex::Regex);

/// The `regex` crate's compilation error.
#[verifier::external_type_specification]
#[verifier::external_body]
pub struct ExRegexError(regex::Error);

/// Whether `regex::Regex::new` accepts a pattern: its syntax is valid and
/// its compiled form stays under the crate's default size limit.
pub uninterp spec fn regex_compiles(pattern: Seq<char>) -> bool;

/// Whether the regular expression compiled from `pattern` matches somewhere
/// in `text`, as `regex::Regex::is_match` reports it.
pub uninterp spec fn regex_finds(pattern: Seq<char>, text: Seq<char>) -> bool;

/// Compiles a pattern.
///
/// Trusted: calls `regex::Regex::new`, whose success depends on the pattern
/// alone; the contract names that outcome `regex_compiles`.
#[verifier::external_body]
fn compile_regex(pattern: &str) -> (r: Result<regex::Regex, regex::Error>)
    ensures
        r.is_ok() == regex_compiles(pattern@),
{
    regex::Regex::new(pattern)
}

/// A compiled regular expression together with the pattern it was compiled
/// from. Only [`Pattern::compile`] builds one, so `re` is always the
/// compilation of `source`.
pub struct Pattern {
    re: regex::Regex,
    source: String,
}

/// Whether a compiled pattern matches somewhere in a text.
///
/// Trusted: calls `regex::Regex::is_match` on the pattern's compiled form,
/// which [`Pattern::compile`] made from `source`; the contract names the
/// outcome `regex_finds` of the source and the text.
#[verifier::external_body]
fn pattern_finds(p: &Pattern, text: &str) -> (r: bool)
    ensures
        r == regex_finds(p.source(), text@),
{
    p.re.is_match(text)
}

impl Pattern {
    /// The pattern text this was compiled from.
    pub closed spec fn source(&self) -> Seq<char> {
        self.source@
    }

    /// Compiles `pattern`; `None` when the `regex` crate refuses it.
    pub fn compile(pattern: &str) -> (r: Option<Pattern>)
        ensures
            r.is_some() == regex_compiles(pattern@),
            r matches Some(p) ==> p.source() == pattern@,
    {
        match compile_regex(pattern) {
            Ok(re) => Some(Pattern { re, source: String::from_str(pattern) }),
            Err(_) => None,
        }
    }

    /// Whether this pattern matches somewhere in `text`.
    pub fn finds(&self, text: &str) -> (r: bool)
        ensures
            r == regex_finds(self.source(), text@),
    {
        pattern_finds(self, text)
    }
}

/// Whether typed text satisfies the expected message: equal to it, or, as
/// a regular expression, a pattern that compiles and matches somewhere in
/// the text (a pattern that does not compile matches nothing).
pub open spec fn input_matches_spec(expected: Seq<char>, input: Seq<char>, use_regex: bool) -> bool {
    if use_regex {
        regex_compiles(expected) && regex_finds(expected, input)
    } else {
        input == expected
    }
}

/// Whether typed text satisfies the expected message.
pub fn input_matches(expected: &str, input: &str, use_regex: bool) -> (r: bool)
    ensures
        r == input_matches_spec(expected@, input@, use_regex),
{
    if use_regex {
        match Pattern::compile(expected) {
            Some(p) => p.finds(input),
            None => false,
        }
    } else {
        str_eq(input, expected)
    }
}

} // verus!
