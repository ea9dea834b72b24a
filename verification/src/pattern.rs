//! Regular expressions, compiled and matched by the `regex` crate.
//!
//! Whether a pattern compiles and what it matches are functions of the pattern, its flags
//! and the text alone; they are named here rather than restated.
use vstd::prelude::*;

verus! {

#[verifier::external_type_specification]
#[verifier::external_body]
pub struct ExRegex(regex::Regex);

#[verifier::external_type_specification]
#[verifier::external_body]
pub struct ExRegexError(regex::Error);

/// Whether `regex` accepts `pattern` with these flags (`RegexBuilder::build` succeeds).
pub uninterp spec fn regex_compiles(pattern: Seq<char>, case_insensitive: bool, multi_line: bool) -> bool;

/// Whether `pattern`, compiled with these flags, matches somewhere in `text`
/// (`Regex::is_match`).
pub uninterp spec fn regex_matches(pattern: Seq<char>, case_insensitive: bool, multi_line: bool, text: Seq<char>) -> bool;

/// A compiled pattern together with the source and flags it was compiled from. Only
/// [`compile`] makes one, so the compiled form always belongs to the recorded source.
pub struct Pattern {
    source: String,
    case_insensitive: bool,
    multi_line: bool,
    compiled: regex::Regex,
}

impl Pattern {
    pub closed spec fn source(self) -> Seq<char> {
        self.source@
    }

    pub closed spec fn case_insensitive(self) -> bool {
        self.case_insensitive
    }

    pub closed spec fn multi_line(self) -> bool {
        self.multi_line
    }

    /// Whether the pattern matches somewhere in `text`.
    pub fn is_match(&self, text: &str) -> (r: bool)
        ensures
            r == regex_matches(self.source(), self.case_insensitive(), self.multi_line(), text@),
    {
        regex_is_match(self, text)
    }
}

/// `regex::RegexBuilder::new(pattern).case_insensitive(..).multi_line(..).build()`: it
/// succeeds exactly when the pattern compiles with those flags, and the result records the
/// source and flags it was built from.
#[verifier::external_body]
fn regex_build(pattern: &str, case_insensitive: bool, multi_line: bool) -> (r: Result<Pattern, regex::Error>)
    ensures
        r is Ok <==> regex_compiles(pattern@, case_insensitive, multi_line),
        r matches Ok(p) ==> p.source() == pattern@ && p.case_insensitive() == case_insensitive
            && p.multi_line() == multi_line,
{
    match regex::RegexBuilder::new(pattern).case_insensitive(case_insensitive).multi_line(multi_line).build() {
        Ok(compiled) => Ok(Pattern { source: pattern.to_string(), case_insensitive, multi_line, compiled }),
        Err(error) => Err(error),
    }
}

/// `Regex::is_match` on the compiled form of a [`Pattern`]: whether it matches somewhere in
/// `text`, which depends on the pattern's source, its flags and the text alone.
#[verifier::external_body]
fn regex_is_match(p: &Pattern, text: &str) -> (r: bool)
    ensures
        r == regex_matches(p.source(), p.case_insensitive(), p.multi_line(), text@),
{
    p.compiled.is_match(text)
}

/// The text of a `regex::Error` (its `Display`). What it says is not stated here.
#[verifier::external_body]
fn regex_error_text(error: &regex::Error) -> String {
    error.to_string()
}

/// Compiles `pattern` with the given flags, or says why it does not compile.
pub fn compile(pattern: &str, case_insensitive: bool, multi_line: bool) -> (r: Result<Pattern, String>)
    ensures
        r is Ok <==> regex_compiles(pattern@, case_insensitive, multi_line),
        r matches Ok(p) ==> p.source() == pattern@ && p.case_insensitive() == case_insensitive
            && p.multi_line() == multi_line,
{
    match regex_build(pattern, case_insensitive, multi_line) {
        Ok(p) => Ok(p),
        Err(error) => Err(regex_error_text(&error)),
    }
}

} // verus!
