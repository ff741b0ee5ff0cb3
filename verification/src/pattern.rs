//! Case-insensitive regular expressions, compiled and matched by the `regex`
//! crate.
use vstd::prelude::*;
use regex::{Regex, RegexBuilder};

verus! {

#[verifier::external_type_specification]
#[verifier::external_body]
pub struct ExRegex(Regex);

/// Whether `regex` accepts `pattern`, compiled case-insensitively within a
/// compiled-program size of `size_limit` bytes.
pub uninterp spec fn ci_regex_builds(pattern: Seq<char>, size_limit: usize) -> bool;

/// Whether `pattern`, compiled case-insensitively, matches somewhere in `haystack`.
pub uninterp spec fn ci_regex_matches(pattern: Seq<char>, haystack: Seq<char>) -> bool;

/// The explanation `regex` gives (the `Display` text of its `Error`) when it
/// refuses `pattern` compiled case-insensitively within `size_limit` bytes.
pub uninterp spec fn ci_regex_error(pattern: Seq<char>, size_limit: usize) -> Seq<char>;

/// `RegexBuilder::build` with `case_insensitive(true)` and `size_limit(size_limit)`,
/// the error turned into its text. Claims that success, and the text of a
/// refusal, are decided by the pattern and the limit alone.
#[verifier::external_body]
fn build_ci(pattern: &str, size_limit: usize) -> (r: Result<Regex, String>)
    ensures
        r is Ok <==> ci_regex_builds(pattern@, size_limit),
        r matches Err(m) ==> m@ == ci_regex_error(pattern@, size_limit),
{
    match RegexBuilder::new(pattern).case_insensitive(true).size_limit(size_limit).build() {
        Ok(re) => Ok(re),
        Err(e) => Err(e.to_string()),
    }
}

/// The compiled-size limit `regex` uses when none is set.
pub const DEFAULT_SIZE_LIMIT: usize = 10485760;

/// A pattern the `regex` crate refused, with its explanation.
#[derive(Debug)]
pub struct PatternError {
    pub message: String,
}

/// A case-insensitive regular expression together with the pattern it was
/// compiled from.
pub struct CiRegex {
    re: Regex,
    source: Ghost<Seq<char>>,
}

impl View for CiRegex {
    type V = Seq<char>;

    /// The pattern the expression was compiled from.
    closed spec fn view(&self) -> Seq<char> {
        self.source@
    }
}

/// `Regex::is_match` on an expression built by `CiRegex::compile`, which compiled
/// `re@` case-insensitively; claims the result is the named match of that pattern.
#[verifier::external_body]
fn regex_is_match(re: &CiRegex, haystack: &str) -> (r: bool)
    ensures
        r == ci_regex_matches(re@, haystack@),
{
    re.re.is_match(haystack)
}

impl CiRegex {
    /// Compiles `pattern` to match without regard to case.
    pub fn compile(pattern: &str, size_limit: usize) -> (r: Result<CiRegex, PatternError>)
        ensures
            r is Ok <==> ci_regex_builds(pattern@, size_limit),
            r matches Ok(c) ==> c@ == pattern@,
            r matches Err(e) ==> e.message@ == ci_regex_error(pattern@, size_limit),
    {
        match build_ci(pattern, size_limit) {
            Ok(re) => Ok(CiRegex { re, source: Ghost(pattern@) }),
            Err(message) => Err(PatternError { message }),
        }
    }

    /// Whether the expression matches somewhere in `haystack`.
    pub fn is_match(&self, haystack: &str) -> (r: bool)
        ensures
            r == ci_regex_matches(self@, haystack@),
    {
        regex_is_match(self, haystack)
    }
}

} // verus!
