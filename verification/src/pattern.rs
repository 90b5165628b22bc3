//! Path patterns: regular expressions compiled once and matched against
//! resolved file paths.
use vstd::prelude::*;

verus! {

/// `regex::Regex`, a compiled regular expression. Nothing of its inside is
/// known here.
#[verifier::external_type_specification]
#[verifier::external_body]
pub struct ExRegex(regex::Regex);

/// `regex::Error`, the reason why a pattern did not compile. Nothing of its
/// inside is known here.
#[verifier::external_type_specification]
#[verifier::external_body]
pub struct ExRegexError(regex::Error);

/// Whether the text `pattern` compiles as a regular expression. This is
/// whether `regex::Regex::new` accepts it: its syntax is valid and the
/// compiled program stays within the size limit that the `regex` crate
/// sets by default. The syntax and the limit are that crate's and are not
/// restated here.
pub uninterp spec fn pattern_compiles(pattern: Seq<char>) -> bool;

/// Whether the regular expression written as `pattern` has a match anywhere
/// in `haystack`. This is the answer of `regex::Regex::is_match` for a regex
/// compiled from `pattern`; the regex syntax and its matching rules are the
/// `regex` crate's and are not restated here.
pub uninterp spec fn pattern_matches(pattern: Seq<char>, haystack: Seq<char>) -> bool;

/// A compiled path pattern together with the text it was compiled from.
/// Its view is that text.
#[derive(Debug)]
pub struct PathPattern {
    source: String,
    compiled: regex::Regex,
}

impl View for PathPattern {
    type V = Seq<char>;

    closed spec fn view(&self) -> Seq<char> {
        self.source@
    }
}

/// Calls `regex::Regex::new` and keeps the compiled regex together with
/// the text it was compiled from, so that the two cannot be paired in any
/// other way. It succeeds exactly on the patterns that [`pattern_compiles`]
/// names, and the result then stands for the text that was given; on
/// failure the compiler's error is handed on as it is.
#[verifier::external_body]
fn compile_regex(pattern: &str) -> (r: Result<PathPattern, regex::Error>)
    ensures
        r is Ok <==> pattern_compiles(pattern@),
        r matches Ok(p) ==> p@ == pattern@,
{
    match regex::Regex::new(pattern) {
        Ok(compiled) => Ok(PathPattern { source: pattern.to_owned(), compiled }),
        Err(error) => Err(error),
    }
}

/// Calls `regex::Regex::is_match` on the compiled form of `pattern`, which
/// [`compile_regex`] built from the pattern's text. The result is what
/// [`pattern_matches`] names for that text and `haystack`.
#[verifier::external_body]
fn regex_is_match(pattern: &PathPattern, haystack: &str) -> (b: bool)
    ensures
        b == pattern_matches(pattern@, haystack@),
{
    pattern.compiled.is_match(haystack)
}

/// Renders a `regex::Error` through its `Display` impl. The text is for
/// people; nothing is claimed about it.
#[verifier::external_body]
fn regex_error_message(error: &regex::Error) -> (message: String) {
    error.to_string()
}

impl PathPattern {
    /// Compiles `pattern`. It succeeds exactly on the patterns that
    /// compile, and the result then stands for exactly that text; on
    /// failure the error is the regex compiler's message.
    pub fn new(pattern: &str) -> (r: Result<PathPattern, String>)
        ensures
            r is Ok <==> pattern_compiles(pattern@),
            r matches Ok(p) ==> p@ == pattern@,
    {
        match compile_regex(pattern) {
            Ok(compiled) => Ok(compiled),
            Err(error) => Err(regex_error_message(&error)),
        }
    }

    /// The text this pattern was compiled from.
    pub fn as_str(&self) -> (s: &str)
        ensures
            s@ == self@,
    {
        self.source.as_str()
    }

    /// Whether the pattern has a match anywhere in `haystack`.
    pub fn is_match(&self, haystack: &str) -> (b: bool)
        ensures
            b == pattern_matches(self@, haystack@),
    {
        regex_is_match(self, haystack)
    }
}

} // verus!
