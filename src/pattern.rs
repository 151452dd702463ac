//! Regular expressions through the `regex` crate.
use vstd::prelude::*;
use crate::error::PolyError;
use crate::text::copy_text;

verus! {

#[verifier::external_type_specification]
#[verifier::external_body]
pub struct ExRegex(regex::Regex);

#[verifier::external_type_specification]
#[verifier::external_body]
pub struct ExRegexError(regex::Error);

/// Whether `pattern` is a regular expression that the `regex` crate accepts.
pub uninterp spec fn regex_compiles(pattern: Seq<char>) -> bool;

/// Whether `pattern` matches somewhere in `text`.
pub uninterp spec fn regex_is_match(pattern: Seq<char>, text: Seq<char>) -> bool;

/// The texts of the successive non-overlapping matches of `pattern` in `text`.
pub uninterp spec fn regex_matches(pattern: Seq<char>, text: Seq<char>) -> Seq<Seq<char>>;

/// A compiled regular expression and the pattern it was compiled from.
pub struct Pattern {
    re: regex::Regex,
    source: Ghost<Seq<char>>,
}

impl View for Pattern {
    type V = Seq<char>;

    closed spec fn view(&self) -> Seq<char> {
        self.source@
    }
}

/// Relies on regex::Regex::new: it succeeds exactly on the patterns the crate accepts.
#[verifier::external_body]
fn regex_new(pattern: &str) -> (r: Result<regex::Regex, regex::Error>)
    ensures
        r is Ok <==> regex_compiles(pattern@),
{
    regex::Regex::new(pattern)
}

/// Relies on regex::Error's `Display`: the error message.
#[verifier::external_body]
fn regex_error_text(e: &regex::Error) -> String {
    e.to_string()
}

/// Relies on regex::Regex::is_match: whether the pattern matches anywhere in `text`.
#[verifier::external_body]
fn regex_find_any(p: &Pattern, text: &str) -> (r: bool)
    ensures
        r == regex_is_match(p@, text@),
{
    p.re.is_match(text)
}

/// Relies on regex::Regex::find_iter: the successive non-overlapping matches, as text.
#[verifier::external_body]
fn regex_find_all(p: &Pattern, text: &str) -> (r: Vec<String>)
    ensures
        r@.map_values(|s: String| s@) == regex_matches(p@, text@),
{
    p.re.find_iter(text).map(|m| m.as_str().to_string()).collect()
}

impl Pattern {
    /// Compiles `pattern`; one that does not compile is an error.
    pub fn compile(pattern: &str) -> (r: Result<Pattern, PolyError>)
        ensures
            r is Ok <==> regex_compiles(pattern@),
            r is Ok ==> r->Ok_0@ == pattern@,
            r is Err ==> r->Err_0 is InvalidPattern,
    {
        match regex_new(pattern) {
            Ok(re) => Ok(Pattern { re, source: Ghost(pattern@) }),
            Err(e) => Err(PolyError::InvalidPattern { pattern: copy_text(pattern), detail: regex_error_text(&e) }),
        }
    }

    pub fn is_match(&self, text: &str) -> (r: bool)
        ensures
            r == regex_is_match(self@, text@),
    {
        regex_find_any(self, text)
    }

    pub fn find_all(&self, text: &str) -> (r: Vec<String>)
        ensures
            r@.map_values(|s: String| s@) == regex_matches(self@, text@),
    {
        regex_find_all(self, text)
    }
}

} // verus!
