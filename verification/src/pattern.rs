//! Regular expressions from the `regex` crate, held together with the
//! pattern text they were compiled from.
//!
//! What a regular expression matches is named here, not spelled out:
//! `regex_is_match`, `regex_find_all`, `regex_find_first` and
//! `regex_replace_all` stand for the `regex` crate's answers, and are
//! functions of the pattern text and the haystack alone.

use vstd::prelude::*;

use regex::Regex;

verus! {

#[verifier::external_type_specification]
#[verifier::external_body]
pub struct ExRegex(regex::Regex);

#[verifier::external_type_specification]
#[verifier::external_body]
pub struct ExRegexError(regex::Error);

/// Whether `regex::Regex::new` accepts the pattern.
pub uninterp spec fn regex_compiles(pattern: Seq<char>) -> bool;

/// `Regex::is_match`: the pattern matches somewhere in the text.
pub uninterp spec fn regex_is_match(pattern: Seq<char>, text: Seq<char>) -> bool;

/// `Regex::find_iter`: the texts of the successive non-overlapping matches.
pub uninterp spec fn regex_find_all(pattern: Seq<char>, text: Seq<char>) -> Seq<Seq<char>>;

/// `Regex::find`: the text of the leftmost-first match, if any.
pub uninterp spec fn regex_find_first(pattern: Seq<char>, text: Seq<char>) -> Option<Seq<char>>;

/// `Regex::replace_all` with a replacement template.
pub uninterp spec fn regex_replace_all(
    pattern: Seq<char>,
    text: Seq<char>,
    template: Seq<char>,
) -> Seq<char>;

/// A compiled regular expression and the pattern text it came from.
pub struct Pattern {
    source: String,
    compiled: Regex,
}

/// A pattern that `regex` refused to compile.
#[derive(Debug, Clone, PartialEq, Eq)]
pub struct PatternError {
    pub pattern: String,
}

impl Pattern {
    pub closed spec fn source(&self) -> Seq<char> {
        self.source@
    }
}

/// `regex::Regex::new`: compiles `source`; succeeds exactly on the patterns
/// that `regex` accepts.
#[verifier::external_body]
fn compile_regex(source: &str) -> (r: Result<Pattern, regex::Error>)
    ensures
        r is Ok <==> regex_compiles(source@),
        r matches Ok(p) ==> p.source() == source@,
{
    match Regex::new(source) {
        Ok(compiled) => Ok(Pattern { source: source.to_string(), compiled }),
        Err(e) => Err(e),
    }
}

/// Compiles a pattern; fails exactly when `regex` refuses it.
pub fn compile(source: &str) -> (r: Result<Pattern, PatternError>)
    ensures
        r is Ok <==> regex_compiles(source@),
        r matches Ok(p) ==> p.source() == source@,
        r matches Err(e) ==> e.pattern@ == source@,
{
    match compile_regex(source) {
        Ok(p) => Ok(p),
        Err(_) => Err(PatternError { pattern: source.to_owned() }),
    }
}

/// `Regex::is_match` on the compiled form of `p.source()`.
#[verifier::external_body]
pub(crate) fn is_match(p: &Pattern, text: &str) -> (r: bool)
    ensures
        r == regex_is_match(p.source(), text@),
{
    p.compiled.is_match(text)
}

/// `Regex::find_iter`, each match taken as an owned string.
#[verifier::external_body]
pub(crate) fn find_all(p: &Pattern, text: &str) -> (r: Vec<String>)
    ensures
        r@.map_values(|s: String| s@) == regex_find_all(p.source(), text@),
{
    p.compiled.find_iter(text).map(|m| m.as_str().to_string()).collect()
}

/// `Regex::find`, the match taken as an owned string.
#[verifier::external_body]
pub(crate) fn find_first(p: &Pattern, text: &str) -> (r: Option<String>)
    ensures
        r matches Some(s) ==> regex_find_first(p.source(), text@) == Some(s@),
        r is None ==> regex_find_first(p.source(), text@) is None,
{
    p.compiled.find(text).map(|m| m.as_str().to_string())
}

/// `Regex::replace_all` with the replacement template `template`.
#[verifier::external_body]
pub(crate) fn replace_all(p: &Pattern, text: &str, template: &str) -> (r: String)
    ensures
        r@ == regex_replace_all(p.source(), text@, template@),
{
    p.compiled.replace_all(text, template).into_owned()
}

} // verus!
