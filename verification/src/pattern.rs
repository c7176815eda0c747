//! Compiled regular expressions, as used by body checks and the HAR filter.
//!
//! Compilation and matching are done by `regex_lite`; what they return is
//! named here as a function of the pattern text and the haystack.
use vstd::prelude::*;

verus! {

#[verifier::external_type_specification]
#[verifier::external_body]
pub struct ExRegex(regex_lite::Regex);

/// `Clone` for a compiled regex; nothing is stated of the copy, which is
/// only carried along with the text it was compiled from.
pub assume_specification[ <regex_lite::Regex as Clone>::clone ](r: &regex_lite::Regex) -> regex_lite::Regex;

/// The message of the error that `regex_lite::Regex::new` reports for
/// `pattern`, or `None` when the pattern compiles.
pub uninterp spec fn regex_compile_error(pattern: Seq<char>) -> Option<Seq<char>>;

/// Whether the regex compiled from `pattern` matches somewhere in `hay`.
pub uninterp spec fn regex_is_match(pattern: Seq<char>, hay: Seq<char>) -> bool;

/// A regular expression together with the text it was compiled from.
///
/// Values are only made by `Pattern::compile`, so `regex` is always the
/// compilation of `source`.
#[derive(Debug, Clone)]
pub struct Pattern {
    source: String,
    regex: regex_lite::Regex,
}

impl Pattern {
    /// The pattern text.
    pub closed spec fn source_view(&self) -> Seq<char> {
        self.source@
    }

    /// Compiles `source` with `regex_lite::Regex::new`.
    ///
    /// Trusted: the call fails exactly when `regex_compile_error` names a
    /// message for the text, and then reports that message (the error's
    /// `Display`); on success the compiled regex is kept beside its source.
    #[verifier::external_body]
    pub(crate) fn compile(source: &str) -> (r: Result<Pattern, String>)
        ensures
            match regex_compile_error(source@) {
                None => r matches Ok(p) && p.source_view() == source@,
                Some(msg) => r matches Err(e) && e@ == msg,
            },
    {
        match regex_lite::Regex::new(source) {
            Ok(regex) => Ok(Pattern { source: source.to_string(), regex }),
            Err(e) => Err(e.to_string()),
        }
    }

    /// Calls `regex_lite::Regex::is_match` on `hay`.
    ///
    /// Trusted: the result is named `regex_is_match` of the source text and
    /// the haystack.
    #[verifier::external_body]
    pub(crate) fn is_match(&self, hay: &str) -> (b: bool)
        ensures
            b == regex_is_match(self.source_view(), hay@),
    {
        self.regex.is_match(hay)
    }

    /// The pattern text.
    pub fn as_str(&self) -> (s: &str)
        ensures
            s@ == self.source_view(),
    {
        self.source.as_str()
    }
}

} // verus!
