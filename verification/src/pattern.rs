//! The matching pattern at its boundary: a compiled regular expression,
//! held together with the text it was compiled from, so that contracts
//! can speak of matching as a function of that text.

use vstd::prelude::*;

verus! {

/// Declares `regex::Regex` so compiled patterns can be held in fields.
#[verifier::external_type_specification]
#[verifier::external_body]
pub struct ExRegex(regex::Regex);

/// Whether the pattern text compiles as a regular expression.
pub uninterp spec fn re_compiles(pat: Seq<char>) -> bool;

/// Whether the text matches the pattern.
pub uninterp spec fn re_is_match(pat: Seq<char>, text: Seq<char>) -> bool;

/// The non-overlapping matches of the pattern in the text, in order:
/// for each match, its capture groups by position — the whole match
/// first, and a group that did not participate as `None`.
pub uninterp spec fn re_captures(pat: Seq<char>, text: Seq<char>) -> Seq<Seq<Option<Seq<char>>>>;

/// A compiled pattern together with its source text.
pub struct CompiledPattern {
    re: regex::Regex,
    source: String,
}

impl CompiledPattern {
    /// The pattern text this was compiled from.
    pub closed spec fn pat(&self) -> Seq<char> {
        self.source@
    }

    /// Relies on `regex::Regex::new`: whether a pattern compiles is a
    /// function of the pattern text alone.
    #[verifier::external_body]
    pub fn new(pattern: &str) -> (r: Option<CompiledPattern>)
        ensures
            r is Some <==> re_compiles(pattern@),
            r matches Some(p) ==> p.pat() == pattern@,
    {
        match regex::Regex::new(pattern) {
            Ok(re) => Some(CompiledPattern { re, source: pattern.to_string() }),
            Err(_) => None,
        }
    }

    /// Relies on `regex::Regex::is_match`: whether a text matches is a
    /// function of the pattern text and the text alone.
    #[verifier::external_body]
    pub fn is_match(&self, text: &str) -> (r: bool)
        ensures
            r == re_is_match(self.pat(), text@),
    {
        self.re.is_match(text)
    }

    /// Relies on `regex::Regex::captures_iter`: the non-overlapping
    /// matches and their capture groups are a function of the pattern
    /// text and the text alone. Each group is handed out as its text,
    /// or `None` where it did not participate in its match.
    #[verifier::external_body]
    pub fn captures_list(&self, text: &str) -> (r: Vec<Vec<Option<String>>>)
        ensures
            r.deep_view() == re_captures(self.pat(), text@),
    {
        self.re.captures_iter(text).map(
            |c| c.iter().map(|g| g.map(|m| m.as_str().to_string())).collect(),
        ).collect()
    }
}

} // verus!
