//! Compiled patterns and text canonicalization.
//!
//! Matching and preprocessing are done by the `regex` crate; lowercasing by
//! the standard library. What those calls return is a function of their
//! arguments alone, so each result is given a name (`regex_accepts`,
//! `regex_strip`, `lower_of`) and every contract above speaks of those
//! names exactly.

use vstd::prelude::*;

verus! {

/// Whether `pattern` is a valid regular expression, as `regex::Regex::new`
/// decides it.
pub uninterp spec fn regex_compiles(pattern: Seq<char>) -> bool;

/// Whether the regular expression `pattern` matches anywhere in `text`, as
/// `regex::Regex::is_match` decides it.
pub uninterp spec fn regex_accepts(pattern: Seq<char>, text: Seq<char>) -> bool;

/// `text` with every non-overlapping match of `pattern` deleted, as
/// `regex::Regex::replace_all` with an empty replacement produces it.
pub uninterp spec fn regex_strip(pattern: Seq<char>, text: Seq<char>) -> Seq<char>;

/// The Unicode lowercasing of `text`, as `str::to_lowercase` produces it.
pub uninterp spec fn lower_of(text: Seq<char>) -> Seq<char>;

/// The canonical form of a query text under a preprocess pattern: every
/// match of the pattern is deleted, then the remainder is lowercased.
pub open spec fn canonicalize(pattern: Seq<char>, text: Seq<char>) -> Seq<char> {
    lower_of(regex_strip(pattern, text))
}

/// A compiled regular expression together with its source text. The source
/// is kept so that contracts can speak of the pattern the value was
/// compiled from.
pub struct Pattern {
    pattern: String,
    compiled: regex::Regex,
}

impl Pattern {
    /// The pattern text this value was compiled from.
    pub closed spec fn pattern_view(self) -> Seq<char> {
        self.pattern@
    }

    /// Relies on `regex::Regex::new`: whether a pattern compiles is decided
    /// by the pattern text alone, and the compiled program is determined by
    /// it.
    #[verifier::external_body]
    pub fn compile(pattern: &str) -> (r: Option<Pattern>)
        ensures
            r is Some <==> regex_compiles(pattern@),
            r matches Some(re) ==> re.pattern_view() == pattern@,
    {
        match regex::Regex::new(pattern) {
            Ok(compiled) => Some(Pattern { pattern: pattern.to_owned(), compiled }),
            Err(_) => None,
        }
    }

    /// Relies on `regex::Regex::is_match`: whether the pattern matches
    /// anywhere in `text` depends on the pattern and the text alone.
    #[verifier::external_body]
    pub fn is_match(&self, text: &str) -> (r: bool)
        ensures
            r == regex_accepts(self.pattern_view(), text@),
    {
        self.compiled.is_match(text)
    }

    /// Relies on `regex::Regex::replace_all`: replacing every
    /// non-overlapping match with the empty string deletes the matches and
    /// depends on the pattern and the text alone.
    #[verifier::external_body]
    pub fn strip_matches(&self, text: &str) -> (r: String)
        ensures
            r@ == regex_strip(self.pattern_view(), text@),
    {
        self.compiled.replace_all(text, "").into_owned()
    }
}

/// Relies on `str::to_lowercase`: the result depends on the characters
/// alone.
#[verifier::external_body]
pub(crate) fn lowercase(text: &str) -> (r: String)
    ensures
        r@ == lower_of(text@),
{
    text.to_lowercase()
}

/// Canonicalizes `text` for matching: strips every match of `pattern`,
/// then lowercases what remains.
pub fn canonical_text(pattern: &Pattern, text: &str) -> (r: String)
    ensures
        r@ == canonicalize(pattern.pattern_view(), text@),
{
    let stripped = pattern.strip_matches(text);
    lowercase(stripped.as_str())
}

} // verus!
