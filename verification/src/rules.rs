//! Rule sets: tagged patterns, payload compilation, and the match engine.

use vstd::prelude::*;

use crate::errors::KokoError;
use crate::filter::{parse_filter, parse_filter_spec};
use crate::pattern::{Pattern, canonical_text, canonicalize, regex_accepts, regex_compiles};
use crate::text::{contains_seq, contains_str, str_eq};

verus! {

/// What one tagged pattern is, mathematically: the pattern text it was
/// compiled from and its three tag values.
pub struct KeywordView {
    pub regex: Seq<char>,
    pub category: Seq<char>,
    pub severity: Seq<char>,
    pub confidence: Seq<char>,
}

/// One tagged pattern of a rule set: a compiled regular expression with
/// the tags the filter language can select on.
pub struct Keyword {
    pub regex: Pattern,
    pub category: String,
    pub severity: String,
    pub confidence: String,
}

impl View for Keyword {
    type V = KeywordView;

    open spec fn view(&self) -> KeywordView {
        KeywordView {
            regex: self.regex.pattern_view(),
            category: self.category@,
            severity: self.severity@,
            confidence: self.confidence@,
        }
    }
}

impl DeepView for Keyword {
    type V = KeywordView;

    open spec fn deep_view(&self) -> KeywordView {
        self.view()
    }
}

/// One pattern of a fetched payload, before compilation: the pattern text
/// and its tags, all plain strings.
pub struct KeywordEntry {
    pub regex: String,
    pub category: String,
    pub severity: String,
    pub confidence: String,
}

impl View for KeywordEntry {
    type V = KeywordView;

    open spec fn view(&self) -> KeywordView {
        KeywordView {
            regex: self.regex@,
            category: self.category@,
            severity: self.severity@,
            confidence: self.confidence@,
        }
    }
}

impl DeepView for KeywordEntry {
    type V = KeywordView;

    open spec fn deep_view(&self) -> KeywordView {
        self.view()
    }
}

/// Whether one filter clause allows a pattern: the pattern's tag value for
/// `key` must be substring-contained in the clause's `values`. A key other
/// than the three known tags never allows anything.
pub open spec fn clause_allows(kw: KeywordView, key: Seq<char>, values: Seq<char>) -> bool {
    if key == "category"@ {
        contains_seq(values, kw.category)
    } else if key == "severity"@ {
        contains_seq(values, kw.severity)
    } else if key == "confidence"@ {
        contains_seq(values, kw.confidence)
    } else {
        false
    }
}

impl Keyword {
    /// Whether this pattern's tag value for `filter_key` is allowed by
    /// `filter_values`. The tag value must occur as a substring of
    /// `filter_values`; an unknown key never matches.
    pub fn match_filter(&self, filter_key: &str, filter_values: &str) -> (r: bool)
        ensures
            r == clause_allows(self@, filter_key@, filter_values@),
    {
        if str_eq(filter_key, "category") {
            contains_str(filter_values, self.category.as_str())
        } else if str_eq(filter_key, "severity") {
            contains_str(filter_values, self.severity.as_str())
        } else if str_eq(filter_key, "confidence") {
            contains_str(filter_values, self.confidence.as_str())
        } else {
            false
        }
    }

    /// Whether every clause of a parsed filter allows this pattern.
    fn applies(&self, clauses: &Vec<(String, String)>) -> (r: bool)
        ensures
            r == keyword_applies(self@, clauses.deep_view()),
    {
        let mut j: usize = 0;
        while j < clauses.len()
            invariant
                j <= clauses.len(),
                forall|k: int|
                    0 <= k < j ==> #[trigger] clause_allows(
                        self@,
                        clauses.deep_view()[k].0,
                        clauses.deep_view()[k].1,
                    ),
            decreases clauses.len() - j,
        {
            let clause = &clauses[j];
            let allowed = self.match_filter(clause.0.as_str(), clause.1.as_str());
            proof {
                assert(clauses.deep_view()[j as int] == (
                    clauses@[j as int].0@,
                    clauses@[j as int].1@,
                ));
            }
            if !allowed {
                proof {
                    assert(!clause_allows(
                        self@,
                        clauses.deep_view()[j as int].0,
                        clauses.deep_view()[j as int].1,
                    ));
                }
                return false;
            }
            j = j + 1;
        }
        true
    }
}

/// Whether every clause of a filter allows a pattern.
pub open spec fn keyword_applies(kw: KeywordView, clauses: Seq<(Seq<char>, Seq<char>)>) -> bool {
    forall|j: int|
        0 <= j < clauses.len() ==> #[trigger] clause_allows(kw, clauses[j].0, clauses[j].1)
}

/// What a rule set is, mathematically: the preprocess pattern text and the
/// tagged patterns in their significant order.
pub struct RuleSetView {
    pub preprocess: Seq<char>,
    pub keywords: Seq<KeywordView>,
}

/// An immutable rule set: the preprocess pattern applied to every query
/// text, and the tagged patterns in priority order.
pub struct Keywords {
    pub preprocess: Pattern,
    pub keywords: Vec<Keyword>,
}

impl View for Keywords {
    type V = RuleSetView;

    open spec fn view(&self) -> RuleSetView {
        RuleSetView { preprocess: self.preprocess.pattern_view(), keywords: self.keywords.deep_view() }
    }
}

/// Whether the preprocess pattern and every keyword pattern of a payload
/// are valid regular expressions.
pub open spec fn all_compile(preprocess: Seq<char>, keywords: Seq<KeywordView>) -> bool {
    regex_compiles(preprocess) && (forall|i: int|
        0 <= i < keywords.len() ==> regex_compiles(#[trigger] keywords[i].regex))
}

/// Whether some pattern of the rule set is allowed by every filter clause
/// and matches the canonicalized text: the meaning of one query.
pub open spec fn rule_set_matches(
    rs: RuleSetView,
    text: Seq<char>,
    clauses: Seq<(Seq<char>, Seq<char>)>,
) -> bool {
    exists|i: int|
        0 <= i < rs.keywords.len() && keyword_applies(#[trigger] rs.keywords[i], clauses)
            && regex_accepts(rs.keywords[i].regex, canonicalize(rs.preprocess, text))
}

/// The result of one query against a rule set: the parsed filter's clauses
/// decide eligibility, or the query fails on a malformed filter.
pub open spec fn spec_evaluate(rs: RuleSetView, text: Seq<char>, filter: Seq<char>) -> Result<
    bool,
    KokoError,
> {
    match parse_filter_spec(filter) {
        Some(clauses) => Ok(rule_set_matches(rs, text, clauses)),
        None => Err(KokoError::InvalidFilter),
    }
}

impl Keywords {
    /// Compiles a fetched payload into a rule set. Fails with `ParseError`
    /// exactly when the preprocess pattern or any keyword pattern is not a
    /// valid regular expression; otherwise the rule set holds exactly the
    /// payload's patterns, in payload order.
    pub fn build(preprocess: &str, entries: &Vec<KeywordEntry>) -> (r: Result<Keywords, KokoError>)
        ensures
            match r {
                Ok(ks) => all_compile(preprocess@, entries.deep_view()) && ks@ == (RuleSetView {
                    preprocess: preprocess@,
                    keywords: entries.deep_view(),
                }),
                Err(e) => !all_compile(preprocess@, entries.deep_view()) && e
                    == KokoError::ParseError,
            },
    {
        let pre = match Pattern::compile(preprocess) {
            Some(p) => p,
            None => {
                return Err(KokoError::ParseError);
            },
        };
        let mut kws: Vec<Keyword> = Vec::new();
        let mut i: usize = 0;
        while i < entries.len()
            invariant
                i <= entries.len(),
                regex_compiles(preprocess@),
                kws.deep_view() =~= entries.deep_view().take(i as int),
                forall|k: int|
                    0 <= k < i ==> regex_compiles(#[trigger] entries.deep_view()[k].regex),
            decreases entries.len() - i,
        {
            let entry = &entries[i];
            let compiled = match Pattern::compile(entry.regex.as_str()) {
                Some(p) => p,
                None => {
                    proof {
                        assert(!regex_compiles(entries.deep_view()[i as int].regex));
                    }
                    return Err(KokoError::ParseError);
                },
            };
            let kw = Keyword {
                regex: compiled,
                category: entry.category.clone(),
                severity: entry.severity.clone(),
                confidence: entry.confidence.clone(),
            };
            let ghost kv = kw@;
            let ghost old_kws = kws.deep_view();
            kws.push(kw);
            proof {
                assert(kws.deep_view() =~= old_kws.push(kv));
                assert(kws.deep_view() =~= entries.deep_view().take(i + 1));
            }
            i = i + 1;
        }
        let ks = Keywords { preprocess: pre, keywords: kws };
        proof {
            assert(entries.deep_view().take(entries@.len() as int) =~= entries.deep_view());
            assert(ks@.keywords =~= entries.deep_view());
        }
        Ok(ks)
    }

    /// Whether some pattern allowed by every clause matches the
    /// canonicalized text, first match deciding.
    pub fn matches_clauses(&self, text: &str, clauses: &Vec<(String, String)>) -> (r: bool)
        ensures
            r == rule_set_matches(self@, text@, clauses.deep_view()),
    {
        let canonical = canonical_text(&self.preprocess, text);
        let mut i: usize = 0;
        while i < self.keywords.len()
            invariant
                i <= self.keywords.len(),
                canonical@ == canonicalize(self@.preprocess, text@),
                forall|k: int|
                    0 <= k < i ==> !(keyword_applies(#[trigger] self@.keywords[k], clauses.deep_view())
                        && regex_accepts(
                        self@.keywords[k].regex,
                        canonicalize(self@.preprocess, text@),
                    )),
            decreases self.keywords.len() - i,
        {
            let kw = &self.keywords[i];
            if kw.applies(clauses) && kw.regex.is_match(canonical.as_str()) {
                proof {
                    assert(self@.keywords[i as int] == kw@);
                }
                return true;
            }
            proof {
                assert(self@.keywords[i as int] == kw@);
            }
            i = i + 1;
        }
        false
    }

    /// The match engine: parses the filter, canonicalizes the text under
    /// the preprocess pattern, and reports whether any eligible pattern
    /// matches. A malformed filter is rejected without looking at the text.
    pub fn evaluate(&self, text: &str, filter: &str) -> (r: Result<bool, KokoError>)
        ensures
            r == spec_evaluate(self@, text@, filter@),
    {
        let clauses = match parse_filter(filter) {
            Ok(clauses) => clauses,
            Err(e) => {
                return Err(e);
            },
        };
        Ok(self.matches_clauses(text, &clauses))
    }
}

} // verus!
