//! The engine's general laws, stated over the same specification
//! functions that the public contracts use, and proved once and for all.

use vstd::prelude::*;

use crate::cache::{KokoKeywords, MatchStep, cache_key_spec, spec_match_step};
use crate::errors::KokoError;
use crate::filter::parse_filter_spec;
use crate::pattern::{canonicalize, regex_accepts};
use crate::rules::{KeywordView, RuleSetView, clause_allows, keyword_applies, rule_set_matches, spec_evaluate};
use crate::text::contains_seq;

verus! {

/// An empty filter puts no constraint on tags: evaluation succeeds and
/// answers true exactly when some pattern's regular expression matches the
/// canonicalized text.
pub proof fn lemma_empty_filter_matches_any(rs: RuleSetView, text: Seq<char>)
    ensures
        spec_evaluate(rs, text, Seq::<char>::empty()) == Ok::<bool, KokoError>(
            exists|i: int|
                0 <= i < rs.keywords.len() && regex_accepts(
                    (#[trigger] rs.keywords[i]).regex,
                    canonicalize(rs.preprocess, text),
                ),
        ),
{
    let empty = Seq::<char>::empty();
    let no_clauses = Seq::<(Seq<char>, Seq<char>)>::empty();
    assert(crate::text::split_spec(empty, ':') =~= seq![empty]);
    assert(seq![empty].drop_first() =~= Seq::<Seq<char>>::empty());
    assert(seq![empty][0].len() == 0);
    assert(crate::filter::parse_segments(Seq::<Seq<char>>::empty()) == Some(no_clauses));
    assert(parse_filter_spec(empty) == Some(no_clauses));
    assert forall|i: int|
        0 <= i < rs.keywords.len() implies keyword_applies(#[trigger] rs.keywords[i], no_clauses) by {
    }
    assert(rule_set_matches(rs, text, no_clauses) == (exists|i: int|
        0 <= i < rs.keywords.len() && regex_accepts(
            (#[trigger] rs.keywords[i]).regex,
            canonicalize(rs.preprocess, text),
        )));
}

/// Under a filter with the single clause `category=values`, a pattern is
/// eligible exactly when its category tag occurs as a substring of
/// `values`.
pub proof fn lemma_category_filter_eligibility(kw: KeywordView, values: Seq<char>)
    ensures
        keyword_applies(kw, seq![("category"@, values)]) <==> contains_seq(values, kw.category),
{
    let clauses = seq![("category"@, values)];
    assert(clauses[0] == ("category"@, values));
    assert(clause_allows(kw, clauses[0].0, clauses[0].1) == contains_seq(values, kw.category));
}

/// A filter reading `category=` followed by a plain value (one without
/// the separator characters of the filter language) parses to exactly
/// that one clause.
pub proof fn lemma_category_filter_parse(values: Seq<char>)
    requires
        forall|j: int| 0 <= j < values.len() ==> values[j] != ':',
        forall|j: int| 0 <= j < values.len() ==> values[j] != '=',
    ensures
        parse_filter_spec("category="@ + values) == Some(seq![("category"@, values)]),
{
    reveal_strlit("category=");
    reveal_strlit("category");
    let s = "category="@ + values;
    assert forall|j: int| 0 <= j < s.len() implies s[j] != ':' by {
        if j >= 9 {
            assert(s[j] == values[j - 9]);
        }
    }
    crate::text::lemma_split_whole(s, ':');
    assert(s[8] == '=');
    assert forall|j: int| 0 <= j < 8 implies s[j] != '=' by {}
    crate::text::lemma_split_step(s, '=', 8);
    assert forall|j: int| 0 <= j < values.len() implies s.subrange(9, s.len() as int)[j] != '=' by {
        assert(s.subrange(9, s.len() as int)[j] == values[j]);
    }
    crate::text::lemma_split_whole(s.subrange(9, s.len() as int), '=');
    let parts = crate::text::split_spec(s, '=');
    assert(parts =~= seq![s.subrange(0, 8)] + seq![s.subrange(9, s.len() as int)]);
    assert(s.subrange(0, 8) =~= "category"@);
    assert(s.subrange(9, s.len() as int) =~= values);
    assert(crate::filter::parse_clause_spec(s) == Some(("category"@, values)));
    assert(seq![s].drop_first() =~= Seq::<Seq<char>>::empty());
    assert(crate::filter::parse_segments(seq![s].drop_first()) == Some(
        Seq::<(Seq<char>, Seq<char>)>::empty(),
    ));
    assert(seq![("category"@, values)] + Seq::<(Seq<char>, Seq<char>)>::empty() =~= seq![
        ("category"@, values),
    ]);
}

/// Under the filter text `category=` followed by a plain value, a query
/// answers true exactly when some pattern whose category tag the value
/// substring-contains matches the canonicalized text: a pattern is
/// eligible only if the value contains its category.
pub proof fn lemma_category_filter_query(rs: RuleSetView, text: Seq<char>, values: Seq<char>)
    requires
        forall|j: int| 0 <= j < values.len() ==> values[j] != ':',
        forall|j: int| 0 <= j < values.len() ==> values[j] != '=',
    ensures
        spec_evaluate(rs, text, "category="@ + values) == Ok::<bool, KokoError>(
            exists|i: int|
                0 <= i < rs.keywords.len() && contains_seq(
                    values,
                    (#[trigger] rs.keywords[i]).category,
                ) && regex_accepts(rs.keywords[i].regex, canonicalize(rs.preprocess, text)),
        ),
{
    lemma_category_filter_parse(values);
    assert forall|i: int| 0 <= i < rs.keywords.len() implies (keyword_applies(
        #[trigger] rs.keywords[i],
        seq![("category"@, values)],
    ) <==> contains_seq(values, rs.keywords[i].category)) by {
        lemma_category_filter_eligibility(rs.keywords[i], values);
    }
}

/// Evaluation is read-only: any two results that meet the match engine's
/// contract for the same rule set, text and filter coincide, so two
/// consecutive calls return identical answers.
pub proof fn lemma_evaluate_idempotent(
    rs: RuleSetView,
    text: Seq<char>,
    filter: Seq<char>,
    first: Result<bool, KokoError>,
    second: Result<bool, KokoError>,
)
    requires
        first == spec_evaluate(rs, text, filter),
        second == spec_evaluate(rs, text, filter),
    ensures
        first == second,
{
}

/// The staleness gate: under a well-formed filter, a query against a fresh
/// entry is answered at once, with no fetch; a query against a stale or
/// absent entry demands exactly one refresh.
pub proof fn lemma_ttl_gate(
    m: KokoKeywords,
    input: Seq<char>,
    filter: Seq<char>,
    version: Option<&str>,
    now: u64,
)
    requires
        parse_filter_spec(filter) is Some,
    ensures
        (match m.spec_entry(cache_key_spec(version)) {
            Some((rules, expires_at)) => {
                &&& (now < expires_at ==> spec_match_step(m, input, filter, version, now)
                    == MatchStep::Done(
                    Ok::<bool, KokoError>(
                        rule_set_matches(rules, input, parse_filter_spec(filter).unwrap()),
                    ),
                ))
                &&& (now >= expires_at ==> spec_match_step(m, input, filter, version, now)
                    == MatchStep::RefreshRequired)
            },
            None => spec_match_step(m, input, filter, version, now) == MatchStep::RefreshRequired,
        }),
{
}

} // verus!
