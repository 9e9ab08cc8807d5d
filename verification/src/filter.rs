//! The filter expression language.
//!
//! A filter is a string of `key=value` clauses joined by `:`. Empty
//! clauses are skipped; a non-empty clause without `=` is a syntax error.
//! When a clause holds more than one `=`, the value is the segment
//! between the first and the second.

use vstd::prelude::*;
use vstd::string::StrSliceExecFns;

use crate::errors::KokoError;
use crate::text::{split_spec, split_str};

verus! {

/// The `(key, values)` pair of one non-empty clause, or `None` if the
/// clause has no `=`.
pub open spec fn parse_clause_spec(clause: Seq<char>) -> Option<(Seq<char>, Seq<char>)> {
    let parts = split_spec(clause, '=');
    if parts.len() >= 2 {
        Some((parts[0], parts[1]))
    } else {
        None
    }
}

/// Parses a sequence of clause segments: empty segments are skipped, and a
/// single malformed segment fails the whole filter.
pub open spec fn parse_segments(segs: Seq<Seq<char>>) -> Option<Seq<(Seq<char>, Seq<char>)>>
    decreases segs.len(),
{
    if segs.len() == 0 {
        Some(Seq::empty())
    } else if segs[0].len() == 0 {
        parse_segments(segs.drop_first())
    } else {
        match (parse_clause_spec(segs[0]), parse_segments(segs.drop_first())) {
            (Some(clause), Some(rest)) => Some(seq![clause] + rest),
            _ => None,
        }
    }
}

/// The clauses of a filter expression, or `None` if it is malformed. The
/// empty filter yields no clauses.
pub open spec fn parse_filter_spec(filter: Seq<char>) -> Option<Seq<(Seq<char>, Seq<char>)>> {
    parse_segments(split_spec(filter, ':'))
}

/// A malformed segment anywhere fails the whole parse.
pub proof fn lemma_parse_segments_none(segs: Seq<Seq<char>>, k: int)
    requires
        0 <= k < segs.len(),
        segs[k].len() > 0,
        parse_clause_spec(segs[k]) is None,
    ensures
        parse_segments(segs) is None,
    decreases k,
{
    if k > 0 {
        assert(segs.drop_first()[k - 1] == segs[k]);
        lemma_parse_segments_none(segs.drop_first(), k - 1);
    }
}

/// Parses a filter expression into its `(key, values)` clauses, in order,
/// or reports `InvalidFilter` exactly when the expression is malformed.
pub fn parse_filter(filter: &str) -> (r: Result<Vec<(String, String)>, KokoError>)
    ensures
        match r {
            Ok(clauses) => parse_filter_spec(filter@) == Some(clauses.deep_view()),
            Err(e) => parse_filter_spec(filter@) is None && e == KokoError::InvalidFilter,
        },
{
    let segs: Vec<String> = split_str(filter, ':');
    let mut acc: Vec<(String, String)> = Vec::new();
    let mut i: usize = segs.len();
    proof {
        assert(segs.deep_view().skip(i as int) =~= Seq::<Seq<char>>::empty());
        assert(acc.deep_view() =~= Seq::<(Seq<char>, Seq<char>)>::empty());
    }
    while i > 0
        invariant
            i <= segs.len(),
            segs.deep_view() == split_spec(filter@, ':'),
            parse_segments(segs.deep_view().skip(i as int)) == Some(acc.deep_view()),
        decreases i,
    {
        i = i - 1;
        proof {
            assert(segs.deep_view().skip(i as int)[0] == segs.deep_view()[i as int]);
            assert(segs.deep_view().skip(i as int).drop_first() =~= segs.deep_view().skip(
                i + 1,
            ));
        }
        let seg: &String = &segs[i];
        if seg.as_str().unicode_len() == 0 {
            // An empty segment contributes no clause.
        } else {
            let parts: Vec<String> = split_str(seg.as_str(), '=');
            if parts.len() >= 2 {
                let key = parts[0].clone();
                let values = parts[1].clone();
                let ghost old_acc = acc.deep_view();
                acc.insert(0, (key, values));
                proof {
                    assert(acc.deep_view() =~= seq![
                        (parts.deep_view()[0], parts.deep_view()[1]),
                    ] + old_acc);
                }
            } else {
                proof {
                    assert(parts.deep_view().len() < 2);
                    lemma_parse_segments_none(segs.deep_view(), i as int);
                }
                return Err(KokoError::InvalidFilter);
            }
        }
    }
    proof {
        assert(segs.deep_view().skip(0) =~= segs.deep_view());
    }
    Ok(acc)
}

} // verus!
