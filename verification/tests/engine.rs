use koko_keywords::{Keyword, KeywordEntry, Keywords, KokoError, Pattern};

fn entry(regex: &str, category: &str, severity: &str, confidence: &str) -> KeywordEntry {
    KeywordEntry {
        regex: regex.to_string(),
        category: category.to_string(),
        severity: severity.to_string(),
        confidence: confidence.to_string(),
    }
}

fn rule_set(preprocess: &str, entries: Vec<KeywordEntry>) -> Keywords {
    Keywords::build(preprocess, &entries).expect("patterns must compile")
}

#[test]
fn basic_match() {
    let ks = rule_set(" ", vec![entry("^kms$", "suicide", "high", "high")]);
    assert_eq!(ks.evaluate("k m s", ""), Ok(true));
}

#[test]
fn filtered_exclusion() {
    let ks = rule_set(" ", vec![entry("^kms$", "suicide", "high", "high")]);
    assert_eq!(ks.evaluate("k m s", "category=eating"), Ok(false));
}

#[test]
fn combined_filter_matches_only_first() {
    let ks = rule_set(
        " ",
        vec![
            entry("^kms$", "suicide", "high", "high"),
            entry("^suicidal$", "suicide", "medium", "medium"),
        ],
    );
    assert_eq!(ks.evaluate("kms", "category=suicide:severity=high"), Ok(true));
    assert_eq!(ks.evaluate("suicidal", "category=suicide:severity=high"), Ok(false));
    assert_eq!(ks.evaluate("suicidal", "category=suicide:severity=medium"), Ok(true));
}

#[test]
fn malformed_filter_is_rejected() {
    let ks = rule_set(" ", vec![entry("^kms$", "suicide", "high", "high")]);
    assert_eq!(ks.evaluate("kms", "category"), Err(KokoError::InvalidFilter));
}

#[test]
fn empty_filter_ignores_tags() {
    let ks = rule_set(" ", vec![entry("^kms$", "oddcategory", "oddseverity", "oddconfidence")]);
    assert_eq!(ks.evaluate("k m s", ""), Ok(true));
    assert_eq!(ks.evaluate("hello", ""), Ok(false));
}

#[test]
fn evaluate_is_idempotent() {
    let ks = rule_set(" ", vec![entry("^kms$", "suicide", "high", "high")]);
    let first = ks.evaluate("k m s", "category=suicide");
    let second = ks.evaluate("k m s", "category=suicide");
    assert_eq!(first, second);
    assert_eq!(first, Ok(true));
}

#[test]
fn filter_value_substring_sharp_edge() {
    // The filter value "suicideprevention" substring-matches the shorter
    // stored category "suicide".
    let ks = rule_set(" ", vec![entry("^kms$", "suicide", "high", "high")]);
    assert_eq!(ks.evaluate("kms", "category=suicideprevention"), Ok(true));
    assert_eq!(ks.evaluate("kms", "category=suicid"), Ok(false));
}

#[test]
fn match_filter_substring_semantics() {
    let pattern = Pattern::compile("^kms$").expect("valid pattern");
    let kw = Keyword {
        regex: pattern,
        category: "suicide".to_string(),
        severity: "high".to_string(),
        confidence: "high".to_string(),
    };
    assert!(kw.match_filter("category", "suicide"));
    assert!(kw.match_filter("category", "suicideprevention"));
    assert!(!kw.match_filter("category", "eating"));
    assert!(kw.match_filter("severity", "high,medium"));
    assert!(kw.match_filter("confidence", "high"));
    assert!(!kw.match_filter("confidence", "hig"));
    // a key outside the tag vocabulary never matches
    assert!(!kw.match_filter("priority", "high"));
    assert!(!kw.match_filter("", "high"));
}

#[test]
fn case_insensitive() {
    let ks = rule_set("\\W", vec![entry("^kms$", "suicide", "high", "high")]);
    assert_eq!(ks.evaluate("KMS", ""), Ok(true));
}

#[test]
fn preprocessing_strips_matches() {
    let ks = rule_set("\\W", vec![entry("^kms$", "suicide", "high", "high")]);
    assert_eq!(ks.evaluate("kms.@#", ""), Ok(true));
}

#[test]
fn filters() {
    let ks = rule_set(
        " ",
        vec![
            entry("^kms$", "suicide", "high", "high"),
            entry("^a4a$", "eating", "high", "high"),
            entry("^suicidal$", "suicide", "medium", "medium"),
        ],
    );
    assert_eq!(ks.evaluate("kms", "category=suicide"), Ok(true));
    assert_eq!(ks.evaluate("kms", "category=eating"), Ok(false));
    assert_eq!(ks.evaluate("kms", "category=suicide:confidence=medium"), Ok(false));
    assert_eq!(ks.evaluate("kms", "category=suicide:confidence=high"), Ok(true));
    assert_eq!(ks.evaluate("suicidal", "category=suicide:confidence=high"), Ok(false));
    assert_eq!(ks.evaluate("a4a", "category=eating"), Ok(true));
}

#[test]
fn unknown_filter_key_excludes_every_pattern() {
    let ks = rule_set(" ", vec![entry("^kms$", "suicide", "high", "high")]);
    assert_eq!(ks.evaluate("kms", "priority=high"), Ok(false));
    // an empty key is not a known tag either
    assert_eq!(ks.evaluate("kms", "=suicide"), Ok(false));
}

#[test]
fn empty_clauses_are_skipped() {
    let ks = rule_set(" ", vec![entry("^kms$", "suicide", "high", "high")]);
    assert_eq!(ks.evaluate("kms", ":"), Ok(true));
    assert_eq!(ks.evaluate("kms", "::category=suicide::"), Ok(true));
    assert_eq!(ks.evaluate("kms", "::category=eating::"), Ok(false));
}

#[test]
fn clause_value_is_segment_between_first_equals_signs() {
    let ks = rule_set(" ", vec![entry("^kms$", "suicide", "high", "high")]);
    // the value of "category=suicide=eating" is "suicide"
    assert_eq!(ks.evaluate("kms", "category=suicide=eating"), Ok(true));
    assert_eq!(ks.evaluate("kms", "category=eating=suicide"), Ok(false));
}

#[test]
fn invalid_pattern_fails_to_build() {
    let entries = vec![entry("foo(bar", "suicide", "high", "high")];
    assert!(matches!(Keywords::build(" ", &entries), Err(KokoError::ParseError)));
    let good = vec![entry("^kms$", "suicide", "high", "high")];
    assert!(matches!(Keywords::build("foo(bar", &good), Err(KokoError::ParseError)));
}

#[test]
fn pattern_compile_rejects_invalid() {
    assert!(Pattern::compile("^kms$").is_some());
    assert!(Pattern::compile("foo(bar").is_none());
}

#[test]
fn error_codes_are_stable() {
    assert_eq!(KokoError::AuthOrUrlMissing.code(), -1);
    assert_eq!(KokoError::InvalidCredentials.code(), -2);
    assert_eq!(KokoError::CacheRefreshError.code(), -3);
    assert_eq!(KokoError::ParseError.code(), -4);
    assert_eq!(KokoError::InvalidUrl.code(), -5);
    assert_eq!(KokoError::InvalidFilter.code(), -6);
}
