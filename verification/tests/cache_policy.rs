use koko_keywords::{
    FetchEvent, KeywordEntry, Keywords, KeywordsCache, KokoError, KokoKeywords, MatchStep,
    koko_keywords_match,
};

fn entry(regex: &str, category: &str, severity: &str, confidence: &str) -> KeywordEntry {
    KeywordEntry {
        regex: regex.to_string(),
        category: category.to_string(),
        severity: severity.to_string(),
        confidence: confidence.to_string(),
    }
}

fn default_rules() -> Keywords {
    let entries = vec![entry("^kms$", "suicide", "high", "high")];
    Keywords::build("\\W", &entries).expect("default patterns compile")
}

/// A cache whose bootstrap entry expires at `expires_at`.
fn matcher(expires_at: u64) -> KokoKeywords {
    KokoKeywords::new(
        "https://example.invalid/keywords".to_string(),
        KeywordsCache::new(default_rules(), expires_at),
    )
}

fn payload(regexes: Vec<KeywordEntry>, cache_control: Option<&str>) -> FetchEvent {
    FetchEvent::Payload {
        preprocess: " ".to_string(),
        keywords: regexes,
        cache_control: cache_control.map(|h| h.to_string()),
    }
}

#[test]
fn fresh_entry_answers_without_fetch() {
    let m = matcher(100);
    assert!(matches!(koko_keywords_match(&m, "kms", "", None, 99), MatchStep::Done(Ok(true))));
    assert!(matches!(koko_keywords_match(&m, "hello", "", None, 99), MatchStep::Done(Ok(false))));
}

#[test]
fn stale_entry_demands_refresh() {
    let m = matcher(100);
    assert!(matches!(koko_keywords_match(&m, "kms", "", None, 100), MatchStep::RefreshRequired));
    assert!(matches!(koko_keywords_match(&m, "kms", "", None, 5000), MatchStep::RefreshRequired));
}

#[test]
fn missing_version_entry_demands_refresh() {
    let m = matcher(100);
    assert!(matches!(
        koko_keywords_match(&m, "kms", "", Some("v2"), 99),
        MatchStep::RefreshRequired
    ));
}

#[test]
fn malformed_filter_fails_without_refresh() {
    // Even with a stale entry, a malformed filter is rejected at once: the
    // caller is never asked to fetch.
    let m = matcher(0);
    assert!(matches!(
        koko_keywords_match(&m, "kms", "category", None, 50),
        MatchStep::Done(Err(KokoError::InvalidFilter))
    ));
}

#[test]
fn transient_outage_then_recovery() {
    let mut m = matcher(0);
    // first call: stale entry, and the service is unreachable
    assert!(matches!(koko_keywords_match(&m, "kms", "", None, 5), MatchStep::RefreshRequired));
    assert_eq!(m.load_cache(None, 5, FetchEvent::Unavailable), Err(KokoError::CacheRefreshError));
    // the entry was not bumped: the very next call retries at once
    assert!(matches!(koko_keywords_match(&m, "kms", "", None, 6), MatchStep::RefreshRequired));
    // the service recovers: one fetch succeeds
    let recovered = payload(vec![entry("^kms$", "suicide", "high", "high")], None);
    assert_eq!(m.load_cache(None, 6, recovered), Ok(()));
    assert_eq!(m.verify("k m s", "", None), Ok(true));
    // no further fetch is demanded while the new entry is fresh
    assert!(matches!(koko_keywords_match(&m, "k m s", "", None, 7), MatchStep::Done(Ok(true))));
}

#[test]
fn retryable_failure_keeps_stale_rules_available() {
    let mut m = matcher(0);
    assert_eq!(m.load_cache(None, 5, FetchEvent::Unavailable), Err(KokoError::CacheRefreshError));
    // the stale rule set is still there and still answers `verify`
    assert_eq!(m.verify("kms", "", None), Ok(true));
}

#[test]
fn fatal_credentials_failure_bumps_expiry() {
    let mut m = matcher(0);
    assert!(matches!(koko_keywords_match(&m, "kms", "", None, 10), MatchStep::RefreshRequired));
    assert_eq!(m.load_cache(None, 10, FetchEvent::AuthRejected), Err(KokoError::InvalidCredentials));
    // the stale rules were kept, and no refetch is demanded for a default
    // lifetime: fatal failures do not cause a refresh storm
    assert!(matches!(koko_keywords_match(&m, "kms", "", None, 10), MatchStep::Done(Ok(true))));
    assert!(matches!(
        koko_keywords_match(&m, "kms", "", None, 10 + 3599),
        MatchStep::Done(Ok(true))
    ));
    assert!(matches!(
        koko_keywords_match(&m, "kms", "", None, 10 + 3600),
        MatchStep::RefreshRequired
    ));
}

#[test]
fn fatal_url_failure_bumps_expiry() {
    let mut m = matcher(0);
    assert_eq!(m.load_cache(None, 10, FetchEvent::UrlInvalid), Err(KokoError::InvalidUrl));
    assert!(matches!(koko_keywords_match(&m, "kms", "", None, 3609), MatchStep::Done(Ok(true))));
    assert!(matches!(koko_keywords_match(&m, "kms", "", None, 3610), MatchStep::RefreshRequired));
}

#[test]
fn unusable_body_is_retryable() {
    let mut m = matcher(0);
    assert_eq!(m.load_cache(None, 5, FetchEvent::PayloadInvalid), Err(KokoError::ParseError));
    // not bumped: the next call retries at once
    assert!(matches!(koko_keywords_match(&m, "kms", "", None, 5), MatchStep::RefreshRequired));
}

#[test]
fn payload_with_invalid_pattern_is_retryable() {
    let mut m = matcher(0);
    let bad = payload(vec![entry("foo(bar", "suicide", "high", "high")], None);
    assert_eq!(m.load_cache(None, 5, bad), Err(KokoError::ParseError));
    // the old entry is untouched: still stale, still serving `verify`
    assert!(matches!(koko_keywords_match(&m, "kms", "", None, 5), MatchStep::RefreshRequired));
    assert_eq!(m.verify("kms", "", None), Ok(true));
}

#[test]
fn successful_refresh_replaces_entry_wholesale() {
    let mut m = matcher(0);
    let fetched = payload(vec![entry("^sewerslide$", "suicide", "high", "high")], None);
    assert_eq!(m.load_cache(None, 5, fetched), Ok(()));
    assert_eq!(m.verify("sewerslide", "", None), Ok(true));
    // the bootstrap pattern is gone
    assert_eq!(m.verify("kms", "", None), Ok(false));
}

#[test]
fn max_age_header_sets_lifetime() {
    let mut m = matcher(0);
    let fetched = payload(vec![entry("^kms$", "suicide", "high", "high")], Some("max-age=7200"));
    assert_eq!(m.load_cache(None, 10, fetched), Ok(()));
    assert!(matches!(koko_keywords_match(&m, "kms", "", None, 10 + 7199), MatchStep::Done(Ok(true))));
    assert!(matches!(
        koko_keywords_match(&m, "kms", "", None, 10 + 7200),
        MatchStep::RefreshRequired
    ));
}

#[test]
fn missing_header_gives_default_lifetime() {
    let mut m = matcher(0);
    let fetched = payload(vec![entry("^kms$", "suicide", "high", "high")], None);
    assert_eq!(m.load_cache(None, 10, fetched), Ok(()));
    assert!(matches!(koko_keywords_match(&m, "kms", "", None, 10 + 3599), MatchStep::Done(Ok(true))));
    assert!(matches!(
        koko_keywords_match(&m, "kms", "", None, 10 + 3600),
        MatchStep::RefreshRequired
    ));
}

#[test]
fn header_without_max_age_gives_default_lifetime() {
    let mut m = matcher(0);
    let fetched = payload(vec![entry("^kms$", "suicide", "high", "high")], Some("public"));
    assert_eq!(m.load_cache(None, 10, fetched), Ok(()));
    assert!(matches!(koko_keywords_match(&m, "kms", "", None, 10 + 3599), MatchStep::Done(Ok(true))));
    assert!(matches!(
        koko_keywords_match(&m, "kms", "", None, 10 + 3600),
        MatchStep::RefreshRequired
    ));
}

#[test]
fn unparsable_max_age_gives_default_lifetime() {
    let mut m = matcher(0);
    let fetched = payload(vec![entry("^kms$", "suicide", "high", "high")], Some("max-age=soon"));
    assert_eq!(m.load_cache(None, 10, fetched), Ok(()));
    assert!(matches!(koko_keywords_match(&m, "kms", "", None, 10 + 3599), MatchStep::Done(Ok(true))));
    assert!(matches!(
        koko_keywords_match(&m, "kms", "", None, 10 + 3600),
        MatchStep::RefreshRequired
    ));
}

#[test]
fn max_age_zero_is_immediately_stale() {
    let mut m = matcher(0);
    let fetched = payload(vec![entry("^kms$", "suicide", "high", "high")], Some("max-age=0"));
    assert_eq!(m.load_cache(None, 10, fetched), Ok(()));
    assert!(matches!(koko_keywords_match(&m, "kms", "", None, 10), MatchStep::RefreshRequired));
    // but the entry is there for the post-refresh read
    assert_eq!(m.verify("kms", "", None), Ok(true));
}

#[test]
fn versioned_entries_are_independent() {
    let mut m = matcher(100);
    let fetched = payload(vec![entry("^sewerslide$", "suicide", "high", "high")], None);
    assert_eq!(m.load_cache(Some("v2"), 10, fetched), Ok(()));
    // the reserved latest-rules entry still serves its own patterns
    assert!(matches!(koko_keywords_match(&m, "kms", "", None, 50), MatchStep::Done(Ok(true))));
    assert!(matches!(koko_keywords_match(&m, "sewerslide", "", None, 50), MatchStep::Done(Ok(false))));
    // the versioned entry serves the fetched patterns
    assert!(matches!(
        koko_keywords_match(&m, "sewerslide", "", Some("v2"), 50),
        MatchStep::Done(Ok(true))
    ));
    assert!(matches!(
        koko_keywords_match(&m, "kms", "", Some("v2"), 50),
        MatchStep::Done(Ok(false))
    ));
}

#[test]
fn verify_reports_missing_entry() {
    let m = matcher(100);
    assert_eq!(m.verify("kms", "", Some("v9")), Err(KokoError::CacheRefreshError));
}

#[test]
fn verify_rejects_malformed_filter() {
    let m = matcher(100);
    assert_eq!(m.verify("kms", "category", None), Err(KokoError::InvalidFilter));
}

#[test]
fn url_is_kept() {
    let m = matcher(0);
    assert_eq!(m.url().as_str(), "https://example.invalid/keywords");
}
