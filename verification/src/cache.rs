//! The rule cache: entries keyed by requested version, staleness, and the
//! refresh failure policy.
//!
//! The cache never fetches anything itself. A query first asks
//! [`koko_keywords_match`]; if the cached entry for the key is fresh the
//! answer is computed at once, otherwise the caller performs one fetch and
//! hands the outcome to [`KokoKeywords::load_cache`] as a [`FetchEvent`],
//! then reads the answer with [`KokoKeywords::verify`].
//!
//! Failure policy: a fatal outcome (bad URL, bad credentials) is surfaced
//! and the entry's expiry is pushed forward by the default lifetime, so
//! repeated fatal failures do not refetch on every call; a retryable
//! outcome (service unavailable, unusable payload) is surfaced and the
//! entry is left untouched, so the very next call retries.

use vstd::prelude::*;
use vstd::string::StringExecFns;

use crate::errors::KokoError;
use crate::filter::{parse_filter, parse_filter_spec};
use crate::rules::{KeywordEntry, Keywords, RuleSetView, all_compile, rule_set_matches};

verus! {

/// The rule-set lifetime, in seconds, used when a response names none.
pub const CACHE_EXPIRATION_DEFAULT: u64 = 3600;

/// The lifetime in seconds granted by a cache-control header value, if the
/// value parses and holds a max-age directive.
pub uninterp spec fn max_age_of(header: Seq<char>) -> Option<u64>;

/// Relies on `cache_control::CacheControl::from_value`: parsing a header
/// value is a function of the text alone, and the parsed max-age directive
/// is a whole number of seconds.
#[verifier::external_body]
fn ttl_from_header(value: &str) -> (r: Option<u64>)
    ensures
        r == max_age_of(value@),
{
    cache_control::CacheControl::from_value(value).and_then(|cc| cc.max_age).map(|d| d.as_secs())
}

/// The lifetime of a fresh entry: the header's max-age when one was given
/// and parses, the default otherwise.
pub open spec fn spec_ttl(header: Option<String>) -> u64 {
    match header {
        Some(h) => match max_age_of(h@) {
            Some(secs) => secs,
            None => CACHE_EXPIRATION_DEFAULT,
        },
        None => CACHE_EXPIRATION_DEFAULT,
    }
}

fn ttl_seconds(header: &Option<String>) -> (r: u64)
    ensures
        r == spec_ttl(*header),
{
    match header {
        Some(h) => match ttl_from_header(h.as_str()) {
            Some(secs) => secs,
            None => CACHE_EXPIRATION_DEFAULT,
        },
        None => CACHE_EXPIRATION_DEFAULT,
    }
}

/// The instant `ttl` seconds after `now`, saturating at the largest
/// representable instant.
pub open spec fn spec_expiry(now: u64, ttl: u64) -> u64 {
    if now + ttl > u64::MAX {
        u64::MAX
    } else {
        (now + ttl) as u64
    }
}

fn expiry_at(now: u64, ttl: u64) -> (r: u64)
    ensures
        r == spec_expiry(now, ttl),
{
    if ttl > u64::MAX - now {
        u64::MAX
    } else {
        now + ttl
    }
}

/// One cache entry: a rule set and the instant it becomes stale.
pub struct KeywordsCache {
    pub keywords: Keywords,
    pub expires_at: u64,
}

impl KeywordsCache {
    /// An entry holding `keywords` and considered fresh before
    /// `expires_at`.
    pub fn new(keywords: Keywords, expires_at: u64) -> (r: Self)
        ensures
            r.keywords == keywords,
            r.expires_at == expires_at,
    {
        KeywordsCache { keywords, expires_at }
    }
}

/// The outcome of one fetch from the rule service, as reported by the
/// caller that performed the transfer.
pub enum FetchEvent {
    /// Transport and HTTP success: the payload's preprocess pattern and
    /// keyword entries, and the raw cache-control response header if one
    /// came.
    Payload { preprocess: String, keywords: Vec<KeywordEntry>, cache_control: Option<String> },
    /// Transport success, but the response body could not be understood.
    PayloadInvalid,
    /// The service rejected the credentials.
    AuthRejected,
    /// The service could not be reached or answered a failing status.
    Unavailable,
    /// The configured endpoint is not a valid URL.
    UrlInvalid,
}

/// The key a requested version is cached under; an absent version selects
/// the reserved latest-rules key.
pub open spec fn cache_key_spec(version: Option<&str>) -> Seq<char> {
    match version {
        Some(v) => v@,
        None => "latest"@,
    }
}

fn cache_key(version: Option<&str>) -> (r: String)
    ensures
        r@ == cache_key_spec(version),
{
    match version {
        Some(v) => v.to_owned(),
        None => String::from_str("latest"),
    }
}

/// The first entry under `key`, scanning in storage order.
pub open spec fn find_entry(entries: Seq<(String, KeywordsCache)>, key: Seq<char>) -> Option<
    KeywordsCache,
>
    decreases entries.len(),
{
    if entries.len() == 0 {
        None
    } else if entries[0].0@ == key {
        Some(entries[0].1)
    } else {
        find_entry(entries.drop_first(), key)
    }
}

/// A key held by no entry is found under no entry.
proof fn lemma_find_entry_absent(entries: Seq<(String, KeywordsCache)>, key: Seq<char>)
    requires
        forall|j: int| 0 <= j < entries.len() ==> (#[trigger] entries[j]).0@ != key,
    ensures
        find_entry(entries, key) is None,
    decreases entries.len(),
{
    if entries.len() > 0 {
        lemma_find_entry_absent(entries.drop_first(), key);
    }
}

/// A key found under no entry is held by no entry.
proof fn lemma_find_entry_none_char(entries: Seq<(String, KeywordsCache)>, key: Seq<char>)
    requires
        find_entry(entries, key) is None,
    ensures
        forall|j: int| 0 <= j < entries.len() ==> (#[trigger] entries[j]).0@ != key,
    decreases entries.len(),
{
    if entries.len() > 0 {
        lemma_find_entry_none_char(entries.drop_first(), key);
        assert(forall|j: int|
            1 <= j < entries.len() ==> (#[trigger] entries[j]) == entries.drop_first()[j - 1]);
    }
}

/// Appending an entry changes only what an absent key finds.
proof fn lemma_find_entry_push(
    entries: Seq<(String, KeywordsCache)>,
    pair: (String, KeywordsCache),
    key: Seq<char>,
)
    ensures
        find_entry(entries.push(pair), key) == (match find_entry(entries, key) {
            Some(e) => Some(e),
            None => if pair.0@ == key {
                Some(pair.1)
            } else {
                None
            },
        }),
    decreases entries.len(),
{
    if entries.len() == 0 {
        assert(entries.push(pair)[0] == pair);
        assert(entries.push(pair).drop_first() =~= Seq::<(String, KeywordsCache)>::empty());
        assert(find_entry(entries.push(pair).drop_first(), key) is None);
    } else {
        assert(entries.push(pair)[0] == entries[0]);
        assert(entries.push(pair).drop_first() =~= entries.drop_first().push(pair));
        lemma_find_entry_push(entries.drop_first(), pair, key);
    }
}

/// Removing an entry whose key is not `key` does not change what `key`
/// finds.
proof fn lemma_find_entry_remove(entries: Seq<(String, KeywordsCache)>, i: int, key: Seq<char>)
    requires
        0 <= i < entries.len(),
        entries[i].0@ != key,
    ensures
        find_entry(entries.remove(i), key) == find_entry(entries, key),
    decreases entries.len(),
{
    if i == 0 {
        assert(entries.remove(0) =~= entries.drop_first());
    } else {
        assert(entries.remove(i)[0] == entries[0]);
        assert(entries.remove(i).drop_first() =~= entries.drop_first().remove(i - 1));
        lemma_find_entry_remove(entries.drop_first(), i - 1, key);
    }
}

/// After a fatal fetch failure for `key`: if an entry was cached its rule
/// set is kept and its expiry is pushed to the default lifetime past
/// `now`; if none was cached, nothing changes. Other keys are untouched.
pub open spec fn fatal_bump(
    old_m: KokoKeywords,
    new_m: KokoKeywords,
    key: Seq<char>,
    now: u64,
) -> bool {
    match old_m.spec_lookup(key) {
        Some(entry) => {
            &&& new_m.spec_entry(key) == Some(
                (entry.keywords@, spec_expiry(now, CACHE_EXPIRATION_DEFAULT)),
            )
            &&& forall|k: Seq<char>|
                k != key ==> #[trigger] new_m.spec_lookup(k) == old_m.spec_lookup(k)
        },
        None => new_m == old_m,
    }
}

/// The rule cache: one entry per cache key, plus the endpoint the rules
/// are fetched from.
pub struct KokoKeywords {
    entries: Vec<(String, KeywordsCache)>,
    url: String,
}

impl KokoKeywords {
    /// The stored entries, in storage order.
    pub closed spec fn entries_view(self) -> Seq<(String, KeywordsCache)> {
        self.entries@
    }

    /// The configured endpoint text.
    pub closed spec fn url_view(self) -> Seq<char> {
        self.url@
    }

    /// Well-formedness: no two entries share a cache key.
    pub open spec fn wf(self) -> bool {
        forall|i: int, j: int|
            0 <= i < j < self.entries_view().len() ==> (#[trigger] self.entries_view()[i]).0@ != (
            #[trigger] self.entries_view()[j]).0@
    }

    /// The entry cached under `key`, if any.
    pub open spec fn spec_lookup(self, key: Seq<char>) -> Option<KeywordsCache> {
        find_entry(self.entries_view(), key)
    }

    /// What a caller can observe of the entry under `key`: the rule set
    /// and the expiry instant.
    pub open spec fn spec_entry(self, key: Seq<char>) -> Option<(RuleSetView, u64)> {
        match self.spec_lookup(key) {
            Some(entry) => Some((entry.keywords@, entry.expires_at)),
            None => None,
        }
    }

    /// A cache holding the bootstrap entry under the reserved latest-rules
    /// key, so no query ever observes an empty cache.
    pub fn new(url: String, default: KeywordsCache) -> (r: Self)
        ensures
            r.wf(),
            r.url_view() == url@,
            r.spec_lookup("latest"@) == Some(default),
            forall|k: Seq<char>| k != "latest"@ ==> #[trigger] r.spec_lookup(k) is None,
    {
        let mut entries: Vec<(String, KeywordsCache)> = Vec::new();
        entries.push((String::from_str("latest"), default));
        let r = KokoKeywords { entries, url };
        proof {
            assert forall|k: Seq<char>| k != "latest"@ implies #[trigger] r.spec_lookup(k)
                is None by {
                assert(r.entries_view()[0].0@ == "latest"@);
                assert(r.entries_view().drop_first() =~= Seq::<(String, KeywordsCache)>::empty());
                assert(find_entry(r.entries_view().drop_first(), k) is None);
            }
        }
        r
    }

    /// The configured endpoint of the rule service.
    pub fn url(&self) -> (r: &String)
        ensures
            r@ == self.url_view(),
    {
        &self.url
    }

    /// The index of the entry under `key`, if one is cached.
    fn find_index(&self, key: &str) -> (r: Option<usize>)
        ensures
            match r {
                Some(idx) => idx < self.entries_view().len()
                    && self.entries_view()[idx as int].0@ == key@
                    && self.spec_lookup(key@) == Some(self.entries_view()[idx as int].1),
                None => self.spec_lookup(key@) is None,
            },
    {
        let mut i: usize = 0;
        proof {
            assert(self.entries_view().skip(0) =~= self.entries_view());
        }
        while i < self.entries.len()
            invariant
                i <= self.entries_view().len(),
                find_entry(self.entries_view(), key@) == find_entry(
                    self.entries_view().skip(i as int),
                    key@,
                ),
            decreases self.entries_view().len() - i,
        {
            proof {
                assert(self.entries_view().skip(i as int)[0] == self.entries_view()[i as int]);
                assert(self.entries_view().skip(i as int).drop_first() =~= self.entries_view()
                    .skip(i + 1));
            }
            let pair = &self.entries[i];
            if crate::text::str_eq(pair.0.as_str(), key) {
                return Some(i);
            }
            i = i + 1;
        }
        proof {
            assert(self.entries_view().skip(self.entries_view().len() as int) =~= Seq::<(
                String,
                KeywordsCache,
            )>::empty());
        }
        None
    }

    /// Removes and returns the entry under `key`, if one is cached.
    fn take(&mut self, key: &str) -> (r: Option<KeywordsCache>)
        requires
            old(self).wf(),
        ensures
            final(self).wf(),
            final(self).url_view() == old(self).url_view(),
            r == old(self).spec_lookup(key@),
            final(self).spec_lookup(key@) is None,
            r is None ==> *final(self) == *old(self),
            forall|k: Seq<char>|
                k != key@ ==> #[trigger] final(self).spec_lookup(k) == old(self).spec_lookup(k),
    {
        match self.find_index(key) {
            Some(i) => {
                let ghost old_entries = self.entries_view();
                let pair = self.entries.remove(i);
                proof {
                    let new_entries = self.entries_view();
                    assert(new_entries =~= old_entries.remove(i as int));
                    // no other entry holds this key, so it is now absent
                    assert forall|j: int|
                        0 <= j < new_entries.len() implies (#[trigger] new_entries[j]).0@
                        != key@ by {
                        if j < i {
                            assert(new_entries[j] == old_entries[j]);
                        } else {
                            assert(new_entries[j] == old_entries[j + 1]);
                        }
                    }
                    lemma_find_entry_absent(new_entries, key@);
                    // every other key finds what it found before
                    assert forall|k: Seq<char>| k != key@ implies #[trigger] find_entry(
                        new_entries,
                        k,
                    ) == find_entry(old_entries, k) by {
                        lemma_find_entry_remove(old_entries, i as int, k);
                    }
                    // distinctness survives dropping an entry
                    assert forall|a: int, b: int|
                        0 <= a < b < new_entries.len() implies (#[trigger] new_entries[a]).0@ != (
                        #[trigger] new_entries[b]).0@ by {
                        let a0 = if a < i { a } else { a + 1 };
                        let b0 = if b < i { b } else { b + 1 };
                        assert(new_entries[a] == old_entries[a0]);
                        assert(new_entries[b] == old_entries[b0]);
                    }
                }
                Some(pair.1)
            },
            None => None,
        }
    }

    /// Adds an entry under a key not currently cached.
    fn push_entry(&mut self, key: &str, entry: KeywordsCache)
        requires
            old(self).wf(),
            old(self).spec_lookup(key@) is None,
        ensures
            final(self).wf(),
            final(self).url_view() == old(self).url_view(),
            final(self).spec_lookup(key@) == Some(entry),
            forall|k: Seq<char>|
                k != key@ ==> #[trigger] final(self).spec_lookup(k) == old(self).spec_lookup(k),
    {
        let ghost old_entries = self.entries_view();
        self.entries.push((key.to_owned(), entry));
        proof {
            let new_entries = self.entries_view();
            let pair = new_entries[new_entries.len() - 1];
            assert(new_entries =~= old_entries.push(pair));
            lemma_find_entry_push(old_entries, pair, key@);
            assert forall|k: Seq<char>| k != key@ implies #[trigger] find_entry(new_entries, k)
                == find_entry(old_entries, k) by {
                lemma_find_entry_push(old_entries, pair, k);
            }
            lemma_find_entry_none_char(old_entries, key@);
            assert forall|a: int, b: int|
                0 <= a < b < new_entries.len() implies (#[trigger] new_entries[a]).0@ != (
                #[trigger] new_entries[b]).0@ by {
                if b < new_entries.len() - 1 {
                    assert(new_entries[a] == old_entries[a]);
                    assert(new_entries[b] == old_entries[b]);
                } else {
                    assert(new_entries[a] == old_entries[a]);
                }
            }
        }
    }

    /// Replaces (or adds) the entry under `key`.
    fn store(&mut self, key: &str, entry: KeywordsCache)
        requires
            old(self).wf(),
        ensures
            final(self).wf(),
            final(self).url_view() == old(self).url_view(),
            final(self).spec_lookup(key@) == Some(entry),
            forall|k: Seq<char>|
                k != key@ ==> #[trigger] final(self).spec_lookup(k) == old(self).spec_lookup(k),
    {
        let _stale = self.take(key);
        self.push_entry(key, entry);
    }

    /// Pushes the expiry of the entry under `key` (if any) to the default
    /// lifetime past `now`, keeping its rule set.
    fn bump_expiry(&mut self, key: &str, now: u64)
        requires
            old(self).wf(),
        ensures
            final(self).wf(),
            final(self).url_view() == old(self).url_view(),
            fatal_bump(*old(self), *final(self), key@, now),
    {
        match self.take(key) {
            Some(entry) => {
                let exp = expiry_at(now, CACHE_EXPIRATION_DEFAULT);
                self.push_entry(key, KeywordsCache { keywords: entry.keywords, expires_at: exp });
            },
            None => {},
        }
    }

    /// Applies the outcome of one fetch for `version`'s cache key, at
    /// instant `now`.
    ///
    /// A payload whose patterns all compile replaces the entry wholesale,
    /// fresh for the lifetime the response granted. A payload with an
    /// invalid pattern, an unusable body, or an unavailable service is
    /// surfaced as a retryable error and leaves the cache untouched. A
    /// fatal outcome (bad URL, bad credentials) is surfaced and bumps the
    /// existing entry's expiry so fatal failures do not refetch on every
    /// call.
    pub fn load_cache(&mut self, version: Option<&str>, now: u64, event: FetchEvent) -> (r: Result<
        (),
        KokoError,
    >)
        requires
            old(self).wf(),
        ensures
            final(self).wf(),
            final(self).url_view() == old(self).url_view(),
            match event {
                FetchEvent::Payload { preprocess, keywords, cache_control } => {
                    if all_compile(preprocess@, keywords.deep_view()) {
                        &&& r is Ok
                        &&& final(self).spec_entry(cache_key_spec(version)) == Some(
                            (
                                RuleSetView {
                                    preprocess: preprocess@,
                                    keywords: keywords.deep_view(),
                                },
                                spec_expiry(now, spec_ttl(cache_control)),
                            ),
                        )
                        &&& forall|k: Seq<char>|
                            k != cache_key_spec(version) ==> #[trigger] final(self).spec_lookup(k)
                                == old(self).spec_lookup(k)
                    } else {
                        r == Err::<(), KokoError>(KokoError::ParseError) && *final(self) == *old(self)
                    }
                },
                FetchEvent::PayloadInvalid => r == Err::<(), KokoError>(KokoError::ParseError)
                    && *final(self) == *old(self),
                FetchEvent::Unavailable => r == Err::<(), KokoError>(KokoError::CacheRefreshError)
                    && *final(self) == *old(self),
                FetchEvent::AuthRejected => r == Err::<(), KokoError>(KokoError::InvalidCredentials)
                    && fatal_bump(*old(self), *final(self), cache_key_spec(version), now),
                FetchEvent::UrlInvalid => r == Err::<(), KokoError>(KokoError::InvalidUrl)
                    && fatal_bump(*old(self), *final(self), cache_key_spec(version), now),
            },
    {
        let key = cache_key(version);
        match event {
            FetchEvent::Payload { preprocess, keywords, cache_control } => {
                match Keywords::build(preprocess.as_str(), &keywords) {
                    Ok(rule_set) => {
                        let ttl = ttl_seconds(&cache_control);
                        let exp = expiry_at(now, ttl);
                        self.store(
                            key.as_str(),
                            KeywordsCache { keywords: rule_set, expires_at: exp },
                        );
                        Ok(())
                    },
                    Err(e) => Err(e),
                }
            },
            FetchEvent::PayloadInvalid => Err(KokoError::ParseError),
            FetchEvent::Unavailable => Err(KokoError::CacheRefreshError),
            FetchEvent::AuthRejected => {
                self.bump_expiry(key.as_str(), now);
                Err(KokoError::InvalidCredentials)
            },
            FetchEvent::UrlInvalid => {
                self.bump_expiry(key.as_str(), now);
                Err(KokoError::InvalidUrl)
            },
        }
    }

    /// Evaluates a query against the entry currently cached for `version`,
    /// whatever its age: the step a caller takes right after a successful
    /// refresh.
    pub fn verify(&self, input: &str, filter: &str, version: Option<&str>) -> (r: Result<
        bool,
        KokoError,
    >)
        ensures
            r == spec_verify(*self, input@, filter@, version),
    {
        let clauses = match parse_filter(filter) {
            Ok(clauses) => clauses,
            Err(e) => {
                return Err(e);
            },
        };
        let key = cache_key(version);
        match self.find_index(key.as_str()) {
            Some(i) => {
                let entry = &self.entries[i];
                Ok(entry.1.keywords.matches_clauses(input, &clauses))
            },
            None => Err(KokoError::CacheRefreshError),
        }
    }
}

/// The answer a cached query can give without fetching: either the result
/// itself, or the word that a refresh must happen first.
pub enum MatchStep {
    /// The query is answered: the match result, or an error.
    Done(Result<bool, KokoError>),
    /// The entry for the key is absent or stale: fetch once, hand the
    /// outcome to `load_cache`, then read the answer with `verify`.
    RefreshRequired,
}

/// What one query decides from the cache state alone: a malformed filter
/// fails at once and never touches the cache; a fresh entry answers at
/// once; a missing or stale entry demands exactly one refresh.
pub open spec fn spec_match_step(
    m: KokoKeywords,
    input: Seq<char>,
    filter: Seq<char>,
    version: Option<&str>,
    now: u64,
) -> MatchStep {
    match parse_filter_spec(filter) {
        None => MatchStep::Done(Err(KokoError::InvalidFilter)),
        Some(clauses) => match m.spec_entry(cache_key_spec(version)) {
            Some((rules, expires_at)) => if now < expires_at {
                MatchStep::Done(Ok(rule_set_matches(rules, input, clauses)))
            } else {
                MatchStep::RefreshRequired
            },
            None => MatchStep::RefreshRequired,
        },
    }
}

/// The result of a query served from the cache without regard to age:
/// what `verify` returns.
pub open spec fn spec_verify(
    m: KokoKeywords,
    input: Seq<char>,
    filter: Seq<char>,
    version: Option<&str>,
) -> Result<bool, KokoError> {
    match parse_filter_spec(filter) {
        None => Err(KokoError::InvalidFilter),
        Some(clauses) => match m.spec_entry(cache_key_spec(version)) {
            Some((rules, _)) => Ok(rule_set_matches(rules, input, clauses)),
            None => Err(KokoError::CacheRefreshError),
        },
    }
}

/// One query against the cache: answers from the fresh entry for
/// `version`'s key, rejects a malformed filter outright, and otherwise
/// asks the caller for exactly one refresh.
pub fn koko_keywords_match(
    matcher: &KokoKeywords,
    input: &str,
    filter: &str,
    version: Option<&str>,
    now: u64,
) -> (r: MatchStep)
    ensures
        r == spec_match_step(*matcher, input@, filter@, version, now),
{
    let clauses = match parse_filter(filter) {
        Ok(clauses) => clauses,
        Err(_) => {
            return MatchStep::Done(Err(KokoError::InvalidFilter));
        },
    };
    let key = cache_key(version);
    match matcher.find_index(key.as_str()) {
        Some(i) => {
            let entry = &matcher.entries[i];
            if now < entry.1.expires_at {
                MatchStep::Done(Ok(entry.1.keywords.matches_clauses(input, &clauses)))
            } else {
                MatchStep::RefreshRequired
            }
        },
        None => MatchStep::RefreshRequired,
    }
}

} // verus!
