//! A rule cache and match engine for sensitive-keyword classification.
//!
//! A remote service curates a versioned set of tagged regular-expression
//! rules. This crate owns the compiled rule sets, decides when a cached set
//! is stale and must be refreshed, classifies refresh failures into fatal
//! and retryable ones, and evaluates a query (text plus an optional filter
//! expression) against the rule set currently held.
//!
//! Networking, configuration and process-boundary glue live outside this
//! crate: callers fetch the payload themselves and hand the outcome to the
//! cache as a plain value, so everything the cache decides is verified.

pub mod errors;
pub mod text;
pub mod pattern;
pub mod regex_decl;
pub mod filter;
pub mod rules;
pub mod cache;
pub mod laws;

pub use errors::KokoError;
pub use pattern::Pattern;
pub use rules::{Keyword, KeywordEntry, Keywords};
pub use cache::{FetchEvent, KeywordsCache, KokoKeywords, MatchStep, koko_keywords_match};
