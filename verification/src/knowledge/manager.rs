//! When a page is fetched and indexed.

use vstd::prelude::*;
use crate::clock::Timestamp;
use crate::config::KnowledgeConfig;
use crate::knowledge::types::IndexResult;
use crate::text::{chars_of, occurs_at, push_text, starts_with, string_of, trim, trimmed};

verus! {

/// The seconds after which a request for a page is given up.
pub const FETCH_TIMEOUT_SECONDS: u64 = 30;

/// The name under which pages are requested.
pub const USER_AGENT: &'static str = "Octobrain/1.0";

/// Whether an address starts with `http://` or `https://`.
pub open spec fn has_http_scheme(url: Seq<char>) -> bool {
    occurs_at(url, "http://"@, 0) || occurs_at(url, "https://"@, 0)
}

/// Why an address is not fetched, if it is not: it is empty once trimmed,
/// or it does not start with `http://` or `https://`.
pub open spec fn url_refusal(url: Seq<char>) -> Option<Seq<char>> {
    if trimmed(url).len() == 0 {
        Some("URL cannot be empty"@)
    } else if !has_http_scheme(trimmed(url)) {
        Some("Invalid URL: must start with http:// or https://, got: "@ + trimmed(url))
    } else {
        None
    }
}

/// Whether an address starts with `http://` or `https://`.
pub fn is_http_url(url: &str) -> (r: bool)
    ensures
        r == has_http_scheme(url@),
{
    let all = chars_of(url);
    let plain = chars_of("http://");
    let secure = chars_of("https://");
    starts_with(&all, &plain) || starts_with(&all, &secure)
}

/// Accepts an address that can be fetched; otherwise says what is wrong
/// with it.
pub fn validate_url(url: &str) -> (r: Result<(), String>)
    ensures
        match r {
            Ok(_) => url_refusal(url@) is None,
            Err(e) => url_refusal(url@) == Some(e@),
        },
{
    let t = trim(url);
    if t.as_str().unicode_len() == 0 {
        return Err("URL cannot be empty".to_owned());
    }
    if !is_http_url(t.as_str()) {
        let mut text: Vec<char> = Vec::new();
        push_text(&mut text, "Invalid URL: must start with http:// or https://, got: ");
        push_text(&mut text, t.as_str());
        return Err(string_of(&text));
    }
    Ok(())
}

/// Whether a page last checked at `last_checked` is outdated at `now`:
/// more than `outdating_days` days have passed.
pub open spec fn is_outdated(last_checked: Timestamp, now: Timestamp, outdating_days: int) -> bool {
    now.millis - last_checked.millis > outdating_days * crate::clock::MILLIS_PER_DAY
}

/// Whether a page needs indexing at `now`: it was never indexed, or it is
/// outdated.
pub fn needs_indexing(config: &KnowledgeConfig, last_checked: Option<Timestamp>, now: Timestamp) -> (r:
    bool)
    ensures
        r == match last_checked {
            None => true,
            Some(at) => is_outdated(at, now, config.outdating_days as int),
        },
{
    match last_checked {
        None => true,
        Some(at) => {
            let passed: i128 = now.millis as i128 - at.millis as i128;
            let allowed: i128 = (config.outdating_days as i128) * 86_400_000i128;
            passed > allowed
        },
    }
}

/// What is done about a page that is asked to be indexed.
#[derive(Clone, Copy, Debug, PartialEq, Eq, Structural)]
pub enum IndexDecision {
    /// The page is fresh and has not changed: nothing is written.
    Cached,
    /// The page is written anew.
    Reindex,
}

/// What is done about a page whose stored hash is `stored_hash`, last
/// checked at `last_checked`, when its content now hashes to `new_hash`:
/// nothing where it is not outdated and the hashes agree; else it is
/// written anew.
pub fn index_decision(
    config: &KnowledgeConfig,
    stored: Option<(&str, Timestamp)>,
    new_hash: &str,
    now: Timestamp,
) -> (r: IndexDecision)
    ensures
        r == match stored {
            Some((hash, at)) => if !is_outdated(at, now, config.outdating_days as int) && hash@
                == new_hash@ {
                IndexDecision::Cached
            } else {
                IndexDecision::Reindex
            },
            None => IndexDecision::Reindex,
        },
{
    match stored {
        Some((hash, at)) => {
            if !needs_indexing(config, Some(at), now) && crate::text::same_text(hash, new_hash) {
                IndexDecision::Cached
            } else {
                IndexDecision::Reindex
            }
        },
        None => IndexDecision::Reindex,
    }
}

/// What indexing reports: for a cached page, no chunks and no change;
/// else the number of chunks written and a change.
pub fn index_result(url: &str, decision: IndexDecision, chunks_written: usize) -> (r: IndexResult)
    ensures
        r.url@ == url@,
        decision == IndexDecision::Cached ==> r.chunks_created == 0 && r.was_cached
            && !r.content_changed,
        decision == IndexDecision::Reindex ==> r.chunks_created == chunks_written && !r.was_cached
            && r.content_changed,
{
    match decision {
        IndexDecision::Cached => IndexResult {
            url: url.to_owned(),
            chunks_created: 0,
            was_cached: true,
            content_changed: false,
        },
        IndexDecision::Reindex => IndexResult {
            url: url.to_owned(),
            chunks_created: chunks_written,
            was_cached: false,
            content_changed: true,
        },
    }
}

} // verus!
