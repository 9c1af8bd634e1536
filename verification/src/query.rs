//! The parameters of one query.

use vstd::prelude::*;

verus! {

/// The kind number of a short text note.
pub const TEXT_NOTE_KIND: u16 = 1;

/// How far back a query looks, in seconds.
pub const LOOKBACK_SECS: u64 = 300;

/// How long a query waits for the relays, in seconds.
pub const QUERY_TIMEOUT_SECS: u64 = 40;

/// What a query asks for: events of one kind that carry one hashtag, created
/// at or after `since` where it is set, waited for at most `timeout_secs`.
#[derive(Debug, Clone)]
pub struct QueryParams {
    pub kind: u16,
    pub hashtag: String,
    pub since: Option<u64>,
    pub timeout_secs: u64,
}

/// The earliest creation time that a query made at `now` accepts.
pub fn lookback_bound(now: u64) -> (since: u64)
    requires
        now >= LOOKBACK_SECS,
    ensures
        since == now - LOOKBACK_SECS,
{
    now - LOOKBACK_SECS
}

/// The query of one cycle that starts at `now` (seconds since the epoch):
/// short text notes with the hashtag `jobstr`, no older than the look-back
/// window. Every cycle is bounded this way; there is no query without a
/// lower bound. The bound is for the relays to apply: what they hand back is
/// written as it comes.
pub fn build_query(now: u64) -> (q: QueryParams)
    requires
        now >= LOOKBACK_SECS,
    ensures
        q.kind == TEXT_NOTE_KIND,
        q.hashtag@ == "jobstr"@,
        q.since == Some((now - LOOKBACK_SECS) as u64),
        q.timeout_secs == QUERY_TIMEOUT_SECS,
{
    QueryParams {
        kind: TEXT_NOTE_KIND,
        hashtag: "jobstr".to_owned(),
        since: Some(lookback_bound(now)),
        timeout_secs: QUERY_TIMEOUT_SECS,
    }
}

} // verus!
