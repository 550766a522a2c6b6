//! The table source resolver: where the raw table text comes from.
//!
//! Three strategies: the bundled asset, a caller-supplied string, and a
//! remote source guarded by a time-boxed local cache file. The resolver
//! performs no I/O itself: it is a state machine whose non-terminal states
//! name the one outside action a driver must perform next (stat the cache
//! file, read it, fetch the remote table, write the cache), and whose
//! transitions decide what follows from each outcome. A host drives it with
//! plain values, so the decisions are verified for every outcome of the
//! I/O. Concurrent writers to the cache file are not coordinated: the
//! content is regenerable, so the last writer wins.

use crate::colors::BUNDLED_COLORS_JSON;
use crate::errors::NamedColorsError;
use vstd::prelude::*;

verus! {

/// The default cache time-to-live: twenty-four hours, in seconds.
pub const DEFAULT_TTL_SECONDS: u64 = 86400;

/// Where the text of a color table comes from.
pub enum TableSource {
    /// The asset bundled with the library; never touches the outside.
    Bundled,
    /// A string the caller supplies, taken verbatim; no I/O.
    UserProvided { json: String },
    /// A remote table at `url`, guarded by the cache file at `cache_path`
    /// with the given time-to-live in seconds.
    RemoteCached { url: String, cache_path: String, ttl_seconds: u64 },
}

/// A resolution in progress. Each non-terminal state names the outside
/// action the driver performs next; `Done` and `Failed` are terminal.
pub enum ResolveState {
    /// Stat the cache file: does it exist, and when was it last modified?
    CheckCache,
    /// Read the cache file.
    ReadCache,
    /// Fetch the remote table.
    Fetch,
    /// Write the fetched text to the cache file. The text is returned to
    /// the caller afterwards whether or not the write succeeds:
    /// availability of the fetched value takes priority over cache
    /// durability.
    WriteCache { json: String },
    /// Resolution produced the table text.
    Done { json: String },
    /// Resolution failed.
    Failed { error: NamedColorsError },
}

/// The outcome of the outside action a state asked for.
pub enum ResolveEvent {
    /// The cache file's existence and modification time, in seconds since
    /// an epoch, together with the current time on the same clock.
    CacheChecked { found: bool, modified_secs: u64, now_secs: u64 },
    /// The cache file was read.
    CacheReadOk { json: String },
    /// The cache file could not be read.
    CacheReadErr,
    /// The remote table arrived with a success status and a text body.
    FetchOk { json: String },
    /// The fetch failed: a network error or a non-success response.
    FetchErr { detail: String },
    /// The cache file was written.
    CacheWriteOk,
    /// The cache file could not be written.
    CacheWriteErr,
}

/// A cache entry modified at `modified_secs` is fresh at `now_secs` while
/// it is younger than `ttl_seconds`.
pub open spec fn spec_is_fresh(now_secs: u64, modified_secs: u64, ttl_seconds: u64) -> bool {
    now_secs - modified_secs < ttl_seconds
}

/// Decides whether a cache entry is still fresh.
pub fn is_fresh(now_secs: u64, modified_secs: u64, ttl_seconds: u64) -> (fresh: bool)
    ensures
        fresh == spec_is_fresh(now_secs, modified_secs, ttl_seconds),
{
    if modified_secs > now_secs {
        true
    } else {
        now_secs - modified_secs < ttl_seconds
    }
}

/// The transition relation of the resolver, one step per outside outcome:
/// a fresh, existing cache entry is read and a stale or absent one
/// refetched; a failed cache read falls back to fetching; a failed fetch
/// ends the resolution with a fetch error; a fetched text is written to the
/// cache and then returned whether or not the write succeeded. An event
/// that does not answer the state's question leaves the state unchanged.
pub open spec fn spec_resolve_step(
    state: ResolveState,
    ttl_seconds: u64,
    event: ResolveEvent,
) -> ResolveState {
    match (state, event) {
        (
            ResolveState::CheckCache,
            ResolveEvent::CacheChecked { found, modified_secs, now_secs },
        ) => if found && spec_is_fresh(now_secs, modified_secs, ttl_seconds) {
            ResolveState::ReadCache
        } else {
            ResolveState::Fetch
        },
        (ResolveState::ReadCache, ResolveEvent::CacheReadOk { json }) => ResolveState::Done {
            json,
        },
        (ResolveState::ReadCache, ResolveEvent::CacheReadErr) => ResolveState::Fetch,
        (ResolveState::Fetch, ResolveEvent::FetchOk { json }) => ResolveState::WriteCache { json },
        (ResolveState::Fetch, ResolveEvent::FetchErr { detail }) => ResolveState::Failed {
            error: NamedColorsError::FetchError { detail },
        },
        (ResolveState::WriteCache { json }, ResolveEvent::CacheWriteOk) => ResolveState::Done {
            json,
        },
        (ResolveState::WriteCache { json }, ResolveEvent::CacheWriteErr) => ResolveState::Done {
            json,
        },
        (s, _) => s,
    }
}

/// Advances a resolution by one step, as [`spec_resolve_step`] decides.
pub fn resolve_step(state: ResolveState, ttl_seconds: u64, event: ResolveEvent) -> (next:
    ResolveState)
    ensures
        next == spec_resolve_step(state, ttl_seconds, event),
{
    match (state, event) {
        (
            ResolveState::CheckCache,
            ResolveEvent::CacheChecked { found, modified_secs, now_secs },
        ) => {
            if found && is_fresh(now_secs, modified_secs, ttl_seconds) {
                ResolveState::ReadCache
            } else {
                ResolveState::Fetch
            }
        },
        (ResolveState::ReadCache, ResolveEvent::CacheReadOk { json }) => ResolveState::Done {
            json,
        },
        (ResolveState::ReadCache, ResolveEvent::CacheReadErr) => ResolveState::Fetch,
        (ResolveState::Fetch, ResolveEvent::FetchOk { json }) => ResolveState::WriteCache { json },
        (ResolveState::Fetch, ResolveEvent::FetchErr { detail }) => ResolveState::Failed {
            error: NamedColorsError::FetchError { detail },
        },
        (ResolveState::WriteCache { json }, ResolveEvent::CacheWriteOk) => ResolveState::Done {
            json,
        },
        (ResolveState::WriteCache { json }, ResolveEvent::CacheWriteErr) => ResolveState::Done {
            json,
        },
        (s, _) => s,
    }
}

/// Begins a resolution: the bundled asset and a user-supplied string
/// resolve at once to their text; a remote source starts by checking the
/// cache file.
pub fn initial_state(source: TableSource) -> (state: ResolveState)
    ensures
        source is Bundled ==> (state matches ResolveState::Done { json } && json@
            == BUNDLED_COLORS_JSON@),
        source matches TableSource::UserProvided { json: supplied } ==> (
        state matches ResolveState::Done { json } && json == supplied),
        source is RemoteCached ==> state is CheckCache,
{
    match source {
        TableSource::Bundled => ResolveState::Done { json: BUNDLED_COLORS_JSON.to_owned() },
        TableSource::UserProvided { json } => ResolveState::Done { json },
        TableSource::RemoteCached { url: _, cache_path: _, ttl_seconds: _ } => {
            ResolveState::CheckCache
        },
    }
}

/// Cache freshness, first half: when the cache file exists and is fresh,
/// the resolver reads it and performs no fetch; a successful read ends the
/// resolution with the cached text.
pub proof fn lemma_fresh_cache_skips_fetch(
    ttl_seconds: u64,
    modified_secs: u64,
    now_secs: u64,
    json: String,
)
    requires
        spec_is_fresh(now_secs, modified_secs, ttl_seconds),
    ensures
        spec_resolve_step(
            ResolveState::CheckCache,
            ttl_seconds,
            ResolveEvent::CacheChecked { found: true, modified_secs, now_secs },
        ) == ResolveState::ReadCache,
        spec_resolve_step(
            ResolveState::ReadCache,
            ttl_seconds,
            ResolveEvent::CacheReadOk { json },
        ) == (ResolveState::Done { json }),
{
}

/// Cache freshness, second half: when the cache file is stale or absent,
/// the resolver fetches; a successful fetch overwrites the cache file, and
/// the fetched text is returned whether or not that write succeeds.
pub proof fn lemma_stale_cache_fetches(
    ttl_seconds: u64,
    found: bool,
    modified_secs: u64,
    now_secs: u64,
    json: String,
)
    requires
        !found || !spec_is_fresh(now_secs, modified_secs, ttl_seconds),
    ensures
        spec_resolve_step(
            ResolveState::CheckCache,
            ttl_seconds,
            ResolveEvent::CacheChecked { found, modified_secs, now_secs },
        ) == ResolveState::Fetch,
        spec_resolve_step(ResolveState::Fetch, ttl_seconds, ResolveEvent::FetchOk { json }) == (
        ResolveState::WriteCache { json }),
        spec_resolve_step(
            ResolveState::WriteCache { json },
            ttl_seconds,
            ResolveEvent::CacheWriteOk,
        ) == (ResolveState::Done { json }),
        spec_resolve_step(
            ResolveState::WriteCache { json },
            ttl_seconds,
            ResolveEvent::CacheWriteErr,
        ) == (ResolveState::Done { json }),
{
}

} // verus!
