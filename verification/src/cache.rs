//! The snapshot cache: one entry holding the most recent snapshot and its
//! capture timestamp, and the freshness rules that decide when a probe must
//! run. The caller holds the entry behind its lock, reads with
//! `serve_if_fresh`, and on a stale read probes and overwrites with `store`.

use crate::snapshot::SystemInfo;
use crate::snapshot::SystemView;
use vstd::prelude::*;

verus! {

/// Maximum age, in seconds, at which the polling endpoint serves the cached
/// snapshot without re-probing. Kept a little shorter than the client's
/// polling interval, so each window pays for at most one probe.
pub const MAXIMUM_HEARTBEAT: i64 = 15;

/// Maximum age, in seconds, the landing page tolerates before it forces a
/// refresh. Deliberately much larger than `MAXIMUM_HEARTBEAT`: the page is
/// rendered once per visit and tolerates staler data than the polling
/// endpoint.
pub const DISPLAY_HEARTBEAT: i64 = 60 * 60 * 24;

/// The single cache entry: the most recent snapshot plus its capture time.
pub struct CacheEntry {
    pub info: SystemInfo,
    pub captured_at: i64,
}

/// The view of the cache entry.
#[verifier::ext_equal]
pub ghost struct CacheView {
    pub info: SystemView,
    pub captured_at: int,
}

impl View for CacheEntry {
    type V = CacheView;

    open spec fn view(&self) -> CacheView {
        CacheView { info: self.info@, captured_at: self.captured_at as int }
    }
}

/// Capture times are epoch seconds, never negative.
pub open spec fn cache_wf(c: CacheView) -> bool {
    c.captured_at >= 0
}

/// An entry captured at `captured_at` is still fresh at `now` for a window.
pub open spec fn fresh_at(now: int, captured_at: int, window: int) -> bool {
    now - captured_at < window
}

/// What a read of the cache serves: the cached snapshot while it is fresh,
/// and nothing otherwise — the caller must then probe and refresh.
pub open spec fn spec_serve(c: CacheView, now: int, window: int) -> Option<SystemView> {
    if fresh_at(now, c.captured_at, window) {
        Some(c.info)
    } else {
        None
    }
}

/// The entry after a refresh overwrites the cache: the fresh snapshot under
/// the new capture time, the old entry gone whole.
pub open spec fn spec_store(c: CacheView, info: SystemView, now: int) -> CacheView {
    CacheView { info, captured_at: now }
}

/// The landing page treats the entry as stale only when it is more than
/// `DISPLAY_HEARTBEAT` seconds old; a capture time in the future counts as
/// age zero.
pub open spec fn display_stale(now: int, captured_at: int) -> bool {
    (if now >= captured_at {
        now - captured_at
    } else {
        0
    }) > DISPLAY_HEARTBEAT
}

impl CacheEntry {
    /// Creates the entry for a snapshot captured at the given time.
    pub fn new(info: SystemInfo, captured_at: i64) -> (c: CacheEntry)
        requires
            captured_at >= 0,
        ensures
            c@ == (CacheView { info: info@, captured_at: captured_at as int }),
            cache_wf(c@),
    {
        CacheEntry { info, captured_at }
    }

    /// Serves a copy of the cached snapshot when it is still fresh; `None`
    /// says the caller must probe and refresh.
    pub fn serve_if_fresh(&self, now: i64, window: i64) -> (r: Option<SystemInfo>)
        requires
            cache_wf(self@),
            now >= 0,
        ensures
            match r {
                Some(s) => spec_serve(self@, now as int, window as int) == Some(s@),
                None => spec_serve(self@, now as int, window as int) is None,
            },
    {
        if now - self.captured_at < window {
            Some(self.info.clone())
        } else {
            None
        }
    }

    /// Tells whether the landing page must force a refresh before rendering.
    pub fn is_display_stale(&self, now: i64) -> (r: bool)
        requires
            cache_wf(self@),
            now >= 0,
        ensures
            r == display_stale(now as int, self@.captured_at),
    {
        if now >= self.captured_at {
            now - self.captured_at > DISPLAY_HEARTBEAT
        } else {
            false
        }
    }

    /// Overwrites the whole entry with a freshly captured snapshot. Capture
    /// times never decrease, so `captured_at` stays monotonic for the
    /// process's lifetime.
    pub fn store(&mut self, info: SystemInfo, now: i64)
        requires
            cache_wf(old(self)@),
            now >= old(self)@.captured_at,
        ensures
            final(self)@ == spec_store(old(self)@, info@, now as int),
            cache_wf(final(self)@),
    {
        self.info = info;
        self.captured_at = now;
    }
}

/// Two reads within the freshness window serve bit-identical snapshots: both
/// hand out the cached capture, unchanged.
pub proof fn lemma_get_current_idempotent(c: CacheView, n1: int, n2: int, window: int)
    requires
        fresh_at(n1, c.captured_at, window),
        fresh_at(n2, c.captured_at, window),
    ensures
        spec_serve(c, n1, window) == spec_serve(c, n2, window),
        spec_serve(c, n1, window) == Some(c.info),
{
}

/// One second past the freshness window the cache serves nothing, so the
/// stale caller probes; the entry it stores carries the new call time, and a
/// read at that time serves exactly the fresh snapshot.
pub proof fn lemma_staleness_triggers_refresh(c: CacheView, t0: int, now: int, s: SystemView)
    requires
        c.captured_at == t0,
        now == t0 + MAXIMUM_HEARTBEAT + 1,
    ensures
        spec_serve(c, now, MAXIMUM_HEARTBEAT as int) is None,
        spec_store(c, s, now).captured_at == now,
        spec_serve(spec_store(c, s, now), now, MAXIMUM_HEARTBEAT as int) == Some(s),
{
}

} // verus!
