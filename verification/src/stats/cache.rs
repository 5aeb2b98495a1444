//! Caching for statistics to avoid slow startup.
//!
//! The cache's file is the caller's; when a cached reading is still good
//! is said here.

use vstd::prelude::*;

verus! {

/// Cached traffic ratio.
#[derive(Debug, Clone, Copy, PartialEq, Eq)]
pub struct CachedTrafficRatio {
    pub accepted: u64,
    pub blocked: u64,
}

impl Default for CachedTrafficRatio {
    fn default() -> (r: Self)
        ensures
            r.accepted == 0,
            r.blocked == 0,
    {
        CachedTrafficRatio { accepted: 0, blocked: 0 }
    }
}

/// Statistics cache manager.
#[derive(Debug, Clone, Copy)]
pub struct StatsCache {
    /// Maximum age in seconds before the cache is considered stale.
    pub max_age_secs: u64,
}

/// The age in seconds at `now` of a reading taken at `timestamp`: zero for
/// a reading from the future.
pub open spec fn age(now: u64, timestamp: u64) -> int {
    if now >= timestamp {
        now - timestamp
    } else {
        0
    }
}

impl Default for StatsCache {
    fn default() -> (r: Self)
        ensures
            r.max_age_secs == 3600,
    {
        StatsCache::new()
    }
}

impl StatsCache {
    /// Create a new cache manager, for readings of up to one hour.
    pub fn new() -> (r: Self)
        ensures
            r.max_age_secs == 3600,
    {
        StatsCache { max_age_secs: 3600 }
    }

    /// Whether a reading taken at `timestamp` is still good at `now`, both
    /// in seconds since the epoch.
    pub fn is_fresh(&self, now: u64, timestamp: u64) -> (r: bool)
        ensures
            r == (age(now, timestamp) <= self.max_age_secs),
    {
        let age: u64 = if now >= timestamp {
            now - timestamp
        } else {
            0
        };
        age <= self.max_age_secs
    }
}

} // verus!
