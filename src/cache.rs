//! The freshness policy of on-disk caches.
//!
//! A cache file is fresh when it is younger than its time-to-live (if it has
//! one) and none of its freshness files was modified after it. Reading the
//! files and their modification times is left to the caller, who hands the
//! times in; times are in seconds.
use crate::codec::{decoded, encoded, lemma_codec_round_trip};
use vstd::prelude::*;

verus! {

/// A cache file, how long it stays fresh, and the files that invalidate it.
#[derive(Debug, Clone)]
pub struct CacheManager {
    pub cache_file_path: String,
    pub fresh_duration: Option<u64>,
    pub fresh_files: Vec<String>,
}

/// What a read through the cache does.
#[derive(Debug, Clone, Copy, PartialEq, Eq, Structural)]
pub enum CacheAction {
    /// Decode the cache file and return its value; compute only if decoding fails.
    UseCached,
    /// Compute the value and write it to the cache file.
    Compute,
}

/// Fresh: within the time-to-live, if any, and no freshness file (present)
/// modified after the cache file.
pub open spec fn cache_is_fresh(
    ttl: Option<u64>,
    now: u64,
    cache_mtime: u64,
    fresh_mtimes: Seq<Option<u64>>,
) -> bool {
    &&& match ttl {
        Some(d) => (now as int) - (cache_mtime as int) < d as int,
        None => true,
    }
    &&& forall|i: int|
        0 <= i < fresh_mtimes.len() ==> match #[trigger] fresh_mtimes[i] {
            Some(m) => m <= cache_mtime,
            None => true,
        }
}

/// The action for a cache file with modification time `cache_mtime`, if it exists.
pub open spec fn cache_action(
    ttl: Option<u64>,
    now: u64,
    cache_mtime: Option<u64>,
    fresh_mtimes: Seq<Option<u64>>,
) -> CacheAction {
    match cache_mtime {
        Some(m) => if cache_is_fresh(ttl, now, m, fresh_mtimes) {
            CacheAction::UseCached
        } else {
            CacheAction::Compute
        },
        None => CacheAction::Compute,
    }
}

impl CacheManager {
    /// A cache at `cache_file_path` that stays fresh forever and has no
    /// freshness files.
    pub fn new(cache_file_path: String) -> (r: CacheManager)
        ensures
            r.cache_file_path == cache_file_path,
            r.fresh_duration is None,
            r.fresh_files@.len() == 0,
    {
        CacheManager { cache_file_path, fresh_duration: None, fresh_files: Vec::new() }
    }

    /// The same cache with time-to-live `duration` (none: no limit).
    pub fn with_fresh_duration(self, duration: Option<u64>) -> (r: CacheManager)
        ensures
            r.cache_file_path == self.cache_file_path,
            r.fresh_duration == duration,
            r.fresh_files == self.fresh_files,
    {
        CacheManager { fresh_duration: duration, ..self }
    }

    /// The same cache, also invalidated by changes to `path`.
    pub fn with_fresh_file(self, path: String) -> (r: CacheManager)
        ensures
            r.cache_file_path == self.cache_file_path,
            r.fresh_duration == self.fresh_duration,
            r.fresh_files@ == self.fresh_files@.push(path),
    {
        let mut files = self.fresh_files;
        files.push(path);
        CacheManager { fresh_files: files, ..self }
    }

    /// Whether a cache file modified at `cache_mtime` is fresh at `now`, given
    /// the modification times of the freshness files (`None` for an absent one).
    pub fn is_fresh(&self, now: u64, cache_mtime: u64, fresh_mtimes: &Vec<Option<u64>>) -> (r: bool)
        ensures
            r == cache_is_fresh(self.fresh_duration, now, cache_mtime, fresh_mtimes@),
    {
        match self.fresh_duration {
            Some(d) => {
                if cache_mtime <= now && now - cache_mtime >= d {
                    return false;
                }
            },
            None => {},
        }
        let mut i: usize = 0;
        while i < fresh_mtimes.len()
            invariant
                i <= fresh_mtimes.len(),
                forall|k: int|
                    0 <= k < i ==> match #[trigger] fresh_mtimes@[k] {
                        Some(m) => m <= cache_mtime,
                        None => true,
                    },
            decreases fresh_mtimes.len() - i,
        {
            match fresh_mtimes[i] {
                Some(m) => {
                    if m > cache_mtime {
                        return false;
                    }
                },
                None => {},
            }
            i = i + 1;
        }
        true
    }

    /// What a read does: use the cache file when it exists and is fresh,
    /// compute otherwise.
    pub fn action(&self, now: u64, cache_mtime: Option<u64>, fresh_mtimes: &Vec<Option<u64>>) -> (r:
        CacheAction)
        ensures
            r == cache_action(self.fresh_duration, now, cache_mtime, fresh_mtimes@),
    {
        match cache_mtime {
            Some(m) => {
                if self.is_fresh(now, m, fresh_mtimes) {
                    CacheAction::UseCached
                } else {
                    CacheAction::Compute
                }
            },
            None => CacheAction::Compute,
        }
    }
}

/// A value written to a cache with no time-to-live and no freshness files is
/// used on every later read, so it is computed once, and it reads back as the
/// very value that was written.
pub proof fn lemma_cache_round_trip(
    value: Seq<Seq<char>>,
    written: u64,
    now: u64,
    fresh_mtimes: Seq<Option<u64>>,
)
    requires
        fresh_mtimes.len() == 0,
        forall|k: int| 0 <= k < value.len() ==> #[trigger] value[k].len() <= u64::MAX,
    ensures
        cache_action(None, now, Some(written), fresh_mtimes) == CacheAction::UseCached,
        decoded(encoded(value)) == Some(value),
{
    lemma_codec_round_trip(value);
}

/// Once a freshness file is modified after the cache file, the next read
/// computes the value again, whatever the time-to-live.
pub proof fn lemma_fresh_file_invalidates(
    ttl: Option<u64>,
    now: u64,
    cache_mtime: u64,
    fresh_mtimes: Seq<Option<u64>>,
    i: int,
)
    requires
        0 <= i < fresh_mtimes.len(),
        fresh_mtimes[i] matches Some(m) && m > cache_mtime,
    ensures
        cache_action(ttl, now, Some(cache_mtime), fresh_mtimes) == CacheAction::Compute,
{
    assert(!cache_is_fresh(ttl, now, cache_mtime, fresh_mtimes)) by {
        let _ = fresh_mtimes[i];
    }
}

} // verus!
