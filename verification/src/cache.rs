//! The cached list of worktrees and when it goes stale. Times are nanoseconds since the
//! Unix epoch, durations are nanoseconds.
use vstd::prelude::*;
use crate::error::HnError;
use crate::vcs::Worktree;
use crate::paths::{path_join, spec_path_join};

verus! {

/// How long a cached list stays valid unless told otherwise: 30 seconds.
pub const DEFAULT_TTL_NANOS: u128 = 30_000_000_000;

/// A cached list of worktrees, with the time it was taken and how long it stays valid.
#[derive(Debug)]
pub struct CachedRegistry {
    pub worktrees: Vec<Worktree>,
    pub cached_at: u128,
    pub ttl: u128,
}

impl CachedRegistry {
    /// A cache of `worktrees` taken at `now`, valid for `ttl`.
    pub fn new(worktrees: Vec<Worktree>, ttl: u128, now: u128) -> (r: Self)
        ensures
            r.worktrees == worktrees,
            r.ttl == ttl,
            r.cached_at == now,
    {
        CachedRegistry { worktrees, cached_at: now, ttl }
    }

    /// Whether the cache is still valid at `now`: younger than its time to live. A cache
    /// from the future (the clock went back) is not valid.
    pub fn is_valid(&self, now: u128) -> (r: bool)
        ensures
            r == (self.cached_at <= now && now - self.cached_at < self.ttl),
    {
        if now < self.cached_at {
            false
        } else {
            now - self.cached_at < self.ttl
        }
    }

    /// The age of the cache at `now`; an error when it was taken after `now`.
    pub fn age(&self, now: u128) -> (r: Result<u128, HnError>)
        ensures
            self.cached_at <= now ==> r == Ok::<u128, HnError>((now - self.cached_at) as u128),
            now < self.cached_at ==> (r matches Err(HnError::ConfigError(m)) && m@
                == "Failed to get cache age: second time provided was later than self"@),
    {
        if now < self.cached_at {
            return Err(
                HnError::ConfigError(
                    String::from_str(
                        "Failed to get cache age: second time provided was later than self",
                    ),
                ),
            );
        }
        Ok(now - self.cached_at)
    }
}

/// The time to live of a cache: the one given, or 30 seconds.
pub fn cache_ttl(ttl: Option<u128>) -> (r: u128)
    ensures
        r == match ttl {
            Some(t) => t,
            None => DEFAULT_TTL_NANOS,
        },
{
    match ttl {
        Some(t) => t,
        None => DEFAULT_TTL_NANOS,
    }
}

/// What a lookup at `now` yields from what was read (`None` when there is no file): the
/// cached worktrees while they are valid, else nothing.
pub open spec fn cache_lookup(cached: Option<CachedRegistry>, now: u128) -> Option<Vec<Worktree>> {
    match cached {
        None => None,
        Some(c) => if c.cached_at <= now && now - c.cached_at < c.ttl {
            Some(c.worktrees)
        } else {
            None
        },
    }
}

/// A lookup gives back exactly what an update wrote, from the moment it was written until
/// its time to live runs out, and nothing before or after; a deleted file gives nothing.
pub proof fn law_cache_returns_what_was_written(
    written: CachedRegistry,
    worktrees: Vec<Worktree>,
    at: u128,
    ttl: u128,
    now: u128,
)
    requires
        written.worktrees == worktrees,
        written.cached_at == at,
        written.ttl == ttl,
    ensures
        (at <= now && now - at < ttl) ==> cache_lookup(Some(written), now) == Some(worktrees),
        !(at <= now && now - at < ttl) ==> cache_lookup(Some(written), now) is None,
        cache_lookup(None, now) is None,
{
}

/// Where the cache of one repository lives, and how long its entries stay valid. Reading
/// and writing the file (under a lock) is the caller's; this type decides what a read
/// yields and what a write stores.
#[derive(Debug)]
pub struct RegistryCache {
    cache_file: String,
    ttl: u128,
}

/// What `RegistryCache::stats` reports of a cache file.
#[derive(Debug)]
pub struct CacheStats {
    pub valid: bool,
    pub age: u128,
    pub worktree_count: usize,
    pub size_bytes: u64,
}

impl RegistryCache {
    /// The file name of the cache inside the state directory.
    pub open spec fn file_name() -> Seq<char> {
        ".registry-cache"@
    }

    /// The path of the cache file.
    pub closed spec fn file_view(&self) -> Seq<char> {
        self.cache_file@
    }

    /// The time to live of the entries written.
    pub closed spec fn ttl_view(&self) -> u128 {
        self.ttl
    }

    /// The cache kept in `state_dir`, with time to live `ttl` (30 seconds when `None`).
    pub fn new(state_dir: &str, ttl: Option<u128>) -> (r: Self)
        ensures
            r.file_view() == spec_path_join(state_dir@, Self::file_name()),
            r.ttl_view() == match ttl {
                Some(t) => t,
                None => DEFAULT_TTL_NANOS,
            },
    {
        let cache_file = path_join(state_dir, ".registry-cache");
        proof {
            reveal_strlit(".registry-cache");
        }
        RegistryCache { cache_file, ttl: cache_ttl(ttl) }
    }

    /// The path of the cache file.
    pub fn cache_file(&self) -> (r: &str)
        ensures
            r@ == self.file_view(),
    {
        self.cache_file.as_str()
    }

    /// The time to live of the entries written.
    pub fn ttl(&self) -> (r: u128)
        ensures
            r == self.ttl_view(),
    {
        self.ttl
    }

    /// What a lookup at `now` yields, given what was read from the file (`None` when
    /// there is no file): the cached worktrees while they are valid, else nothing.
    pub fn get(&self, cached: Option<CachedRegistry>, now: u128) -> (r: Option<Vec<Worktree>>)
        ensures
            r == cache_lookup(cached, now),
    {
        match cached {
            None => None,
            Some(c) => {
                if c.is_valid(now) {
                    Some(c.worktrees)
                } else {
                    None
                }
            },
        }
    }

    /// The record that an update at `now` writes: `worktrees`, stamped with `now` and
    /// this cache's time to live.
    pub fn set(&self, worktrees: Vec<Worktree>, now: u128) -> (r: CachedRegistry)
        ensures
            r.worktrees == worktrees,
            r.cached_at == now,
            r.ttl == self.ttl_view(),
    {
        CachedRegistry::new(worktrees, self.ttl, now)
    }

    /// The statistics of a cache file, given what was read from it (`None` when there is
    /// no file) and its size in bytes; an error when the record was written after `now`.
    pub fn stats(&self, cached: Option<CachedRegistry>, now: u128, size_bytes: u64) -> (r: Result<
        Option<CacheStats>,
        HnError,
    >)
        ensures
            match cached {
                None => r == Ok::<Option<CacheStats>, HnError>(None),
                Some(c) => if c.cached_at <= now {
                    r matches Ok(Some(s)) && s.valid == (now - c.cached_at < c.ttl) && s.age
                        == now - c.cached_at && s.worktree_count == c.worktrees.len()
                        && s.size_bytes == size_bytes
                } else {
                    r matches Err(HnError::ConfigError(_))
                },
            },
    {
        match cached {
            None => Ok(None),
            Some(c) => {
                let valid = c.is_valid(now);
                let age = match c.age(now) {
                    Ok(a) => a,
                    Err(e) => {
                        return Err(e);
                    },
                };
                Ok(Some(CacheStats { valid, age, worktree_count: c.worktrees.len(), size_bytes }))
            },
        }
    }
}

} // verus!
