//! Cache orchestration: the fresh / stale / offline / incremental decision
//! policy on top of a storage backend.
//!
//! Each fetch strategy is split into a *start* step, which decides from the
//! cache alone whether a network call is needed, and a *finish* step, which
//! folds the network outcome back into the cache. The closure drivers
//! ([`CacheLayer::fetch_list`], [`CacheLayer::fetch_incremental`],
//! [`CacheLayer::fetch_one`]) run both steps around a caller-supplied
//! fetcher; an asynchronous caller can run the two steps itself around an
//! awaited network call.

use vstd::prelude::*;
use crate::cache::{CacheResult, CacheSource, Cacheable, opt_view, seq_views};
use crate::storage::{
    CacheStorage, find_query, members_of, rows_of, spec_dedup, spec_entity_lookup,
    spec_existing_rows, spec_merge_rows, spec_query_lookup, spec_query_row_of,
    spec_query_row_of_rows, spec_row_of, upsert_entity, upsert_query, spec_upsert_rows,
};

verus! {

/// Seconds after which cached data is considered stale by default.
pub const DEFAULT_STALE_TIME: i64 = 300;

/// Is a record written at `cached_at` stale at `now`?
pub open spec fn spec_is_stale(stale_time: int, cached_at: int, now: int) -> bool {
    now - cached_at > stale_time
}

/// Outcome of the local step of an incremental fetch: either serve fresh
/// cached data, or fetch with the given high-water mark as a filter.
pub enum FetchStep<D> {
    /// Cache hit and fresh: serve this, no network call.
    Serve(CacheResult<D>),
    /// Call the fetcher, restricted to entities changed after the mark.
    Fetch(Option<String>),
}

/// Cache layer that manages the caching policy around network fetching.
///
/// It owns a storage backend and a configurable stale time. Data younger
/// than the stale time is served from cache without touching the network;
/// older data triggers a refresh, falling back to the stale copy when the
/// refresh fails. Errors reach the caller only when there is no cached data
/// at all.
pub struct CacheLayer<S: CacheStorage> {
    storage: S,
    stale_time: i64,
}

impl<S: CacheStorage> CacheLayer<S> {
    /// The storage backend.
    pub closed spec fn spec_storage(&self) -> S {
        self.storage
    }

    /// The configured stale time, in seconds.
    pub closed spec fn spec_stale_time(&self) -> int {
        self.stale_time as int
    }

    /// Create a cache layer with the default stale time.
    pub fn new(storage: S) -> (r: Self)
        ensures
            r.spec_storage() == storage,
            r.spec_stale_time() == DEFAULT_STALE_TIME as int,
    {
        CacheLayer { storage, stale_time: DEFAULT_STALE_TIME }
    }

    /// Set the stale time for cached data.
    pub fn with_stale_time(self, stale_time: i64) -> (r: Self)
        ensures
            r.spec_storage() == self.spec_storage(),
            r.spec_stale_time() == stale_time as int,
    {
        CacheLayer { storage: self.storage, stale_time }
    }

    /// Is data cached at `cached_at` stale at `now`?
    pub fn is_stale(&self, cached_at: i64, now: i64) -> (r: bool)
        ensures
            r == spec_is_stale(self.spec_stale_time(), cached_at as int, now as int),
    {
        (now as i128) - (cached_at as i128) > (self.stale_time as i128)
    }

    // -----------------------------------------------------------------------
    // Lists: cache-first, full replace on refresh
    // -----------------------------------------------------------------------

    /// Local step of a list fetch: returns the cached result exactly when the
    /// cache holds a fresh entry for `key`; a miss or a stale entry returns
    /// `None` and the caller proceeds to the network.
    pub fn fetch_list_start<T: Cacheable>(&self, key: &str, now: i64) -> (r: Option<
        CacheResult<Vec<T>>,
    >)
        ensures
            match spec_query_lookup::<T>(
                self.spec_storage().entities(),
                self.spec_storage().queries(),
                key@,
            ) {
                Some((es, at, _)) => if !spec_is_stale(self.spec_stale_time(), at, now as int) {
                    match r {
                        Some(c) => seq_views(c.data@) == es && c.source == CacheSource::CacheFresh
                            && c.cached_at == Some(at as i64),
                        None => false,
                    }
                } else {
                    r is None
                },
                None => r is None,
            },
    {
        match self.storage.get_query_result::<T>(key) {
            Some(cached) => {
                if !self.is_stale(cached.cached_at, now) {
                    Some(CacheResult::from_cache(cached.entities, cached.cached_at, false))
                } else {
                    None
                }
            }
            None => None,
        }
    }

    /// Network step of a list fetch. On success the result set replaces the
    /// cached one and is returned tagged `Network`. On failure, stale cached
    /// data is served tagged `Offline`; only a cache miss propagates the
    /// error.
    pub fn fetch_list_finish<T: Cacheable>(
        &mut self,
        key: &str,
        now: i64,
        outcome: Result<Vec<T>, String>,
    ) -> (r: Result<CacheResult<Vec<T>>, String>)
        ensures
            ({
                let pre = old(self).spec_storage();
                let post = final(self).spec_storage();
                let lookup = spec_query_lookup::<T>(pre.entities(), pre.queries(), key@);
                final(self).spec_stale_time() == old(self).spec_stale_time()
                    && post.enabled() == pre.enabled()
                    && post.writes_succeed() == pre.writes_succeed()
                    && match outcome {
                    Ok(data) => (pre.writes_succeed() ==> r is Ok) && match r {
                        Ok(c) => (pre.enabled() ==> post.entities() == spec_upsert_rows(
                            pre.entities(),
                            rows_of::<T>(spec_dedup::<T>(seq_views(data@)), now as int),
                        ) && post.queries() == upsert_query(
                            pre.queries(),
                            spec_query_row_of::<T>(key@, seq_views(data@), now as int),
                        )) && (!pre.enabled() ==> post.entities() == pre.entities()
                            && post.queries() == pre.queries()) && c.data == data && c.source
                            == CacheSource::Network && c.cached_at is None,
                        Err(_) => post.entities() == pre.entities() && post.queries()
                            == pre.queries(),
                    },
                    Err(e) => post.entities() == pre.entities() && post.queries() == pre.queries()
                        && match lookup {
                        Some((es, at, _)) => match r {
                            Ok(c) => seq_views(c.data@) == es && c.source == CacheSource::Offline
                                && c.cached_at == Some(at as i64),
                            Err(_) => false,
                        },
                        None => r == Err::<CacheResult<Vec<T>>, String>(e),
                    },
                }
            }),
    {
        match outcome {
            Ok(data) => {
                match self.storage.store_query_result::<T>(key, &data, now) {
                    Ok(()) => Ok(CacheResult::from_network(data)),
                    Err(e) => Err(e),
                }
            }
            Err(e) => {
                match self.storage.get_query_result::<T>(key) {
                    Some(cached) => Ok(
                        CacheResult::offline(cached.entities, cached.cached_at),
                    ),
                    None => Err(e),
                }
            }
        }
    }

    /// Fetch a list with the cache-first strategy: a fresh cache entry is
    /// served without invoking `fetcher`; otherwise `fetcher` runs exactly
    /// once and its outcome is folded into the cache by
    /// [`CacheLayer::fetch_list_finish`].
    pub fn fetch_list<T: Cacheable, F: FnOnce() -> Result<Vec<T>, String>>(
        &mut self,
        key: &str,
        now: i64,
        fetcher: F,
    ) -> (r: Result<CacheResult<Vec<T>>, String>)
        requires
            call_requires(fetcher, ()),
        ensures
            ({
                let pre = old(self).spec_storage();
                let post = final(self).spec_storage();
                let lookup = spec_query_lookup::<T>(pre.entities(), pre.queries(), key@);
                final(self).spec_stale_time() == old(self).spec_stale_time()
                    && post.enabled() == pre.enabled()
                    && post.writes_succeed() == pre.writes_succeed()
                    && match lookup {
                    Some((es, at, _)) if !spec_is_stale(
                        old(self).spec_stale_time(),
                        at,
                        now as int,
                    ) => post == pre && match r {
                        Ok(c) => seq_views(c.data@) == es && c.source == CacheSource::CacheFresh
                            && c.cached_at == Some(at as i64),
                        Err(_) => false,
                    },
                    _ => exists|out: Result<Vec<T>, String>|
                        {
                            &&& #[trigger] call_ensures(fetcher, (), out)
                            &&& match out {
                                Ok(data) => (pre.writes_succeed() ==> r is Ok) && match r {
                                    Ok(c) => (pre.enabled() ==> post.entities()
                                        == spec_upsert_rows(
                                        pre.entities(),
                                        rows_of::<T>(
                                            spec_dedup::<T>(seq_views(data@)),
                                            now as int,
                                        ),
                                    ) && post.queries() == upsert_query(
                                        pre.queries(),
                                        spec_query_row_of::<T>(
                                            key@,
                                            seq_views(data@),
                                            now as int,
                                        ),
                                    )) && (!pre.enabled() ==> post.entities() == pre.entities()
                                        && post.queries() == pre.queries()) && c.data == data
                                        && c.source == CacheSource::Network && c.cached_at
                                        is None,
                                    Err(_) => post.entities() == pre.entities() && post.queries()
                                        == pre.queries(),
                                },
                                Err(e) => post.entities() == pre.entities() && post.queries()
                                    == pre.queries() && match lookup {
                                    Some((es, at, _)) => match r {
                                        Ok(c) => seq_views(c.data@) == es && c.source
                                            == CacheSource::Offline && c.cached_at == Some(
                                            at as i64,
                                        ),
                                        Err(_) => false,
                                    },
                                    None => r == Err::<CacheResult<Vec<T>>, String>(e),
                                },
                            }
                        },
                }
            }),
    {
        match self.fetch_list_start::<T>(key, now) {
            Some(c) => Ok(c),
            None => {
                let outcome = fetcher();
                self.fetch_list_finish::<T>(key, now, outcome)
            }
        }
    }

    // -----------------------------------------------------------------------
    // Single entities: same decision tree against the entity store
    // -----------------------------------------------------------------------

    /// Local step of a single-entity fetch: the cached entity exactly when it
    /// is present and fresh.
    pub fn fetch_one_start<T: Cacheable>(&self, entity_key: &str, now: i64) -> (r: Option<
        CacheResult<T>,
    >)
        ensures
            match spec_entity_lookup::<T>(self.spec_storage().entities(), entity_key@) {
                Some((v, at)) => if !spec_is_stale(self.spec_stale_time(), at, now as int) {
                    match r {
                        Some(c) => c.data@ == v && c.source == CacheSource::CacheFresh
                            && c.cached_at == Some(at as i64),
                        None => false,
                    }
                } else {
                    r is None
                },
                None => r is None,
            },
    {
        match self.storage.get_entity::<T>(entity_key) {
            Some(cached) => {
                if !self.is_stale(cached.cached_at, now) {
                    Some(CacheResult::from_cache(cached.entity, cached.cached_at, false))
                } else {
                    None
                }
            }
            None => None,
        }
    }

    /// Network step of a single-entity fetch: store on success, fall back to
    /// the stale entity on failure, propagate the error only on a miss.
    pub fn fetch_one_finish<T: Cacheable>(
        &mut self,
        entity_key: &str,
        now: i64,
        outcome: Result<T, String>,
    ) -> (r: Result<CacheResult<T>, String>)
        ensures
            ({
                let pre = old(self).spec_storage();
                let post = final(self).spec_storage();
                let lookup = spec_entity_lookup::<T>(pre.entities(), entity_key@);
                final(self).spec_stale_time() == old(self).spec_stale_time()
                    && post.enabled() == pre.enabled()
                    && post.writes_succeed() == pre.writes_succeed()
                    && post.queries() == pre.queries()
                    && match outcome {
                    Ok(data) => (pre.writes_succeed() ==> r is Ok) && match r {
                        Ok(c) => (pre.enabled() ==> post.entities() == upsert_entity(
                            pre.entities(),
                            spec_row_of::<T>(data@, now as int),
                        )) && (!pre.enabled() ==> post.entities() == pre.entities()) && c.data
                            == data && c.source == CacheSource::Network && c.cached_at is None,
                        Err(_) => post.entities() == pre.entities(),
                    },
                    Err(e) => post.entities() == pre.entities() && match lookup {
                        Some((v, at)) => match r {
                            Ok(c) => c.data@ == v && c.source == CacheSource::Offline
                                && c.cached_at == Some(at as i64),
                            Err(_) => false,
                        },
                        None => r == Err::<CacheResult<T>, String>(e),
                    },
                }
            }),
    {
        match outcome {
            Ok(data) => {
                match self.storage.store_entity::<T>(&data, now) {
                    Ok(()) => Ok(CacheResult::from_network(data)),
                    Err(e) => Err(e),
                }
            }
            Err(e) => {
                match self.storage.get_entity::<T>(entity_key) {
                    Some(cached) => Ok(CacheResult::offline(cached.entity, cached.cached_at)),
                    None => Err(e),
                }
            }
        }
    }

    /// Fetch a single entity with the cache-first strategy; `fetcher` runs
    /// only when the cache has no fresh copy.
    pub fn fetch_one<T: Cacheable, F: FnOnce() -> Result<T, String>>(
        &mut self,
        entity_key: &str,
        now: i64,
        fetcher: F,
    ) -> (r: Result<CacheResult<T>, String>)
        requires
            call_requires(fetcher, ()),
        ensures
            ({
                let pre = old(self).spec_storage();
                let post = final(self).spec_storage();
                let lookup = spec_entity_lookup::<T>(pre.entities(), entity_key@);
                final(self).spec_stale_time() == old(self).spec_stale_time()
                    && post.enabled() == pre.enabled()
                    && post.writes_succeed() == pre.writes_succeed()
                    && post.queries() == pre.queries()
                    && match lookup {
                    Some((v, at)) if !spec_is_stale(
                        old(self).spec_stale_time(),
                        at,
                        now as int,
                    ) => post == pre && match r {
                        Ok(c) => c.data@ == v && c.source == CacheSource::CacheFresh
                            && c.cached_at == Some(at as i64),
                        Err(_) => false,
                    },
                    _ => exists|out: Result<T, String>|
                        {
                            &&& #[trigger] call_ensures(fetcher, (), out)
                            &&& match out {
                                Ok(data) => (pre.writes_succeed() ==> r is Ok) && match r {
                                    Ok(c) => (pre.enabled() ==> post.entities() == upsert_entity(
                                        pre.entities(),
                                        spec_row_of::<T>(data@, now as int),
                                    )) && (!pre.enabled() ==> post.entities() == pre.entities())
                                        && c.data == data && c.source == CacheSource::Network
                                        && c.cached_at is None,
                                    Err(_) => post.entities() == pre.entities(),
                                },
                                Err(e) => post.entities() == pre.entities() && match lookup {
                                    Some((v, at)) => match r {
                                        Ok(c) => c.data@ == v && c.source == CacheSource::Offline
                                            && c.cached_at == Some(at as i64),
                                        Err(_) => false,
                                    },
                                    None => r == Err::<CacheResult<T>, String>(e),
                                },
                            }
                        },
                }
            }),
    {
        match self.fetch_one_start::<T>(entity_key, now) {
            Some(c) => Ok(c),
            None => {
                let outcome = fetcher();
                self.fetch_one_finish::<T>(entity_key, now, outcome)
            }
        }
    }

    // -----------------------------------------------------------------------
    // Incremental lists: merge-on-refresh
    // -----------------------------------------------------------------------

    /// Local step of an incremental fetch: serve a fresh cache entry, or ask
    /// for a fetch filtered to entities changed after the recorded
    /// high-water mark (`None` on a cache miss: full fetch).
    pub fn fetch_incremental_start<T: Cacheable>(&self, key: &str, now: i64) -> (r: FetchStep<
        Vec<T>,
    >)
        ensures
            match spec_query_lookup::<T>(
                self.spec_storage().entities(),
                self.spec_storage().queries(),
                key@,
            ) {
                Some((es, at, mu)) => if !spec_is_stale(self.spec_stale_time(), at, now as int) {
                    match r {
                        FetchStep::Serve(c) => seq_views(c.data@) == es && c.source
                            == CacheSource::CacheFresh && c.cached_at == Some(at as i64),
                        FetchStep::Fetch(_) => false,
                    }
                } else {
                    match r {
                        FetchStep::Serve(_) => false,
                        FetchStep::Fetch(h) => opt_view(h) == mu,
                    }
                },
                None => match r {
                    FetchStep::Serve(_) => false,
                    FetchStep::Fetch(h) => h is None,
                },
            },
    {
        let max_updated = self.storage.get_max_updated(key);
        match self.storage.get_query_result::<T>(key) {
            Some(cached) => {
                if !self.is_stale(cached.cached_at, now) {
                    FetchStep::Serve(
                        CacheResult::from_cache(cached.entities, cached.cached_at, false),
                    )
                } else {
                    FetchStep::Fetch(max_updated)
                }
            }
            None => FetchStep::Fetch(None),
        }
    }

    /// Network step of an incremental fetch. An empty result set means
    /// nothing changed: the stored entities are re-persisted to refresh
    /// their `cached_at` and served as fresh. A non-empty result set is
    /// merged into the stored one. A failure falls back to the stale cached
    /// data; only a cache miss propagates the error.
    pub fn fetch_incremental_finish<T: Cacheable>(
        &mut self,
        key: &str,
        now: i64,
        outcome: Result<Vec<T>, String>,
    ) -> (r: Result<CacheResult<Vec<T>>, String>)
        ensures
            ({
                let pre = old(self).spec_storage();
                let post = final(self).spec_storage();
                let lookup = spec_query_lookup::<T>(pre.entities(), pre.queries(), key@);
                final(self).spec_stale_time() == old(self).spec_stale_time()
                    && post.enabled() == pre.enabled()
                    && post.writes_succeed() == pre.writes_succeed()
                    && match outcome {
                    Ok(data) => (pre.writes_succeed() ==> r is Ok) && match lookup {
                        Some((es, at, _)) => if data@.len() == 0 {
                            match r {
                                Ok(c) => (pre.enabled() ==> post.entities() == spec_upsert_rows(
                                    pre.entities(),
                                    rows_of::<T>(spec_dedup::<T>(es), now as int),
                                ) && post.queries() == upsert_query(
                                    pre.queries(),
                                    spec_query_row_of::<T>(key@, es, now as int),
                                )) && (!pre.enabled() ==> post.entities() == pre.entities()
                                    && post.queries() == pre.queries()) && seq_views(c.data@)
                                    == es && c.source == CacheSource::CacheFresh && c.cached_at
                                    == Some(now),
                                Err(_) => post.entities() == pre.entities() && post.queries()
                                    == pre.queries(),
                            }
                        } else {
                            match r {
                                Ok(c) => ({
                                    let merged = spec_merge_rows(
                                        spec_existing_rows::<T>(
                                            pre.entities(),
                                            members_of(pre.queries(), key@),
                                            now as int,
                                        ),
                                        rows_of::<T>(seq_views(data@), now as int),
                                    );
                                    (pre.enabled() ==> post.entities() == spec_upsert_rows(
                                        pre.entities(),
                                        merged,
                                    ) && post.queries() == upsert_query(
                                        pre.queries(),
                                        spec_query_row_of_rows::<T>(key@, merged, now as int),
                                    )) && (!pre.enabled() ==> post.entities() == pre.entities()
                                        && post.queries() == pre.queries())
                                }) && c.source == CacheSource::Network && c.cached_at is None
                                    && seq_views(c.data@) == (
                                match spec_query_lookup::<T>(
                                    post.entities(),
                                    post.queries(),
                                    key@,
                                ) {
                                    Some((mes, _, _)) => mes,
                                    None => seq_views(data@),
                                }),
                                Err(_) => post.entities() == pre.entities() && post.queries()
                                    == pre.queries(),
                            }
                        },
                        None => match r {
                            Ok(c) => (pre.enabled() ==> post.entities() == spec_upsert_rows(
                                pre.entities(),
                                rows_of::<T>(spec_dedup::<T>(seq_views(data@)), now as int),
                            ) && post.queries() == upsert_query(
                                pre.queries(),
                                spec_query_row_of::<T>(key@, seq_views(data@), now as int),
                            )) && (!pre.enabled() ==> post.entities() == pre.entities()
                                && post.queries() == pre.queries()) && c.data == data && c.source
                                == CacheSource::Network && c.cached_at is None,
                            Err(_) => post.entities() == pre.entities() && post.queries()
                                == pre.queries(),
                        },
                    },
                    Err(e) => post.entities() == pre.entities() && post.queries() == pre.queries()
                        && match lookup {
                        Some((es, at, _)) => match r {
                            Ok(c) => seq_views(c.data@) == es && c.source == CacheSource::Offline
                                && c.cached_at == Some(at as i64),
                            Err(_) => false,
                        },
                        None => r == Err::<CacheResult<Vec<T>>, String>(e),
                    },
                }
            }),
    {
        match outcome {
            Ok(new) => {
                match self.storage.get_query_result::<T>(key) {
                    Some(cached) => {
                        if new.is_empty() {
                            match self.storage.store_query_result::<T>(
                                key,
                                &cached.entities,
                                now,
                            ) {
                                Ok(()) => Ok(
                                    CacheResult::from_cache(cached.entities, now, false),
                                ),
                                Err(e) => Err(e),
                            }
                        } else {
                            match self.storage.merge_query_result::<T>(key, &new, now) {
                                Ok(()) => {
                                    match self.storage.get_query_result::<T>(key) {
                                        Some(merged) => Ok(
                                            CacheResult::from_network(merged.entities),
                                        ),
                                        None => Ok(CacheResult::from_network(new)),
                                    }
                                }
                                Err(e) => Err(e),
                            }
                        }
                    }
                    None => {
                        match self.storage.store_query_result::<T>(key, &new, now) {
                            Ok(()) => Ok(CacheResult::from_network(new)),
                            Err(e) => Err(e),
                        }
                    }
                }
            }
            Err(e) => {
                match self.storage.get_query_result::<T>(key) {
                    Some(cached) => Ok(
                        CacheResult::offline(cached.entities, cached.cached_at),
                    ),
                    None => Err(e),
                }
            }
        }
    }

    /// Incremental fetch: a fresh cache entry is served without invoking
    /// `fetcher`; otherwise `fetcher` runs exactly once, with the recorded
    /// high-water mark, and its outcome is folded into the cache by
    /// [`CacheLayer::fetch_incremental_finish`].
    pub fn fetch_incremental<
        T: Cacheable,
        F: FnOnce(Option<String>) -> Result<Vec<T>, String>,
    >(&mut self, key: &str, now: i64, fetcher: F) -> (r: Result<CacheResult<Vec<T>>, String>)
        requires
            forall|h: Option<String>| call_requires(fetcher, (h,)),
        ensures
            ({
                let pre = old(self).spec_storage();
                let post = final(self).spec_storage();
                let lookup = spec_query_lookup::<T>(pre.entities(), pre.queries(), key@);
                final(self).spec_stale_time() == old(self).spec_stale_time()
                    && post.enabled() == pre.enabled()
                    && post.writes_succeed() == pre.writes_succeed()
                    && match lookup {
                    Some((es, at, _)) if !spec_is_stale(
                        old(self).spec_stale_time(),
                        at,
                        now as int,
                    ) => post == pre && match r {
                        Ok(c) => seq_views(c.data@) == es && c.source == CacheSource::CacheFresh
                            && c.cached_at == Some(at as i64),
                        Err(_) => false,
                    },
                    _ => exists|h: Option<String>, out: Result<Vec<T>, String>|
                        {
                            &&& #[trigger] call_ensures(fetcher, (h,), out)
                            &&& opt_view(h) == (match lookup {
                                Some((_, _, mu)) => mu,
                                None => None,
                            })
                            &&& match out {
                                Ok(data) => (pre.writes_succeed() ==> r is Ok) && match lookup {
                                    Some((es, at, _)) => if data@.len() == 0 {
                                        match r {
                                            Ok(c) => (pre.enabled() ==> post.entities()
                                                == spec_upsert_rows(
                                                pre.entities(),
                                                rows_of::<T>(spec_dedup::<T>(es), now as int),
                                            ) && post.queries() == upsert_query(
                                                pre.queries(),
                                                spec_query_row_of::<T>(key@, es, now as int),
                                            )) && (!pre.enabled() ==> post.entities()
                                                == pre.entities() && post.queries()
                                                == pre.queries()) && seq_views(c.data@) == es
                                                && c.source == CacheSource::CacheFresh
                                                && c.cached_at == Some(now),
                                            Err(_) => post.entities() == pre.entities()
                                                && post.queries() == pre.queries(),
                                        }
                                    } else {
                                        match r {
                                            Ok(c) => ({
                                                let merged = spec_merge_rows(
                                                    spec_existing_rows::<T>(
                                                        pre.entities(),
                                                        members_of(pre.queries(), key@),
                                                        now as int,
                                                    ),
                                                    rows_of::<T>(seq_views(data@), now as int),
                                                );
                                                (pre.enabled() ==> post.entities()
                                                    == spec_upsert_rows(pre.entities(), merged)
                                                    && post.queries() == upsert_query(
                                                    pre.queries(),
                                                    spec_query_row_of_rows::<T>(
                                                        key@,
                                                        merged,
                                                        now as int,
                                                    ),
                                                )) && (!pre.enabled() ==> post.entities()
                                                    == pre.entities() && post.queries()
                                                    == pre.queries())
                                            }) && c.source == CacheSource::Network
                                                && c.cached_at is None && seq_views(c.data@) == (
                                            match spec_query_lookup::<T>(
                                                post.entities(),
                                                post.queries(),
                                                key@,
                                            ) {
                                                Some((mes, _, _)) => mes,
                                                None => seq_views(data@),
                                            }),
                                            Err(_) => post.entities() == pre.entities()
                                                && post.queries() == pre.queries(),
                                        }
                                    },
                                    None => match r {
                                        Ok(c) => (pre.enabled() ==> post.entities()
                                            == spec_upsert_rows(
                                            pre.entities(),
                                            rows_of::<T>(
                                                spec_dedup::<T>(seq_views(data@)),
                                                now as int,
                                            ),
                                        ) && post.queries() == upsert_query(
                                            pre.queries(),
                                            spec_query_row_of::<T>(
                                                key@,
                                                seq_views(data@),
                                                now as int,
                                            ),
                                        )) && (!pre.enabled() ==> post.entities()
                                            == pre.entities() && post.queries()
                                            == pre.queries()) && c.data == data && c.source
                                            == CacheSource::Network && c.cached_at is None,
                                        Err(_) => post.entities() == pre.entities()
                                            && post.queries() == pre.queries(),
                                    },
                                },
                                Err(e) => post.entities() == pre.entities() && post.queries()
                                    == pre.queries() && match lookup {
                                    Some((es, at, _)) => match r {
                                        Ok(c) => seq_views(c.data@) == es && c.source
                                            == CacheSource::Offline && c.cached_at == Some(
                                            at as i64,
                                        ),
                                        Err(_) => false,
                                    },
                                    None => r == Err::<CacheResult<Vec<T>>, String>(e),
                                },
                            }
                        },
                }
            }),
    {
        match self.fetch_incremental_start::<T>(key, now) {
            FetchStep::Serve(c) => Ok(c),
            FetchStep::Fetch(hint) => {
                let outcome = fetcher(hint);
                self.fetch_incremental_finish::<T>(key, now, outcome)
            }
        }
    }
}

} // verus!

