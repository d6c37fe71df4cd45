//! The engine of `moka::sync::SegmentedCache`.

use crate::cache::engine::{Driver, Engine, Walk};
use crate::cache::init::{InitClosureType, InitOutcome, Initializer, Pacer};
use crate::cache::moka_driver::{
    accepted_or_unsupported, found_or_failed, inserted_or_found, stored, Stored,
};
use crate::cache::{value_matches, Key, Unsupported, Value};
use crate::cache::steps::{setting_of, Step};
use crate::config::{Config, RemovalNotificationMode};
use crate::eviction_counters::EvictionCounters;
use std::sync::Arc;
use vstd::prelude::*;
use xxhash_rust::xxh3::Xxh3Builder;

verus! {

/// `moka::sync::SegmentedCache`, carried as it is: nothing is known of what it
/// holds.
#[verifier::external_type_specification]
#[verifier::external_body]
#[verifier::reject_recursive_types(K)]
#[verifier::reject_recursive_types(V)]
#[verifier::reject_recursive_types(S)]
pub struct ExMokaSegmentedCache<K, V, S>(moka::sync::SegmentedCache<K, V, S>);

/// `SegmentedCache::clone` makes another handle onto the same cache.
pub assume_specification<K, V, S>[ <moka::sync::SegmentedCache<K, V, S> as Clone>::clone ](
    cache: &moka::sync::SegmentedCache<K, V, S>,
) -> moka::sync::SegmentedCache<K, V, S>
;

/// The cache that is driven: keys to stored values, hashed with seeded
/// XXH3, in several segments.
pub type SegmentedMokaCache = moka::sync::SegmentedCache<Key, Stored, Xxh3Builder>;

/// `SegmentedCache::get` returns the value stored under the key, if the
/// cache holds one that is still alive; nothing is said of the answer.
#[verifier::external_body]
fn segmented_get(cache: &SegmentedMokaCache, key: Key) -> (hit: bool) {
    cache.get(&key).is_some()
}

/// `SegmentedCache::insert` stores the value under the key, replacing one
/// that is there.
#[verifier::external_body]
fn segmented_insert(cache: &SegmentedMokaCache, key: Key, value: Stored) {
    cache.insert(key, value)
}

/// `SegmentedCache::get_with` returns the value under the key or, where
/// there is none, runs the initializer (once among concurrent callers) and
/// stores what it returns.
#[verifier::external_body]
fn segmented_get_with<P: Pacer>(cache: &SegmentedMokaCache, key: Key, init: &Initializer<P>) {
    cache.get_with(key, || stored(init.value()));
}

/// `SegmentedCache::try_get_with` returns the value under the key or, where
/// there is none, runs the initializer and hands on its error, storing
/// nothing. The answer says whether a value was there.
#[verifier::external_body]
fn segmented_try_get_with_error1<P: Pacer>(
    cache: &SegmentedMokaCache,
    key: Key,
    init: &Initializer<P>,
) -> (found: bool) {
    cache.try_get_with(key, || init.fail_one().map(stored)).is_ok()
}

/// As `segmented_try_get_with_error1`, with the initializer's other error.
#[verifier::external_body]
fn segmented_try_get_with_error2<P: Pacer>(
    cache: &SegmentedMokaCache,
    key: Key,
    init: &Initializer<P>,
) -> (found: bool) {
    cache.try_get_with(key, || init.fail_two().map(stored)).is_ok()
}

/// `SegmentedCache::entry(..).or_insert_with` does what `get_with` does and
/// says whether the value it returns was stored by this call.
#[verifier::external_body]
fn segmented_entry_or_insert_with<P: Pacer>(
    cache: &SegmentedMokaCache,
    key: Key,
    init: &Initializer<P>,
) -> (fresh: bool) {
    cache.entry(key).or_insert_with(|| stored(init.value())).is_fresh()
}

/// `SegmentedCache::entry(..).or_try_insert_with` does what `try_get_with`
/// does. The answer says whether a value was there.
#[verifier::external_body]
fn segmented_entry_or_try_insert_with_error1<P: Pacer>(
    cache: &SegmentedMokaCache,
    key: Key,
    init: &Initializer<P>,
) -> (found: bool) {
    cache.entry(key).or_try_insert_with(|| init.fail_one().map(stored)).is_ok()
}

/// As `segmented_entry_or_try_insert_with_error1`, with the initializer's
/// other error.
#[verifier::external_body]
fn segmented_entry_or_try_insert_with_error2<P: Pacer>(
    cache: &SegmentedMokaCache,
    key: Key,
    init: &Initializer<P>,
) -> (found: bool) {
    cache.entry(key).or_try_insert_with(|| init.fail_two().map(stored)).is_ok()
}

/// `SegmentedCache::invalidate` discards the value under the key, if there
/// is one.
#[verifier::external_body]
fn segmented_invalidate(cache: &SegmentedMokaCache, key: Key) {
    cache.invalidate(&key)
}

/// `SegmentedCache::invalidate_all` discards all values.
#[verifier::external_body]
fn segmented_invalidate_all(cache: &SegmentedMokaCache) {
    cache.invalidate_all()
}

/// `SegmentedCache::invalidate_entries_if` registers a predicate by which
/// the cache discards entries. It refuses, and the answer is `false`, where
/// the cache was built without support for such predicates.
#[verifier::external_body]
fn segmented_invalidate_entries_if(cache: &SegmentedMokaCache, first_byte: u8) -> (accepted: bool) {
    cache.invalidate_entries_if(move |_k, v| value_matches(&v.1, first_byte)).is_ok()
}

/// `SegmentedCache::iter` visits the entries of the cache, each once; the
/// walk counts them.
#[verifier::external_body]
fn segmented_iterate<P: Pacer>(cache: &SegmentedMokaCache, walk: &mut Walk<P>) {
    cache.iter().for_each(|_kv| walk.visit())
}

/// The engine of a `moka::sync::SegmentedCache`. Its clones share the cache.
#[derive(Clone)]
pub struct MokaSegmented {
    cache: SegmentedMokaCache,
    entry_api: bool,
}

impl MokaSegmented {
    /// Whether the engine looks up through the cache's entry selectors.
    pub closed spec fn uses_entry_api(&self) -> bool {
        self.entry_api
    }

    /// The cache that the engine drives.
    pub closed spec fn drives(&self) -> SegmentedMokaCache {
        self.cache
    }

    /// An engine that looks up through `get_with` and `try_get_with`.
    pub fn new(cache: SegmentedMokaCache) -> (engine: Self)
        ensures
            engine.drives() == cache,
            !engine.uses_entry_api(),
    {
        MokaSegmented { cache, entry_api: false }
    }

    /// An engine that looks up through the cache's entry selectors.
    pub fn with_entry_api(cache: SegmentedMokaCache) -> (engine: Self)
        ensures
            engine.drives() == cache,
            engine.uses_entry_api(),
    {
        MokaSegmented { cache, entry_api: true }
    }
}

impl Engine for MokaSegmented {
    fn get(&mut self, key: Key) -> bool {
        segmented_get(&self.cache, key)
    }

    fn insert(&mut self, key: Key, value: Value) {
        segmented_insert(&self.cache, key, stored(value))
    }

    fn get_with<P: Pacer>(&mut self, key: Key, init: &Initializer<P>) -> (r: Result<
        InitOutcome,
        Unsupported,
    >)
        ensures
            r.is_ok(),
            init.kind_of() == InitClosureType::GetOrInsert ==> r.unwrap() != InitOutcome::Failed,
            init.kind_of() != InitClosureType::GetOrInsert ==> r.unwrap() != InitOutcome::Inserted,
    {
        let outcome = match (init.kind(), self.entry_api) {
            (InitClosureType::GetOrInsert, false) => {
                segmented_get_with(&self.cache, key, init);
                inserted_or_found(init.was_run())
            },
            (InitClosureType::GetOrInsert, true) => inserted_or_found(
                segmented_entry_or_insert_with(&self.cache, key, init),
            ),
            (InitClosureType::GetOrTryInsertWithError1, false) => found_or_failed(
                segmented_try_get_with_error1(&self.cache, key, init),
            ),
            (InitClosureType::GetOrTryInsertWithError1, true) => found_or_failed(
                segmented_entry_or_try_insert_with_error1(&self.cache, key, init),
            ),
            (InitClosureType::GetOrTryInsertWithError2, false) => found_or_failed(
                segmented_try_get_with_error2(&self.cache, key, init),
            ),
            (InitClosureType::GetOrTryInsertWithError2, true) => found_or_failed(
                segmented_entry_or_try_insert_with_error2(&self.cache, key, init),
            ),
        };
        Ok(outcome)
    }

    fn invalidate(&mut self, key: Key) -> (r: Result<(), Unsupported>)
        ensures
            r.is_ok(),
    {
        segmented_invalidate(&self.cache, key);
        Ok(())
    }

    fn invalidate_all(&mut self) -> (r: Result<(), Unsupported>)
        ensures
            r.is_ok(),
    {
        segmented_invalidate_all(&self.cache);
        Ok(())
    }

    fn invalidate_entries_if(&mut self, first_byte: u8) -> Result<(), Unsupported> {
        accepted_or_unsupported(segmented_invalidate_entries_if(&self.cache, first_byte))
    }

    fn iterate<P: Pacer>(&mut self, walk: &mut Walk<P>) -> (r: Result<(), Unsupported>)
        ensures
            r.is_ok(),
    {
        segmented_iterate(&self.cache, walk);
        Ok(())
    }
}

/// The driver of a `moka::sync::SegmentedCache`.
pub type MokaSegmentedCache<P> = Driver<MokaSegmented, P>;

impl<P: Pacer> Driver<MokaSegmented, P> {
    /// A driver of `cache` that looks up through `get_with` and
    /// `try_get_with`. `eviction_counters` are the counters that the cache
    /// reports its evictions to.
    pub fn new(
        config: &Config,
        cache: SegmentedMokaCache,
        eviction_counters: Option<Arc<EvictionCounters>>,
        pacer: P,
    ) -> (driver: Self)
        requires
            eviction_counters.is_some() == (config.eviction_listener
                != RemovalNotificationMode::Disabled),
        ensures
            driver.engine().drives() == cache,
            !driver.engine().uses_entry_api(),
            driver.configured().same_as(config),
            driver.works_in() == setting_of(*config),
            driver.taken() == Seq::<Step>::empty(),
            driver.counters() == eviction_counters,
    {
        Driver::over(config, MokaSegmented::new(cache), pacer, eviction_counters)
    }

    /// A driver of `cache` that looks up through the cache's entry
    /// selectors.
    pub fn with_entry_api(
        config: &Config,
        cache: SegmentedMokaCache,
        eviction_counters: Option<Arc<EvictionCounters>>,
        pacer: P,
    ) -> (driver: Self)
        requires
            eviction_counters.is_some() == (config.eviction_listener
                != RemovalNotificationMode::Disabled),
        ensures
            driver.engine().drives() == cache,
            driver.engine().uses_entry_api(),
            driver.configured().same_as(config),
            driver.works_in() == setting_of(*config),
            driver.taken() == Seq::<Step>::empty(),
            driver.counters() == eviction_counters,
    {
        Driver::over(config, MokaSegmented::with_entry_api(cache), pacer, eviction_counters)
    }

    /// The driver of `cache` for a run: through the entry selectors where
    /// the run asks for them.
    pub fn for_run(
        config: &Config,
        cache: SegmentedMokaCache,
        eviction_counters: Option<Arc<EvictionCounters>>,
        pacer: P,
    ) -> (driver: Self)
        requires
            eviction_counters.is_some() == (config.eviction_listener
                != RemovalNotificationMode::Disabled),
        ensures
            driver.engine().drives() == cache,
            driver.engine().uses_entry_api() == config.entry_api,
            driver.configured().same_as(config),
            driver.works_in() == setting_of(*config),
            driver.taken() == Seq::<Step>::empty(),
            driver.counters() == eviction_counters,
    {
        if config.entry_api {
            Self::with_entry_api(config, cache, eviction_counters, pacer)
        } else {
            Self::new(config, cache, eviction_counters, pacer)
        }
    }
}

} // verus!
