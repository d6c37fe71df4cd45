//! The engine of `mini_moka::sync::Cache`.

use crate::cache::engine::{Driver, Engine, Walk};
use crate::cache::init::{InitOutcome, Initializer, Pacer};
use crate::cache::moka_driver::{stored, Stored};
use crate::cache::{Key, Unsupported, Value};
use crate::cache::steps::{setting_of, Step};
use crate::config::Config;
use crate::engines::{capabilities_of, offers, EngineKind};
use vstd::prelude::*;
use xxhash_rust::xxh3::Xxh3Builder;

verus! {

/// `mini_moka::sync::Cache`, carried as it is: nothing is known of what it
/// holds.
#[verifier::external_type_specification]
#[verifier::external_body]
#[verifier::reject_recursive_types(K)]
#[verifier::reject_recursive_types(V)]
#[verifier::reject_recursive_types(S)]
pub struct ExMiniMokaSyncCache<K, V, S>(mini_moka::sync::Cache<K, V, S>);

/// `Cache::clone` makes another handle onto the same cache.
pub assume_specification<K, V, S>[ <mini_moka::sync::Cache<K, V, S> as Clone>::clone ](
    cache: &mini_moka::sync::Cache<K, V, S>,
) -> mini_moka::sync::Cache<K, V, S>
;

/// The cache that is driven: keys to stored values, hashed with seeded XXH3.
pub type MiniMokaCache = mini_moka::sync::Cache<Key, Stored, Xxh3Builder>;

/// `Cache::get` returns the value stored under the key, if the cache holds
/// one that is still alive; nothing is said of the answer.
#[verifier::external_body]
fn mini_moka_get(cache: &MiniMokaCache, key: Key) -> (hit: bool) {
    cache.get(&key).is_some()
}

/// `Cache::insert` stores the value under the key, replacing one that is
/// there.
#[verifier::external_body]
fn mini_moka_insert(cache: &MiniMokaCache, key: Key, value: Stored) {
    cache.insert(key, value)
}

/// `Cache::invalidate` discards the value under the key, if there is one.
#[verifier::external_body]
fn mini_moka_invalidate(cache: &MiniMokaCache, key: Key) {
    cache.invalidate(&key)
}

/// `Cache::invalidate_all` discards all values.
#[verifier::external_body]
fn mini_moka_invalidate_all(cache: &MiniMokaCache) {
    cache.invalidate_all()
}

/// `Cache::iter` visits the entries of the cache that have not expired,
/// each once; the walk counts them.
#[verifier::external_body]
fn mini_moka_iterate<P: Pacer>(cache: &MiniMokaCache, walk: &mut Walk<P>) {
    cache.iter().for_each(|_entry| walk.visit())
}

/// The engine of a `mini_moka::sync::Cache`. Its clones share the cache. It
/// has no single-flight initializer and takes no predicates.
#[derive(Clone)]
pub struct MiniMokaSync {
    cache: MiniMokaCache,
}

impl MiniMokaSync {
    /// An engine over `cache`.
    pub fn new(cache: MiniMokaCache) -> (engine: Self)
        ensures
            engine.drives() == cache,
    {
        MiniMokaSync { cache }
    }

    /// The cache that the engine drives.
    pub closed spec fn drives(&self) -> MiniMokaCache {
        self.cache
    }
}

impl Engine for MiniMokaSync {
    fn get(&mut self, key: Key) -> bool {
        mini_moka_get(&self.cache, key)
    }

    fn insert(&mut self, key: Key, value: Value) {
        mini_moka_insert(&self.cache, key, stored(value))
    }

    fn get_with<P: Pacer>(&mut self, key: Key, init: &Initializer<P>) -> (r: Result<
        InitOutcome,
        Unsupported,
    >)
        ensures
            r.is_err(),
    {
        Err(Unsupported)
    }

    fn invalidate(&mut self, key: Key) -> (r: Result<(), Unsupported>)
        ensures
            r.is_ok(),
    {
        mini_moka_invalidate(&self.cache, key);
        Ok(())
    }

    fn invalidate_all(&mut self) -> (r: Result<(), Unsupported>)
        ensures
            r.is_ok(),
    {
        mini_moka_invalidate_all(&self.cache);
        Ok(())
    }

    fn invalidate_entries_if(&mut self, first_byte: u8) -> (r: Result<(), Unsupported>)
        ensures
            r.is_err(),
    {
        Err(Unsupported)
    }

    fn iterate<P: Pacer>(&mut self, walk: &mut Walk<P>) -> (r: Result<(), Unsupported>)
        ensures
            r.is_ok(),
    {
        mini_moka_iterate(&self.cache, walk);
        Ok(())
    }
}

/// The driver of a `mini_moka::sync::Cache`.
pub type MiniMokSyncCache<P> = Driver<MiniMokaSync, P>;

impl<P: Pacer> Driver<MiniMokaSync, P> {
    /// A driver of `cache` for a run, or `Unsupported` where the run turns
    /// on what the engine does not offer: the engine is never handed a
    /// configuration that it would pass over in silence.
    pub fn new(config: &Config, cache: MiniMokaCache, pacer: P) -> (r: Result<Self, Unsupported>)
        ensures
            r.is_ok() == offers(capabilities_of(EngineKind::MiniMokaSync), *config),
            r.is_ok() ==> {
                &&& r.unwrap().engine().drives() == cache
                &&& r.unwrap().configured().same_as(config)
                &&& r.unwrap().works_in() == setting_of(*config)
                &&& r.unwrap().taken() == Seq::<Step>::empty()
                &&& r.unwrap().counters().is_none()
            },
    {
        if EngineKind::MiniMokaSync.supports(config) {
            Ok(Driver::over(config, MiniMokaSync::new(cache), pacer, None))
        } else {
            Err(Unsupported)
        }
    }
}

} // verus!
