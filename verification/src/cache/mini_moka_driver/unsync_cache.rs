//! The engine of `mini_moka::unsync::Cache`, a cache for one worker.

use crate::cache::engine::{Driver, Engine, Walk};
use crate::cache::init::{InitOutcome, Initializer, Pacer};
use crate::cache::moka_driver::{stored, Stored};
use crate::cache::{value_matches, Key, Unsupported, Value};
use crate::cache::steps::{setting_of, Step};
use crate::config::Config;
use crate::engines::{capabilities_of, offers, EngineKind};
use vstd::prelude::*;
use xxhash_rust::xxh3::Xxh3Builder;

verus! {

/// `mini_moka::unsync::Cache`, carried as it is: nothing is known of what it
/// holds.
#[verifier::external_type_specification]
#[verifier::external_body]
#[verifier::reject_recursive_types(K)]
#[verifier::reject_recursive_types(V)]
#[verifier::reject_recursive_types(S)]
pub struct ExMiniMokaUnsyncCache<K, V, S>(mini_moka::unsync::Cache<K, V, S>);

/// The cache that is driven: keys to stored values, hashed with seeded XXH3.
pub type UnsyncMiniMokaCache = mini_moka::unsync::Cache<Key, Stored, Xxh3Builder>;

/// `Cache::get` returns the value stored under the key, if the cache holds
/// one that is still alive; nothing is said of the answer.
#[verifier::external_body]
fn unsync_get(cache: &mut UnsyncMiniMokaCache, key: Key) -> (hit: bool) {
    cache.get(&key).is_some()
}

/// `Cache::insert` stores the value under the key, replacing one that is
/// there.
#[verifier::external_body]
fn unsync_insert(cache: &mut UnsyncMiniMokaCache, key: Key, value: Stored) {
    cache.insert(key, value)
}

/// `Cache::invalidate` discards the value under the key, if there is one.
#[verifier::external_body]
fn unsync_invalidate(cache: &mut UnsyncMiniMokaCache, key: Key) {
    cache.invalidate(&key)
}

/// `Cache::invalidate_all` discards all values.
#[verifier::external_body]
fn unsync_invalidate_all(cache: &mut UnsyncMiniMokaCache) {
    cache.invalidate_all()
}

/// `Cache::invalidate_entries_if` discards the values that the predicate
/// holds of.
#[verifier::external_body]
fn unsync_invalidate_entries_if(cache: &mut UnsyncMiniMokaCache, first_byte: u8) {
    cache.invalidate_entries_if(move |_k, v| value_matches(&v.1, first_byte))
}

/// `Cache::iter` visits the entries of the cache, each once; the walk
/// counts them.
#[verifier::external_body]
fn unsync_iterate<P: Pacer>(cache: &UnsyncMiniMokaCache, walk: &mut Walk<P>) {
    cache.iter().for_each(|_kv| walk.visit())
}

/// The engine of a `mini_moka::unsync::Cache`. It has no single-flight
/// initializer.
pub struct MiniMokaUnsync {
    cache: UnsyncMiniMokaCache,
}

impl MiniMokaUnsync {
    /// An engine over `cache`.
    pub fn new(cache: UnsyncMiniMokaCache) -> (engine: Self)
        ensures
            engine.drives() == cache,
    {
        MiniMokaUnsync { cache }
    }

    /// The cache that the engine drives.
    pub closed spec fn drives(&self) -> UnsyncMiniMokaCache {
        self.cache
    }
}

impl Engine for MiniMokaUnsync {
    fn get(&mut self, key: Key) -> bool {
        unsync_get(&mut self.cache, key)
    }

    fn insert(&mut self, key: Key, value: Value) {
        unsync_insert(&mut self.cache, key, stored(value))
    }

    fn get_with<P: Pacer>(&mut self, key: Key, init: &Initializer<P>) -> (r: Result<
        InitOutcome,
        Unsupported,
    >)
        ensures
            r.is_err(),
    {
        Err(Unsupported)
    }

    fn invalidate(&mut self, key: Key) -> (r: Result<(), Unsupported>)
        ensures
            r.is_ok(),
    {
        unsync_invalidate(&mut self.cache, key);
        Ok(())
    }

    fn invalidate_all(&mut self) -> (r: Result<(), Unsupported>)
        ensures
            r.is_ok(),
    {
        unsync_invalidate_all(&mut self.cache);
        Ok(())
    }

    fn invalidate_entries_if(&mut self, first_byte: u8) -> (r: Result<(), Unsupported>)
        ensures
            r.is_ok(),
    {
        unsync_invalidate_entries_if(&mut self.cache, first_byte);
        Ok(())
    }

    fn iterate<P: Pacer>(&mut self, walk: &mut Walk<P>) -> (r: Result<(), Unsupported>)
        ensures
            r.is_ok(),
    {
        unsync_iterate(&self.cache, walk);
        Ok(())
    }
}

/// The driver of a `mini_moka::unsync::Cache`.
pub type MiniMokaUnsyncCache<P> = Driver<MiniMokaUnsync, P>;

impl<P: Pacer> Driver<MiniMokaUnsync, P> {
    /// A driver of `cache` for a run, or `Unsupported` where the run turns
    /// on what the engine does not offer: the engine is never handed a
    /// configuration that it would pass over in silence.
    pub fn new(config: &Config, cache: UnsyncMiniMokaCache, pacer: P) -> (r: Result<Self, Unsupported>)
        ensures
            r.is_ok() == offers(capabilities_of(EngineKind::MiniMokaUnsync), *config),
            r.is_ok() ==> {
                &&& r.unwrap().engine().drives() == cache
                &&& r.unwrap().configured().same_as(config)
                &&& r.unwrap().works_in() == setting_of(*config)
                &&& r.unwrap().taken() == Seq::<Step>::empty()
                &&& r.unwrap().counters().is_none()
            },
    {
        if EngineKind::MiniMokaUnsync.supports(config) {
            Ok(Driver::over(config, MiniMokaUnsync::new(cache), pacer, None))
        } else {
            Err(Unsupported)
        }
    }
}

} // verus!
