//! The engine of `hashlink::LruCache` behind a mutex.

use crate::cache::engine::{Driver, Engine, Walk};
use crate::cache::init::{InitOutcome, Initializer, Pacer};
use crate::cache::moka_driver::{stored, Stored};
use crate::cache::{Key, Unsupported, Value};
use std::sync::Arc;
use crate::cache::steps::{setting_of, Step};
use crate::config::Config;
use crate::engines::{capabilities_of, offers, EngineKind};
use vstd::prelude::*;
use xxhash_rust::xxh3::Xxh3Builder;

verus! {

/// `hashlink::LruCache`, carried as it is: nothing is known of what it holds.
#[verifier::external_type_specification]
#[verifier::external_body]
#[verifier::reject_recursive_types(K)]
#[verifier::reject_recursive_types(V)]
#[verifier::reject_recursive_types(S)]
pub struct ExLruCache<K, V, S>(hashlink::LruCache<K, V, S>);

/// `lock_api::Mutex`, the mutex of `parking_lot`, around the cache.
#[verifier::external_type_specification]
#[verifier::external_body]
#[verifier::reject_recursive_types(R)]
#[verifier::reject_recursive_types(T)]
pub struct ExMutex<R, T: ?Sized>(parking_lot::lock_api::Mutex<R, T>);

/// `parking_lot::RawMutex`, the lock inside the mutex.
#[verifier::external_type_specification]
#[verifier::external_body]
pub struct ExRawMutex(parking_lot::RawMutex);

/// The cache that is driven: keys to stored values, hashed with seeded
/// XXH3, least recently used first out.
pub type HashLinkCache = hashlink::LruCache<Key, Stored, Xxh3Builder>;

/// `Mutex::lock` waits for the lock, and `LruCache::get` returns the value
/// stored under the key, making it the most recently used; nothing is said
/// of the answer.
#[verifier::external_body]
fn hashlink_get(cache: &Arc<parking_lot::Mutex<HashLinkCache>>, key: Key) -> (hit: bool) {
    cache.lock().get(&key).is_some()
}

/// `Mutex::lock` waits for the lock, and `LruCache::insert` stores the
/// value under the key, dropping the least recently used entry where the
/// cache is full.
#[verifier::external_body]
fn hashlink_insert(cache: &Arc<parking_lot::Mutex<HashLinkCache>>, key: Key, value: Stored) {
    cache.lock().insert(key, value);
}

/// The engine of a `hashlink::LruCache`. Its clones share the cache. It
/// looks up and inserts, and nothing else.
#[derive(Clone)]
pub struct HashLinkLru {
    cache: Arc<parking_lot::Mutex<HashLinkCache>>,
}

impl HashLinkLru {
    /// An engine over `cache`.
    pub fn new(cache: Arc<parking_lot::Mutex<HashLinkCache>>) -> (engine: Self)
        ensures
            engine.drives() == cache,
    {
        HashLinkLru { cache }
    }

    /// The cache that the engine drives.
    pub closed spec fn drives(&self) -> Arc<parking_lot::Mutex<HashLinkCache>> {
        self.cache
    }
}

impl Engine for HashLinkLru {
    fn get(&mut self, key: Key) -> bool {
        hashlink_get(&self.cache, key)
    }

    fn insert(&mut self, key: Key, value: Value) {
        hashlink_insert(&self.cache, key, stored(value))
    }

    fn get_with<P: Pacer>(&mut self, key: Key, init: &Initializer<P>) -> (r: Result<
        InitOutcome,
        Unsupported,
    >)
        ensures
            r.is_err(),
    {
        Err(Unsupported)
    }

    fn invalidate(&mut self, key: Key) -> (r: Result<(), Unsupported>)
        ensures
            r.is_err(),
    {
        Err(Unsupported)
    }

    fn invalidate_all(&mut self) -> (r: Result<(), Unsupported>)
        ensures
            r.is_err(),
    {
        Err(Unsupported)
    }

    fn invalidate_entries_if(&mut self, first_byte: u8) -> (r: Result<(), Unsupported>)
        ensures
            r.is_err(),
    {
        Err(Unsupported)
    }

    fn iterate<P: Pacer>(&mut self, walk: &mut Walk<P>) -> (r: Result<(), Unsupported>)
        ensures
            r.is_err(),
    {
        Err(Unsupported)
    }
}

/// The driver of a `hashlink::LruCache`.
pub type HashLink<P> = Driver<HashLinkLru, P>;

impl<P: Pacer> Driver<HashLinkLru, P> {
    /// A driver of `cache` for a run, or `Unsupported` where the run turns
    /// on what the engine does not offer: the engine is never handed a
    /// configuration that it would pass over in silence.
    pub fn new(config: &Config, cache: Arc<parking_lot::Mutex<HashLinkCache>>, pacer: P) -> (r: Result<Self, Unsupported>)
        ensures
            r.is_ok() == offers(capabilities_of(EngineKind::HashLink), *config),
            r.is_ok() ==> {
                &&& r.unwrap().engine().drives() == cache
                &&& r.unwrap().configured().same_as(config)
                &&& r.unwrap().works_in() == setting_of(*config)
                &&& r.unwrap().taken() == Seq::<Step>::empty()
                &&& r.unwrap().counters().is_none()
            },
    {
        if EngineKind::HashLink.supports(config) {
            Ok(Driver::over(config, HashLinkLru::new(cache), pacer, None))
        } else {
            Err(Unsupported)
        }
    }
}

} // verus!
