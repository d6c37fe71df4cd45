//! The engine of `quick_cache::sync::Cache`.

use crate::cache::engine::{Driver, Engine, Walk};
use crate::cache::init::{InitOutcome, Initializer, Pacer};
use crate::cache::moka_driver::{stored, Stored};
use crate::cache::{Key, Unsupported, Value};
use std::sync::Arc;
use crate::cache::steps::{setting_of, Step};
use crate::config::Config;
use crate::engines::{capabilities_of, offers, EngineKind};
use vstd::prelude::*;
use xxhash_rust::xxh3::Xxh3Builder;

verus! {

/// `quick_cache::sync::Cache`, carried as it is: nothing is known of what it
/// holds.
#[verifier::external_type_specification]
#[verifier::external_body]
#[verifier::reject_recursive_types(K)]
#[verifier::reject_recursive_types(V)]
#[verifier::reject_recursive_types(We)]
#[verifier::reject_recursive_types(B)]
#[verifier::reject_recursive_types(L)]
pub struct ExQuickCache<K, V, We, B, L>(quick_cache::sync::Cache<K, V, We, B, L>);

/// `quick_cache::UnitWeighter`, by which every entry weighs one.
#[verifier::external_type_specification]
#[verifier::external_body]
pub struct ExUnitWeighter(quick_cache::UnitWeighter);

/// `quick_cache::sync::DefaultLifecycle`, which does nothing when entries leave.
#[verifier::external_type_specification]
#[verifier::external_body]
#[verifier::reject_recursive_types(K)]
#[verifier::reject_recursive_types(V)]
pub struct ExDefaultLifecycle<K, V>(quick_cache::sync::DefaultLifecycle<K, V>);

/// The cache that is driven: keys to stored values, each of weight one,
/// hashed with seeded XXH3.
pub type QuickCacheImpl = quick_cache::sync::Cache<
    Key,
    Stored,
    quick_cache::UnitWeighter,
    Xxh3Builder,
    quick_cache::sync::DefaultLifecycle<Key, Stored>,
>;

/// `Cache::get` returns the value stored under the key, if the cache holds
/// one; nothing is said of the answer.
#[verifier::external_body]
fn quick_cache_get(cache: &Arc<QuickCacheImpl>, key: Key) -> (hit: bool) {
    cache.get(&key).is_some()
}

/// `Cache::insert` stores the value under the key, replacing one that is
/// there.
#[verifier::external_body]
fn quick_cache_insert(cache: &Arc<QuickCacheImpl>, key: Key, value: Stored) {
    cache.insert(key, value)
}

/// The engine of a `quick_cache::sync::Cache`. Its clones share the cache.
/// It looks up and inserts, and nothing else.
#[derive(Clone)]
pub struct QuickSync {
    cache: Arc<QuickCacheImpl>,
}

impl QuickSync {
    /// An engine over `cache`.
    pub fn new(cache: Arc<QuickCacheImpl>) -> (engine: Self)
        ensures
            engine.drives() == cache,
    {
        QuickSync { cache }
    }

    /// The cache that the engine drives.
    pub closed spec fn drives(&self) -> Arc<QuickCacheImpl> {
        self.cache
    }
}

impl Engine for QuickSync {
    fn get(&mut self, key: Key) -> bool {
        quick_cache_get(&self.cache, key)
    }

    fn insert(&mut self, key: Key, value: Value) {
        quick_cache_insert(&self.cache, key, stored(value))
    }

    fn get_with<P: Pacer>(&mut self, key: Key, init: &Initializer<P>) -> (r: Result<
        InitOutcome,
        Unsupported,
    >)
        ensures
            r.is_err(),
    {
        Err(Unsupported)
    }

    fn invalidate(&mut self, key: Key) -> (r: Result<(), Unsupported>)
        ensures
            r.is_err(),
    {
        Err(Unsupported)
    }

    fn invalidate_all(&mut self) -> (r: Result<(), Unsupported>)
        ensures
            r.is_err(),
    {
        Err(Unsupported)
    }

    fn invalidate_entries_if(&mut self, first_byte: u8) -> (r: Result<(), Unsupported>)
        ensures
            r.is_err(),
    {
        Err(Unsupported)
    }

    fn iterate<P: Pacer>(&mut self, walk: &mut Walk<P>) -> (r: Result<(), Unsupported>)
        ensures
            r.is_err(),
    {
        Err(Unsupported)
    }
}

/// The driver of a `quick_cache::sync::Cache`.
pub type QuickCache<P> = Driver<QuickSync, P>;

impl<P: Pacer> Driver<QuickSync, P> {
    /// A driver of `cache` for a run, or `Unsupported` where the run turns
    /// on what the engine does not offer: the engine is never handed a
    /// configuration that it would pass over in silence.
    pub fn new(config: &Config, cache: Arc<QuickCacheImpl>, pacer: P) -> (r: Result<Self, Unsupported>)
        ensures
            r.is_ok() == offers(capabilities_of(EngineKind::QuickCache), *config),
            r.is_ok() ==> {
                &&& r.unwrap().engine().drives() == cache
                &&& r.unwrap().configured().same_as(config)
                &&& r.unwrap().works_in() == setting_of(*config)
                &&& r.unwrap().taken() == Seq::<Step>::empty()
                &&& r.unwrap().counters().is_none()
            },
    {
        if EngineKind::QuickCache.supports(config) {
            Ok(Driver::over(config, QuickSync::new(cache), pacer, None))
        } else {
            Err(Unsupported)
        }
    }
}

} // verus!
