//! The engine of `stretto::Cache`.

use crate::cache::engine::{Driver, Engine, Walk};
use crate::cache::init::{InitOutcome, Initializer, Pacer};
use crate::cache::moka_driver::{stored, Stored};
use crate::cache::{Key, Unsupported, Value};
use crate::cache::steps::{setting_of, Step};
use crate::config::Config;
use crate::engines::{capabilities_of, offers, EngineKind};
use vstd::prelude::*;
use xxhash_rust::xxh3::Xxh3Builder;

verus! {

/// `stretto::Cache`, carried as it is: nothing is known of what it holds.
#[verifier::external_type_specification]
#[verifier::external_body]
#[verifier::reject_recursive_types(K)]
#[verifier::reject_recursive_types(V)]
#[verifier::reject_recursive_types(KH)]
#[verifier::reject_recursive_types(C)]
#[verifier::reject_recursive_types(U)]
#[verifier::reject_recursive_types(CB)]
#[verifier::reject_recursive_types(S)]
pub struct ExStrettoCache<K, V, KH, C, U, CB, S>(stretto::Cache<K, V, KH, C, U, CB, S>);

/// `stretto::DefaultKeyBuilder`, the cache's way from keys to hashes.
#[verifier::external_type_specification]
#[verifier::external_body]
#[verifier::reject_recursive_types(K)]
pub struct ExDefaultKeyBuilder<K>(stretto::DefaultKeyBuilder<K>);

/// `stretto::DefaultCoster`, which costs nothing beyond what an insert says.
#[verifier::external_type_specification]
#[verifier::external_body]
#[verifier::reject_recursive_types(V)]
pub struct ExDefaultCoster<V>(stretto::DefaultCoster<V>);

/// `stretto::DefaultUpdateValidator`, which lets every update through.
#[verifier::external_type_specification]
#[verifier::external_body]
#[verifier::reject_recursive_types(V)]
pub struct ExDefaultUpdateValidator<V>(stretto::DefaultUpdateValidator<V>);

/// `stretto::DefaultCacheCallback`, which does nothing when entries leave.
#[verifier::external_type_specification]
#[verifier::external_body]
#[verifier::reject_recursive_types(V)]
pub struct ExDefaultCacheCallback<V>(stretto::DefaultCacheCallback<V>);

/// `Cache::clone` makes another handle onto the same cache.
pub assume_specification<K, V, KH, C, U, CB, S>[ <stretto::Cache<K, V, KH, C, U, CB, S> as Clone>::clone ](
    cache: &stretto::Cache<K, V, KH, C, U, CB, S>,
) -> stretto::Cache<K, V, KH, C, U, CB, S>
;

/// The cache that is driven: keys to stored values, hashed with seeded XXH3.
pub type StrettoCacheImpl = stretto::Cache<
    Key,
    Stored,
    stretto::DefaultKeyBuilder<Key>,
    stretto::DefaultCoster<Stored>,
    stretto::DefaultUpdateValidator<Stored>,
    stretto::DefaultCacheCallback<Stored>,
    Xxh3Builder,
>;

/// The cost of every entry.
pub const ENTRY_COST: i64 = 1;

/// `Cache::get` returns the value stored under the key, if the cache holds
/// one; nothing is said of the answer.
#[verifier::external_body]
fn stretto_get(cache: &StrettoCacheImpl, key: Key) -> (hit: bool) {
    cache.get(&key).is_some()
}

/// `Cache::try_insert` hands the value to the cache, which admits or drops
/// it as its policy decides, and does nothing where the cache no longer
/// takes values.
#[verifier::external_body]
fn stretto_insert(cache: &StrettoCacheImpl, key: Key, value: Stored, cost: i64) {
    let _ = cache.try_insert(key, value, cost);
}

/// The engine of a `stretto::Cache`. Its clones share the cache. It looks
/// up and inserts, and nothing else.
#[derive(Clone)]
pub struct StrettoSync {
    cache: StrettoCacheImpl,
}

impl StrettoSync {
    /// An engine over `cache`.
    pub fn new(cache: StrettoCacheImpl) -> (engine: Self)
        ensures
            engine.drives() == cache,
    {
        StrettoSync { cache }
    }

    /// The cache that the engine drives.
    pub closed spec fn drives(&self) -> StrettoCacheImpl {
        self.cache
    }
}

impl Engine for StrettoSync {
    fn get(&mut self, key: Key) -> bool {
        stretto_get(&self.cache, key)
    }

    fn insert(&mut self, key: Key, value: Value) {
        stretto_insert(&self.cache, key, stored(value), ENTRY_COST);
    }

    fn get_with<P: Pacer>(&mut self, key: Key, init: &Initializer<P>) -> (r: Result<
        InitOutcome,
        Unsupported,
    >)
        ensures
            r.is_err(),
    {
        Err(Unsupported)
    }

    fn invalidate(&mut self, key: Key) -> (r: Result<(), Unsupported>)
        ensures
            r.is_err(),
    {
        Err(Unsupported)
    }

    fn invalidate_all(&mut self) -> (r: Result<(), Unsupported>)
        ensures
            r.is_err(),
    {
        Err(Unsupported)
    }

    fn invalidate_entries_if(&mut self, first_byte: u8) -> (r: Result<(), Unsupported>)
        ensures
            r.is_err(),
    {
        Err(Unsupported)
    }

    fn iterate<P: Pacer>(&mut self, walk: &mut Walk<P>) -> (r: Result<(), Unsupported>)
        ensures
            r.is_err(),
    {
        Err(Unsupported)
    }
}

/// The driver of a `stretto::Cache`.
pub type StrettoCache<P> = Driver<StrettoSync, P>;

impl<P: Pacer> Driver<StrettoSync, P> {
    /// A driver of `cache` for a run, or `Unsupported` where the run turns
    /// on what the engine does not offer: the engine is never handed a
    /// configuration that it would pass over in silence.
    pub fn new(config: &Config, cache: StrettoCacheImpl, pacer: P) -> (r: Result<Self, Unsupported>)
        ensures
            r.is_ok() == offers(capabilities_of(EngineKind::Stretto), *config),
            r.is_ok() ==> {
                &&& r.unwrap().engine().drives() == cache
                &&& r.unwrap().configured().same_as(config)
                &&& r.unwrap().works_in() == setting_of(*config)
                &&& r.unwrap().taken() == Seq::<Step>::empty()
                &&& r.unwrap().counters().is_none()
            },
    {
        if EngineKind::Stretto.supports(config) {
            Ok(Driver::over(config, StrettoSync::new(cache), pacer, None))
        } else {
            Err(Unsupported)
        }
    }
}

} // verus!
