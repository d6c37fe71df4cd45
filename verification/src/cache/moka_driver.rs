//! The engine of `moka::sync::Cache`.

use crate::cache::engine::{Driver, Engine, Walk};
use crate::cache::init::{InitClosureType, InitOutcome, Initializer, Pacer};
use crate::cache::moka_driver::expiry::MokabenchExpiry;
use crate::cache::{value_matches, Key, Unsupported, Value};
use crate::config::{Config, RemovalNotificationMode};
use crate::eviction_counters::EvictionCounters;
use crate::span::Span;
use std::sync::Arc;
use crate::cache::steps::{setting_of, Step};
use vstd::prelude::*;
use xxhash_rust::xxh3::Xxh3Builder;

pub mod expiry;
pub mod sync_segmented;

verus! {

/// `moka::sync::Cache`, carried as it is: nothing is known of what it holds.
#[verifier::external_type_specification]
#[verifier::external_body]
#[verifier::reject_recursive_types(K)]
#[verifier::reject_recursive_types(V)]
#[verifier::reject_recursive_types(S)]
pub struct ExMokaSyncCache<K, V, S>(moka::sync::Cache<K, V, S>);

/// `xxhash_rust::xxh3::Xxh3Builder`, the hasher that the caches are built with.
#[verifier::external_type_specification]
#[verifier::external_body]
pub struct ExXxh3Builder(Xxh3Builder);

/// `Cache::clone` makes another handle onto the same cache.
pub assume_specification<K, V, S>[ <moka::sync::Cache<K, V, S> as Clone>::clone ](
    cache: &moka::sync::Cache<K, V, S>,
) -> moka::sync::Cache<K, V, S>
;

/// What the cache stores for a key: the value's weight and its bytes.
pub type Stored = (u32, Arc<[u8]>);

/// The cache that is driven: keys to stored values, hashed with seeded XXH3.
pub type MokaCache = moka::sync::Cache<Key, Stored, Xxh3Builder>;

/// `Arc::<[u8]>::from` moves the bytes of a vector into shared memory.
#[verifier::external_body]
fn shared_bytes(bytes: Vec<u8>) -> (shared: Arc<[u8]>)
    ensures
        shared@ == bytes@,
{
    Arc::from(bytes)
}

/// A value as the cache stores it.
pub fn stored(value: Value) -> (s: Stored)
    ensures
        s.0 == value.weight,
        s.1@ == value.bytes@,
{
    (value.weight, shared_bytes(value.bytes))
}

/// `Cache::get` returns the value stored under the key, if the cache holds
/// one that is still alive. What it holds depends on its eviction policy, on
/// time and on the other workers, so nothing is said of the answer.
#[verifier::external_body]
fn moka_get(cache: &MokaCache, key: Key) -> (hit: bool) {
    cache.get(&key).is_some()
}

/// `Cache::insert` stores the value under the key, replacing one that is
/// there.
#[verifier::external_body]
fn moka_insert(cache: &MokaCache, key: Key, value: Stored) {
    cache.insert(key, value)
}

/// `Cache::get_with` returns the value under the key or, where there is
/// none, runs the initializer (once among concurrent callers) and stores
/// what it returns.
#[verifier::external_body]
fn moka_get_with<P: Pacer>(cache: &MokaCache, key: Key, init: &Initializer<P>) {
    cache.get_with(key, || stored(init.value()));
}

/// `Cache::try_get_with` returns the value under the key or, where there is
/// none, runs the initializer and hands on its error, storing nothing. The
/// answer says whether a value was there.
#[verifier::external_body]
fn moka_try_get_with_error1<P: Pacer>(cache: &MokaCache, key: Key, init: &Initializer<P>) -> (found:
    bool) {
    cache.try_get_with(key, || init.fail_one().map(stored)).is_ok()
}

/// As `moka_try_get_with_error1`, with the initializer's other error.
#[verifier::external_body]
fn moka_try_get_with_error2<P: Pacer>(cache: &MokaCache, key: Key, init: &Initializer<P>) -> (found:
    bool) {
    cache.try_get_with(key, || init.fail_two().map(stored)).is_ok()
}

/// `Cache::entry(..).or_insert_with` does what `get_with` does and says
/// whether the value it returns was stored by this call.
#[verifier::external_body]
fn moka_entry_or_insert_with<P: Pacer>(cache: &MokaCache, key: Key, init: &Initializer<P>) -> (fresh:
    bool) {
    cache.entry(key).or_insert_with(|| stored(init.value())).is_fresh()
}

/// `Cache::entry(..).or_try_insert_with` does what `try_get_with` does. The
/// answer says whether a value was there.
#[verifier::external_body]
fn moka_entry_or_try_insert_with_error1<P: Pacer>(
    cache: &MokaCache,
    key: Key,
    init: &Initializer<P>,
) -> (found: bool) {
    cache.entry(key).or_try_insert_with(|| init.fail_one().map(stored)).is_ok()
}

/// As `moka_entry_or_try_insert_with_error1`, with the initializer's other
/// error.
#[verifier::external_body]
fn moka_entry_or_try_insert_with_error2<P: Pacer>(
    cache: &MokaCache,
    key: Key,
    init: &Initializer<P>,
) -> (found: bool) {
    cache.entry(key).or_try_insert_with(|| init.fail_two().map(stored)).is_ok()
}

/// `Cache::invalidate` discards the value under the key, if there is one.
#[verifier::external_body]
fn moka_invalidate(cache: &MokaCache, key: Key) {
    cache.invalidate(&key)
}

/// `Cache::invalidate_all` discards all values.
#[verifier::external_body]
fn moka_invalidate_all(cache: &MokaCache) {
    cache.invalidate_all()
}

/// `Cache::invalidate_entries_if` registers a predicate by which the cache
/// discards entries. It refuses, and the answer is `false`, where the cache
/// was built without support for such predicates.
#[verifier::external_body]
fn moka_invalidate_entries_if(cache: &MokaCache, first_byte: u8) -> (accepted: bool) {
    cache.invalidate_entries_if(move |_k, v| value_matches(&v.1, first_byte)).is_ok()
}

/// `Cache::iter` visits the entries of the cache, each once; the walk
/// counts them.
#[verifier::external_body]
fn moka_iterate<P: Pacer>(cache: &MokaCache, walk: &mut Walk<P>) {
    cache.iter().for_each(|_kv| walk.visit())
}

/// The engine of a `moka::sync::Cache`. Its clones share the cache.
#[derive(Clone)]
pub struct MokaSync {
    cache: MokaCache,
    entry_api: bool,
}

impl MokaSync {
    /// Whether the engine looks up through the cache's entry selectors.
    pub closed spec fn uses_entry_api(&self) -> bool {
        self.entry_api
    }

    /// The cache that the engine drives.
    pub closed spec fn drives(&self) -> MokaCache {
        self.cache
    }

    /// An engine that looks up through `get_with` and `try_get_with`.
    pub fn new(cache: MokaCache) -> (engine: Self)
        ensures
            engine.drives() == cache,
            !engine.uses_entry_api(),
    {
        MokaSync { cache, entry_api: false }
    }

    /// An engine that looks up through the cache's entry selectors.
    pub fn with_entry_api(cache: MokaCache) -> (engine: Self)
        ensures
            engine.drives() == cache,
            engine.uses_entry_api(),
    {
        MokaSync { cache, entry_api: true }
    }
}

impl Engine for MokaSync {
    fn get(&mut self, key: Key) -> bool {
        moka_get(&self.cache, key)
    }

    fn insert(&mut self, key: Key, value: Value) {
        moka_insert(&self.cache, key, stored(value))
    }

    fn get_with<P: Pacer>(&mut self, key: Key, init: &Initializer<P>) -> (r: Result<
        InitOutcome,
        Unsupported,
    >)
        ensures
            r.is_ok(),
            init.kind_of() == InitClosureType::GetOrInsert ==> r.unwrap() != InitOutcome::Failed,
            init.kind_of() != InitClosureType::GetOrInsert ==> r.unwrap() != InitOutcome::Inserted,
    {
        let outcome = match (init.kind(), self.entry_api) {
            (InitClosureType::GetOrInsert, false) => {
                moka_get_with(&self.cache, key, init);
                inserted_or_found(init.was_run())
            },
            (InitClosureType::GetOrInsert, true) => inserted_or_found(
                moka_entry_or_insert_with(&self.cache, key, init),
            ),
            (InitClosureType::GetOrTryInsertWithError1, false) => found_or_failed(
                moka_try_get_with_error1(&self.cache, key, init),
            ),
            (InitClosureType::GetOrTryInsertWithError1, true) => found_or_failed(
                moka_entry_or_try_insert_with_error1(&self.cache, key, init),
            ),
            (InitClosureType::GetOrTryInsertWithError2, false) => found_or_failed(
                moka_try_get_with_error2(&self.cache, key, init),
            ),
            (InitClosureType::GetOrTryInsertWithError2, true) => found_or_failed(
                moka_entry_or_try_insert_with_error2(&self.cache, key, init),
            ),
        };
        Ok(outcome)
    }

    fn invalidate(&mut self, key: Key) -> (r: Result<(), Unsupported>)
        ensures
            r.is_ok(),
    {
        moka_invalidate(&self.cache, key);
        Ok(())
    }

    fn invalidate_all(&mut self) -> (r: Result<(), Unsupported>)
        ensures
            r.is_ok(),
    {
        moka_invalidate_all(&self.cache);
        Ok(())
    }

    fn invalidate_entries_if(&mut self, first_byte: u8) -> Result<(), Unsupported> {
        accepted_or_unsupported(moka_invalidate_entries_if(&self.cache, first_byte))
    }

    fn iterate<P: Pacer>(&mut self, walk: &mut Walk<P>) -> (r: Result<(), Unsupported>)
        ensures
            r.is_ok(),
    {
        moka_iterate(&self.cache, walk);
        Ok(())
    }
}

/// The outcome of a lookup whose initializer fails.
pub fn found_or_failed(found: bool) -> (outcome: InitOutcome)
    ensures
        outcome == if found {
            InitOutcome::Found
        } else {
            InitOutcome::Failed
        },
{
    if found {
        InitOutcome::Found
    } else {
        InitOutcome::Failed
    }
}

/// The outcome of a lookup whose initializer makes a value: the value was
/// stored where the cache ran the initializer, and found where it did not.
pub fn inserted_or_found(fresh: bool) -> (outcome: InitOutcome)
    ensures
        outcome == if fresh {
            InitOutcome::Inserted
        } else {
            InitOutcome::Found
        },
{
    if fresh {
        InitOutcome::Inserted
    } else {
        InitOutcome::Found
    }
}

/// The answer to a predicate handed to the cache: done where the cache
/// accepted it, unsupported where it refused.
pub fn accepted_or_unsupported(accepted: bool) -> (r: Result<(), Unsupported>)
    ensures
        r.is_ok() == accepted,
{
    if accepted {
        Ok(())
    } else {
        Err(Unsupported)
    }
}

/// The driver of a `moka::sync::Cache`.
pub type MokaSyncCache<P> = Driver<MokaSync, P>;

impl<P: Pacer> Driver<MokaSync, P> {
    /// A driver of `cache` that looks up through `get_with` and
    /// `try_get_with`. `eviction_counters` are the counters that the cache
    /// reports its evictions to.
    pub fn new(
        config: &Config,
        cache: MokaCache,
        eviction_counters: Option<Arc<EvictionCounters>>,
        pacer: P,
    ) -> (driver: Self)
        requires
            eviction_counters.is_some() == (config.eviction_listener
                != RemovalNotificationMode::Disabled),
        ensures
            driver.engine().drives() == cache,
            !driver.engine().uses_entry_api(),
            driver.configured().same_as(config),
            driver.works_in() == setting_of(*config),
            driver.taken() == Seq::<Step>::empty(),
            driver.counters() == eviction_counters,
    {
        Driver::over(config, MokaSync::new(cache), pacer, eviction_counters)
    }

    /// A driver of `cache` that looks up through the cache's entry
    /// selectors.
    pub fn with_entry_api(
        config: &Config,
        cache: MokaCache,
        eviction_counters: Option<Arc<EvictionCounters>>,
        pacer: P,
    ) -> (driver: Self)
        requires
            eviction_counters.is_some() == (config.eviction_listener
                != RemovalNotificationMode::Disabled),
        ensures
            driver.engine().drives() == cache,
            driver.engine().uses_entry_api(),
            driver.configured().same_as(config),
            driver.works_in() == setting_of(*config),
            driver.taken() == Seq::<Step>::empty(),
            driver.counters() == eviction_counters,
    {
        Driver::over(config, MokaSync::with_entry_api(cache), pacer, eviction_counters)
    }

    /// The driver of `cache` for a run: through the entry selectors where
    /// the run asks for them.
    pub fn for_run(
        config: &Config,
        cache: MokaCache,
        eviction_counters: Option<Arc<EvictionCounters>>,
        pacer: P,
    ) -> (driver: Self)
        requires
            eviction_counters.is_some() == (config.eviction_listener
                != RemovalNotificationMode::Disabled),
        ensures
            driver.engine().drives() == cache,
            driver.engine().uses_entry_api() == config.entry_api,
            driver.configured().same_as(config),
            driver.works_in() == setting_of(*config),
            driver.taken() == Seq::<Step>::empty(),
            driver.counters() == eviction_counters,
    {
        if config.entry_api {
            Self::with_entry_api(config, cache, eviction_counters, pacer)
        } else {
            Self::new(config, cache, eviction_counters, pacer)
        }
    }
}

/// How a cache is to be built for a run.
#[derive(Clone, Copy, Debug, PartialEq, Eq, Structural)]
pub struct CachePlan {
    pub max_capacity: u64,
    pub initial_capacity: usize,
    /// Expiry decided entry by entry.
    pub expiry: Option<MokabenchExpiry>,
    /// Cache-wide time to live.
    pub time_to_live: Option<Span>,
    /// Cache-wide time to idle.
    pub time_to_idle: Option<Span>,
    /// The cache accepts predicates to invalidate by.
    pub invalidation_closures: bool,
    /// The cache weighs each entry by its value's weight.
    pub weigh_entries: bool,
    /// How evictions are reported to the eviction counters, if at all.
    pub eviction_listener: RemovalNotificationMode,
}

/// The plan of the cache for a run: time to live and time to idle are set
/// cache-wide, or handed to a per-entry expiry where the run asks for one;
/// predicates, weights and eviction reports are on where the run uses them.
pub open spec fn cache_plan(config: Config, max_cap: u64, init_cap: usize) -> CachePlan {
    CachePlan {
        max_capacity: max_cap,
        initial_capacity: init_cap,
        expiry: if config.per_key_expiration {
            Some(MokabenchExpiry { ttl: config.ttl, tti: config.tti })
        } else {
            None
        },
        time_to_live: if config.per_key_expiration {
            None
        } else {
            config.ttl
        },
        time_to_idle: if config.per_key_expiration {
            None
        } else {
            config.tti
        },
        invalidation_closures: config.invalidate_entries_if,
        weigh_entries: config.size_aware,
        eviction_listener: config.eviction_listener,
    }
}

/// The plan of a cache that has no expiry by entry, takes no predicates and
/// reports no evictions: time to live and time to idle are set cache-wide
/// as the run has them, and entries are weighed where the run is size
/// aware.
pub open spec fn plain_cache_plan(config: Config, max_cap: u64, init_cap: usize) -> CachePlan {
    CachePlan {
        max_capacity: max_cap,
        initial_capacity: init_cap,
        expiry: None,
        time_to_live: config.ttl,
        time_to_idle: config.tti,
        invalidation_closures: false,
        weigh_entries: config.size_aware,
        eviction_listener: RemovalNotificationMode::Disabled,
    }
}

impl CachePlan {
    /// Plans a cache that has no expiry by entry, takes no predicates and
    /// reports no evictions.
    pub fn create_plain_cache(config: &Config, max_cap: u64, init_cap: usize) -> (plan: CachePlan)
        ensures
            plan == plain_cache_plan(*config, max_cap, init_cap),
    {
        CachePlan {
            max_capacity: max_cap,
            initial_capacity: init_cap,
            expiry: None,
            time_to_live: config.ttl,
            time_to_idle: config.tti,
            invalidation_closures: false,
            weigh_entries: config.size_aware,
            eviction_listener: RemovalNotificationMode::Disabled,
        }
    }

    /// The eviction counters of the cache: new ones, standing at zero, where
    /// the cache reports its evictions, and none where it does not.
    pub fn eviction_counters(&self) -> (counters: Option<Arc<EvictionCounters>>)
        ensures
            counters.is_some() == (self.eviction_listener != RemovalNotificationMode::Disabled),
    {
        if self.counts_evictions() {
            Some(Arc::new(EvictionCounters::new()))
        } else {
            None
        }
    }

    /// Plans the cache of a run.
    pub fn create_cache(config: &Config, max_cap: u64, init_cap: usize) -> (plan: CachePlan)
        ensures
            plan == cache_plan(*config, max_cap, init_cap),
    {
        let mut plan = CachePlan {
            max_capacity: max_cap,
            initial_capacity: init_cap,
            expiry: None,
            time_to_live: None,
            time_to_idle: None,
            invalidation_closures: false,
            weigh_entries: false,
            eviction_listener: config.eviction_listener,
        };
        if config.per_key_expiration {
            plan.expiry = Some(MokabenchExpiry::new(config.ttl, config.tti));
        }
        if let Some(ttl) = config.ttl {
            if !config.per_key_expiration {
                plan.time_to_live = Some(ttl);
            }
        }
        if let Some(tti) = config.tti {
            if !config.per_key_expiration {
                plan.time_to_idle = Some(tti);
            }
        }
        if config.invalidate_entries_if {
            plan.invalidation_closures = true;
        }
        if config.size_aware {
            plan.weigh_entries = true;
        }
        plan
    }

    /// Whether the cache reports its evictions.
    pub fn counts_evictions(&self) -> (counts: bool)
        ensures
            counts == (self.eviction_listener != RemovalNotificationMode::Disabled),
    {
        self.eviction_listener != RemovalNotificationMode::Disabled
    }
}

} // verus!
