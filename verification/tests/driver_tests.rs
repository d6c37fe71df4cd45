use mokabench::cache::engine::{Driver, Engine, Walk};
use mokabench::cache::init::{InitClosureType, InitOutcome, Initializer, NoPacing, Pacer};
use mokabench::cache::moka_driver::{
    accepted_or_unsupported, found_or_failed, inserted_or_found, CachePlan, MokaCache, MokaSync, MokaSyncCache,
};
use mokabench::cache::{process_commands, CacheDriver, Key, Unsupported, Value, HASH_SEED_KEY};
use mokabench::config::{Config, RemovalNotificationMode};
use mokabench::eviction_counters::{EvictionCause, EvictionCounters};
use mokabench::load_gen::generate_commands;
use mokabench::parser::{GenericTraceParser, TraceEntry, TraceParser};
use mokabench::report::Report;
use mokabench::span::Span;
use mokabench::trace_file::TraceFile;
use std::collections::HashMap;
use std::sync::atomic::{AtomicU64, Ordering};
use std::sync::{Arc, Mutex};
use xxhash_rust::xxh3::Xxh3Builder;

fn config() -> Config {
    Config::new(TraceFile::S3, None, None, None, None, None)
}

fn entry(line: &str, position: usize) -> TraceEntry {
    GenericTraceParser.parse(line, position).unwrap().unwrap()
}

fn new_cache(capacity: u64, closures: bool) -> MokaCache {
    let mut builder = moka::sync::Cache::builder().max_capacity(capacity);
    if closures {
        builder = builder.support_invalidation_closures();
    }
    builder.build_with_hasher(Xxh3Builder::new().with_seed(HASH_SEED_KEY))
}

fn counts(r: &Report) -> (u64, u64, u64) {
    (r.insert_count, r.read_count, r.hit_count)
}

/// A pacer that counts how often it is asked to wait and to give way.
#[derive(Clone, Default)]
struct CountingPacer {
    pauses: Arc<AtomicU64>,
    paused_nanos: Arc<AtomicU64>,
    yields: Arc<AtomicU64>,
}

impl Pacer for CountingPacer {
    fn pause(&self, delay: Span) {
        self.pauses.fetch_add(1, Ordering::SeqCst);
        self.paused_nanos.fetch_add(delay.nanos as u64, Ordering::SeqCst);
    }

    fn give_way(&self) {
        self.yields.fetch_add(1, Ordering::SeqCst);
    }
}

/// An engine that keeps everything it is given, and lacks what it is told
/// to lack.
#[derive(Clone, Default)]
struct MapEngine {
    map: HashMap<Key, Vec<u8>>,
    inserted: Arc<Mutex<Vec<(Key, u32)>>>,
    single_flight: bool,
}

impl Engine for MapEngine {
    fn get(&mut self, key: Key) -> bool {
        self.map.contains_key(&key)
    }

    fn insert(&mut self, key: Key, value: Value) {
        self.inserted.lock().unwrap().push((key, value.weight));
        self.map.insert(key, value.bytes);
    }

    fn get_with<P: Pacer>(&mut self, key: Key, init: &Initializer<P>) -> Result<InitOutcome, Unsupported> {
        if !self.single_flight {
            return Err(Unsupported);
        }
        if self.map.contains_key(&key) {
            return Ok(InitOutcome::Found);
        }
        match init.kind() {
            InitClosureType::GetOrInsert => {
                let value = init.value();
                self.inserted.lock().unwrap().push((key, value.weight));
                self.map.insert(key, value.bytes);
                Ok(InitOutcome::Inserted)
            }
            InitClosureType::GetOrTryInsertWithError1 => {
                assert!(init.fail_one().is_err());
                Ok(InitOutcome::Failed)
            }
            InitClosureType::GetOrTryInsertWithError2 => {
                assert!(init.fail_two().is_err());
                Ok(InitOutcome::Failed)
            }
        }
    }

    fn invalidate(&mut self, key: Key) -> Result<(), Unsupported> {
        self.map.remove(&key);
        Ok(())
    }

    fn invalidate_all(&mut self) -> Result<(), Unsupported> {
        self.map.clear();
        Ok(())
    }

    fn invalidate_entries_if(&mut self, first_byte: u8) -> Result<(), Unsupported> {
        self.map.retain(|_, v| v[0] != first_byte);
        Ok(())
    }

    fn iterate<P: Pacer>(&mut self, walk: &mut Walk<P>) -> Result<(), Unsupported> {
        for _ in self.map.iter() {
            walk.visit();
        }
        Ok(())
    }
}

fn map_driver(config: &Config) -> Driver<MapEngine, CountingPacer> {
    let engine = MapEngine { single_flight: true, ..MapEngine::default() };
    Driver::over(config, engine, CountingPacer::default(), None)
}

#[test]
fn missing_keys_are_inserted_and_present_keys_are_hits() {
    let mut driver = map_driver(&config());
    let mut report = Report::new("map", 10, None);
    driver.get_or_insert(&entry("10 5", 1), &mut report);
    assert_eq!(counts(&report), (5, 5, 0));
    driver.get_or_insert(&entry("13 4", 2), &mut report);
    // 13 and 14 are hits, 15 and 16 are inserted.
    assert_eq!(counts(&report), (7, 9, 2));
    driver.get_or_insert(&entry("10 7", 3), &mut report);
    assert_eq!(counts(&report), (7, 16, 9));
    assert!(report.hit_count <= report.read_count);
}

#[test]
fn an_empty_range_counts_nothing() {
    let mut driver = map_driver(&config());
    let mut report = Report::new("map", 10, None);
    driver.get_or_insert(&entry("10 0", 1), &mut report);
    driver.update(&entry("10 0", 1), &mut report);
    assert_eq!(driver.get_or_insert_once(&entry("10 0", 1), &mut report), Ok(()));
    assert_eq!(counts(&report), (0, 0, 0));
}

#[test]
fn update_inserts_every_key_and_reads_none() {
    let mut driver = map_driver(&config());
    let mut report = Report::new("map", 10, None);
    driver.update(&entry("10 5", 1), &mut report);
    assert_eq!(counts(&report), (5, 0, 0));
    driver.update(&entry("10 5", 2), &mut report);
    assert_eq!(counts(&report), (10, 0, 0));
    driver.get_or_insert(&entry("10 5", 3), &mut report);
    assert_eq!(counts(&report), (10, 5, 5));
}

#[test]
fn a_failed_initializer_inserts_nothing_and_leaves_the_key_absent() {
    let mut driver = map_driver(&config());
    let mut report = Report::new("map", 10, None);
    // Key 4 is looked up with the first error, key 5 with the second.
    assert_eq!(driver.get_or_insert_once(&entry("4", 1), &mut report), Ok(()));
    assert_eq!(counts(&report), (0, 1, 0));
    assert!(!driver.get(4));
    assert_eq!(driver.get_or_insert_once(&entry("5", 2), &mut report), Ok(()));
    assert_eq!(counts(&report), (0, 2, 0));
    assert!(!driver.get(5));
    // The key can still be looked up and inserted.
    assert_eq!(driver.get_or_insert_once(&entry("4", 3), &mut report), Ok(()));
    assert_eq!(counts(&report), (0, 3, 0));
    driver.get_or_insert(&entry("4", 4), &mut report);
    assert_eq!(counts(&report), (1, 4, 0));
    assert_eq!(driver.get_or_insert_once(&entry("4", 5), &mut report), Ok(()));
    assert_eq!(counts(&report), (1, 5, 1));
}

#[test]
fn only_the_keys_with_a_succeeding_initializer_are_inserted_once() {
    let mut driver = map_driver(&config());
    let mut report = Report::new("map", 10, None);
    // Keys 8..16: 10, 11, 14 and 15 succeed.
    assert_eq!(driver.get_or_insert_once(&entry("8 8", 1), &mut report), Ok(()));
    assert_eq!(counts(&report), (4, 8, 0));
    assert_eq!(driver.get_or_insert_once(&entry("8 8", 2), &mut report), Ok(()));
    assert_eq!(counts(&report), (4, 16, 4));
    for key in 8..16 {
        assert_eq!(driver.get(key), key % 4 >= 2);
    }
}

#[test]
fn an_engine_without_single_flight_is_unsupported_and_counts_nothing() {
    let mut driver = Driver::over(&config(), MapEngine::default(), NoPacing, None);
    let mut report = Report::new("map", 10, None);
    report.read_count = 3;
    assert_eq!(driver.get_or_insert_once(&entry("2 3", 1), &mut report), Err(Unsupported));
    assert_eq!(counts(&report), (0, 3, 0));
}

#[test]
fn request_ids_go_up_by_one_per_key() {
    let mut c = config();
    c.set_size_aware(true);
    let inserted = Arc::new(Mutex::new(Vec::new()));
    let engine = MapEngine { single_flight: true, inserted: Arc::clone(&inserted), ..MapEngine::default() };
    let mut driver = Driver::over(&c, engine, NoPacing, None);
    let mut report = Report::new("map", 10, None);
    let weight = |key: usize, req_id: usize| mokabench::cache::make_value(&c, key, req_id).weight;
    driver.get_or_insert(&entry("100 3", 40), &mut report);
    assert_eq!(*inserted.lock().unwrap(), vec![(100, weight(100, 40)), (101, weight(101, 41)), (102, weight(102, 42))]);
    inserted.lock().unwrap().clear();
    driver.update(&entry("7 2", 9), &mut report);
    assert_eq!(*inserted.lock().unwrap(), vec![(7, weight(7, 9)), (8, weight(8, 10))]);
    inserted.lock().unwrap().clear();
    // Keys 0 and 1 have failing initializers: only 2 and 3 are made, as the third and fourth request.
    assert_eq!(driver.get_or_insert_once(&entry("0 4", 20), &mut report), Ok(()));
    assert_eq!(*inserted.lock().unwrap(), vec![(2, weight(2, 22)), (3, weight(3, 23))]);
    inserted.lock().unwrap().clear();
    // Request ids wrap at the end of the address space.
    driver.update(&entry("5 2", usize::MAX), &mut report);
    assert_eq!(*inserted.lock().unwrap(), vec![(5, weight(5, usize::MAX)), (6, weight(6, 0))]);
}

#[test]
fn the_insertion_delay_is_waited_out_before_every_insert() {
    let c = Config::new(TraceFile::S3, None, None, None, None, Some(5));
    let pacer = CountingPacer::default();
    let engine = MapEngine { single_flight: true, ..MapEngine::default() };
    let mut driver = Driver::over(&c, engine, pacer.clone(), None);
    let mut report = Report::new("map", 10, None);
    driver.get_or_insert(&entry("0 4", 1), &mut report);
    assert_eq!(pacer.pauses.load(Ordering::SeqCst), 4);
    assert_eq!(pacer.paused_nanos.load(Ordering::SeqCst), 4 * 5_000);
    driver.get_or_insert(&entry("0 4", 2), &mut report);
    assert_eq!(pacer.pauses.load(Ordering::SeqCst), 4);
    driver.update(&entry("0 2", 3), &mut report);
    assert_eq!(pacer.pauses.load(Ordering::SeqCst), 6);
    // Keys 0 and 1 have failing initializers and are present; 8 and 9 fail after the wait,
    // 10 succeeds after the wait.
    assert_eq!(driver.get_or_insert_once(&entry("8 3", 4), &mut report), Ok(()));
    assert_eq!(pacer.pauses.load(Ordering::SeqCst), 9);
}

#[test]
fn invalidating_removes_the_keys_of_the_range() {
    let mut driver = map_driver(&config());
    let mut report = Report::new("map", 10, None);
    driver.update(&entry("0 10", 1), &mut report);
    assert_eq!(driver.invalidate(&entry("3 4", 2)), Ok(()));
    for key in 0..10 {
        assert_eq!(driver.get(key), !(3..7).contains(&key));
    }
    assert_eq!(driver.invalidate_all(), Ok(()));
    for key in 0..10 {
        assert!(!driver.get(key));
    }
}

#[test]
fn invalidating_by_predicate_removes_values_of_the_same_low_byte() {
    let mut driver = map_driver(&config());
    let mut report = Report::new("map", 10, None);
    driver.update(&entry("0 4", 1), &mut report);
    driver.update(&entry("256 4", 2), &mut report);
    assert_eq!(driver.invalidate_entries_if(&entry("257 2", 3)), Ok(()));
    for key in [0usize, 3, 256, 259] {
        assert!(driver.get(key));
    }
    for key in [1usize, 2, 257, 258] {
        assert!(!driver.get(key));
    }
}

#[test]
fn a_walk_gives_way_after_every_five_hundred_entries() {
    let pacer = CountingPacer::default();
    let engine = MapEngine { single_flight: true, ..MapEngine::default() };
    let mut driver = Driver::over(&config(), engine, pacer.clone(), None);
    let mut report = Report::new("map", 10, None);
    driver.update(&entry("0 499", 1), &mut report);
    assert_eq!(driver.iterate(), Ok(()));
    assert_eq!(pacer.yields.load(Ordering::SeqCst), 0);
    driver.update(&entry("499 1", 2), &mut report);
    assert_eq!(driver.iterate(), Ok(()));
    assert_eq!(pacer.yields.load(Ordering::SeqCst), 1);
    driver.update(&entry("500 1001", 3), &mut report);
    assert_eq!(driver.iterate(), Ok(()));
    assert_eq!(pacer.yields.load(Ordering::SeqCst), 1 + 3);
}

#[test]
fn a_driver_hands_out_the_counters_it_was_given() {
    let counters = Arc::new(EvictionCounters::new());
    let mut counting = config();
    counting.set_eviction_listener(RemovalNotificationMode::Immediate);
    let driver = Driver::over(&counting, MapEngine::default(), NoPacing, Some(Arc::clone(&counters)));
    counters.increment(EvictionCause::Size);
    let handed = driver.eviction_counters().unwrap();
    assert_eq!(handed.size(), 1);
    assert!(Driver::over(&config(), MapEngine::default(), NoPacing, None).eviction_counters().is_none());
}

#[test]
fn commands_are_applied_in_order_and_counted() {
    let mut c = config();
    c.set_insert_once(true);
    c.set_invalidate(true);
    let lines: Vec<(usize, String)> = (1..=24usize).map(|i| (i, format!("{} 2", i * 2))).collect();
    let mut counter = 0;
    let commands = generate_commands(&c, 200, &mut counter, &lines).unwrap();
    assert_eq!(commands.len(), 24);
    let mut driver = map_driver(&c);
    let mut report = Report::new("map", 10, Some(1));
    assert_eq!(process_commands(commands, &mut driver, &mut report), Ok(()));
    // 24 requests of two keys: 3 are invalidations (8, 16, 24), 21 look up two keys each.
    assert_eq!(report.read_count, 42);
    assert!(report.hit_count <= report.read_count);
    assert!(report.insert_count <= report.read_count - report.hit_count);
    assert_eq!(report.name, "map");
    assert_eq!(report.num_workers, Some(1));
}

#[test]
fn an_unsupported_command_ends_the_batch() {
    let mut c = config();
    c.set_insert_once(true);
    let lines: Vec<(usize, String)> = (1..=5usize).map(|i| (i, format!("{}", i * 10))).collect();
    let mut counter = 0;
    let commands = generate_commands(&c, 200, &mut counter, &lines).unwrap();
    let mut driver = Driver::over(&c, MapEngine::default(), NoPacing, None);
    let mut report = Report::new("map", 10, None);
    assert_eq!(process_commands(commands, &mut driver, &mut report), Err(Unsupported));
    // The third request is the first to go through the initializer.
    assert_eq!(counts(&report), (2, 2, 0));
}

#[test]
fn the_moka_driver_counts_hits_and_misses() {
    let mut driver: MokaSyncCache<NoPacing> = Driver::over(&config(), MokaSync::new(new_cache(1_000, false)), NoPacing, None);
    let mut report = Report::new("Moka Sync Cache", 1_000, Some(1));
    driver.get_or_insert(&entry("10 5", 1), &mut report);
    assert_eq!(counts(&report), (5, 5, 0));
    driver.get_or_insert(&entry("12 5", 2), &mut report);
    assert_eq!(counts(&report), (7, 10, 3));
    driver.update(&entry("10 2", 3), &mut report);
    assert_eq!(counts(&report), (9, 10, 3));
    assert!(driver.get(10));
    assert!(!driver.get(99));
}

#[test]
fn the_moka_driver_stores_the_values_that_are_made() {
    let mut c = config();
    c.set_size_aware(true);
    let cache = new_cache(1_000_000, false);
    let mut driver = Driver::over(&c, MokaSync::new(cache.clone()), NoPacing, None);
    let mut report = Report::new("Moka Sync Cache", 1_000, Some(1));
    driver.get_or_insert(&entry("300 2", 8), &mut report);
    for (i, key) in [300usize, 301].into_iter().enumerate() {
        let (weight, bytes) = cache.get(&key).unwrap();
        let expected = mokabench::cache::make_value(&c, key, 8 + i);
        assert_eq!(weight, expected.weight);
        assert_eq!(&bytes[..], &expected.bytes[..]);
        assert_eq!(bytes[0], (key % 256) as u8);
    }
}

#[test]
fn the_moka_driver_leaves_keys_with_failing_initializers_absent() {
    for entry_api in [false, true] {
        let cache = new_cache(1_000, false);
        let engine = if entry_api { MokaSync::with_entry_api(cache.clone()) } else { MokaSync::new(cache.clone()) };
        let mut driver = Driver::over(&config(), engine, NoPacing, None);
        let mut report = Report::new("Moka Sync Cache", 1_000, Some(1));
        assert_eq!(driver.get_or_insert_once(&entry("4", 1), &mut report), Ok(()));
        assert_eq!(counts(&report), (0, 1, 0));
        assert!(cache.get(&4).is_none());
        assert_eq!(driver.get_or_insert_once(&entry("5", 2), &mut report), Ok(()));
        assert_eq!(counts(&report), (0, 2, 0));
        assert!(cache.get(&5).is_none());
        assert_eq!(driver.get_or_insert_once(&entry("6", 3), &mut report), Ok(()));
        assert_eq!(counts(&report), (1, 3, 0));
        assert!(cache.get(&6).is_some());
        assert_eq!(driver.get_or_insert_once(&entry("4 4", 4), &mut report), Ok(()));
        // 4 and 5 fail again, 6 is a hit, 7 is inserted.
        assert_eq!(counts(&report), (2, 7, 1));
        // A key with a failing initializer that is present is a hit.
        driver.get_or_insert(&entry("4", 5), &mut report);
        assert_eq!(counts(&report), (3, 8, 1));
        assert_eq!(driver.get_or_insert_once(&entry("4", 6), &mut report), Ok(()));
        assert_eq!(counts(&report), (3, 9, 2));
    }
}

#[test]
fn the_moka_driver_invalidates() {
    let cache = new_cache(1_000, true);
    let mut driver = Driver::over(&config(), MokaSync::new(cache.clone()), NoPacing, None);
    let mut report = Report::new("Moka Sync Cache", 1_000, Some(1));
    driver.update(&entry("0 10", 1), &mut report);
    assert_eq!(driver.invalidate(&entry("2 3", 2)), Ok(()));
    for key in 0..10usize {
        assert_eq!(cache.get(&key).is_some(), !(2..5).contains(&key));
    }
    driver.update(&entry("256 10", 3), &mut report);
    assert_eq!(driver.invalidate_entries_if(&entry("7 2", 4)), Ok(()));
    for key in [7usize, 8, 263, 264] {
        assert!(cache.get(&key).is_none());
    }
    for key in [0usize, 9, 256, 265] {
        assert!(cache.get(&key).is_some());
    }
    assert_eq!(driver.invalidate_all(), Ok(()));
    for key in [0usize, 9, 256, 265] {
        assert!(cache.get(&key).is_none());
    }
}

#[test]
fn the_moka_driver_refuses_predicates_the_cache_was_built_without() {
    let mut driver = Driver::over(&config(), MokaSync::new(new_cache(1_000, false)), NoPacing, None);
    assert_eq!(driver.invalidate_entries_if(&entry("7 2", 1)), Err(Unsupported));
    assert_eq!(driver.invalidate_entries_if(&entry("7 0", 1)), Ok(()));
}

#[test]
fn the_moka_driver_walks_its_entries() {
    let pacer = CountingPacer::default();
    let cache = new_cache(100_000, false);
    let mut driver = Driver::over(&config(), MokaSync::new(cache.clone()), pacer.clone(), None);
    let mut report = Report::new("Moka Sync Cache", 100_000, Some(1));
    driver.update(&entry("0 1200", 1), &mut report);
    cache.run_pending_tasks();
    let present = cache.iter().count() as u64;
    assert_eq!(driver.iterate(), Ok(()));
    assert_eq!(pacer.yields.load(Ordering::SeqCst), present / 500);
    assert!(present >= 500);
}

#[test]
fn clones_of_the_moka_driver_share_the_cache() {
    let mut first = Driver::over(&config(), MokaSync::new(new_cache(1_000, false)), NoPacing, None);
    let mut second = first.clone();
    let mut report = Report::new("Moka Sync Cache", 1_000, Some(2));
    first.get_or_insert(&entry("1 3", 1), &mut report);
    second.get_or_insert(&entry("1 3", 2), &mut report);
    assert_eq!(counts(&report), (3, 6, 3));
}

#[test]
fn a_cache_is_planned_from_the_run() {
    let mut c = Config::new(TraceFile::S3, Some(9), Some(4), None, None, None);
    let plan = CachePlan::create_cache(&c, 500, 100);
    assert_eq!(plan.max_capacity, 500);
    assert_eq!(plan.initial_capacity, 100);
    assert_eq!(plan.expiry, None);
    assert_eq!(plan.time_to_live, Some(Span::from_secs(9)));
    assert_eq!(plan.time_to_idle, Some(Span::from_secs(4)));
    assert!(!plan.invalidation_closures && !plan.weigh_entries && !plan.counts_evictions());

    c.set_per_key_expiration(true);
    c.set_invalidate_entries_if(true);
    c.set_size_aware(true);
    c.set_eviction_listener(RemovalNotificationMode::Queued);
    let plan = CachePlan::create_cache(&c, 500, 100);
    let expiry = plan.expiry.unwrap();
    assert_eq!((expiry.ttl, expiry.tti), (Some(Span::from_secs(9)), Some(Span::from_secs(4))));
    assert_eq!((plan.time_to_live, plan.time_to_idle), (None, None));
    assert!(plan.invalidation_closures && plan.weigh_entries && plan.counts_evictions());
    assert_eq!(plan.eviction_listener, RemovalNotificationMode::Queued);

    let mut c = Config::new(TraceFile::S3, None, None, None, None, None);
    c.set_per_key_expiration(true);
    let expiry = CachePlan::create_cache(&c, 1, 1).expiry.unwrap();
    assert_eq!((expiry.ttl, expiry.tti), (None, None));
}

#[test]
fn the_answers_of_the_cache_stand_for_outcomes() {
    assert_eq!(inserted_or_found(true), InitOutcome::Inserted);
    assert_eq!(inserted_or_found(false), InitOutcome::Found);
    assert_eq!(found_or_failed(true), InitOutcome::Found);
    assert_eq!(found_or_failed(false), InitOutcome::Failed);
    assert_eq!(accepted_or_unsupported(true), Ok(()));
    assert_eq!(accepted_or_unsupported(false), Err(Unsupported));
}

#[test]
fn an_engine_drives_the_cache_it_is_given() {
    let cache = new_cache(1_000, false);
    let mut engine = MokaSync::new(cache.clone());
    assert!(!engine.get(7));
    cache.insert(7, (0, Arc::from(vec![7u8; 128])));
    assert!(engine.get(7));
    let mut other = MokaSync::with_entry_api(cache.clone());
    assert!(other.get(7));
    engine.insert(8, mokabench::cache::make_value(&config(), 8, 1));
    assert_eq!(cache.get(&8).unwrap().1[0], 8);
    assert!(!MokaSync::new(new_cache(1_000, false)).get(7));
}

#[test]
fn a_plan_has_counters_exactly_where_it_counts_evictions() {
    let mut c = config();
    assert!(CachePlan::create_cache(&c, 1, 1).eviction_counters().is_none());
    c.set_eviction_listener(RemovalNotificationMode::Queued);
    let counters = CachePlan::create_cache(&c, 1, 1).eviction_counters().unwrap();
    assert_eq!((counters.size(), counters.expired(), counters.explicit()), (0, 0, 0));
    assert!(CachePlan::create_plain_cache(&c, 1, 1).eviction_counters().is_none());
}

#[test]
fn a_plain_cache_is_planned_without_expiry_by_entry() {
    let mut c = Config::new(TraceFile::S3, Some(9), Some(4), None, None, None);
    c.set_per_key_expiration(true);
    c.set_size_aware(true);
    c.set_invalidate_entries_if(true);
    c.set_eviction_listener(RemovalNotificationMode::Immediate);
    let plan = CachePlan::create_plain_cache(&c, 500, 100);
    assert_eq!((plan.max_capacity, plan.initial_capacity), (500, 100));
    assert_eq!(plan.expiry, None);
    assert_eq!(plan.time_to_live, Some(Span::from_secs(9)));
    assert_eq!(plan.time_to_idle, Some(Span::from_secs(4)));
    assert!(plan.weigh_entries && !plan.invalidation_closures && !plan.counts_evictions());
}

#[test]
fn the_moka_driver_is_built_as_the_run_asks() {
    let mut c = config();
    c.set_eviction_listener(RemovalNotificationMode::Immediate);
    let counters = CachePlan::create_cache(&c, 1_000, 10).eviction_counters();
    let cache = new_cache(1_000, false);
    let mut driver = MokaSyncCache::for_run(&c, cache.clone(), counters, NoPacing);
    let mut report = Report::new("Moka Sync Cache", 1_000, Some(1));
    driver.get_or_insert(&entry("1 2", 1), &mut report);
    assert_eq!(counts(&report), (2, 2, 0));
    assert!(cache.get(&1).is_some());
    assert!(driver.eviction_counters().is_some());

    let mut c = config();
    c.set_entry_api(true);
    let mut driver = MokaSyncCache::for_run(&c, cache.clone(), None, NoPacing);
    assert_eq!(driver.get_or_insert_once(&entry("6 1", 2), &mut report), Ok(()));
    assert_eq!(counts(&report), (3, 3, 0));
    assert!(driver.eviction_counters().is_none());
    let mut plain = MokaSyncCache::new(&c, cache.clone(), None, NoPacing);
    plain.get_or_insert(&entry("1 2", 3), &mut report);
    assert_eq!(counts(&report), (3, 5, 2));
    let mut through_entries = MokaSyncCache::with_entry_api(&c, cache, None, NoPacing);
    through_entries.get_or_insert(&entry("1 2", 4), &mut report);
    assert_eq!(counts(&report), (3, 7, 4));
}
