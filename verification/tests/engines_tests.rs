use mokabench::cache::engine::Driver;
use mokabench::cache::hashlink_driver::{HashLink, HashLinkLru};
use mokabench::cache::init::{NoPacing, Pacer};
use mokabench::cache::mini_moka_driver::sync_cache::{MiniMokSyncCache, MiniMokaSync};
use mokabench::cache::mini_moka_driver::unsync_cache::{MiniMokaUnsync, MiniMokaUnsyncCache};
use mokabench::cache::moka_driver::sync_segmented::{MokaSegmented, MokaSegmentedCache};
use mokabench::cache::quick_cache_driver::{QuickCache, QuickSync};
use mokabench::cache::stretto_driver::{StrettoCache, StrettoSync};
use mokabench::cache::{CacheDriver, Unsupported, HASH_SEED_KEY};
use mokabench::config::Config;
use mokabench::parser::{GenericTraceParser, TraceEntry, TraceParser};
use mokabench::report::Report;
use mokabench::span::Span;
use mokabench::trace_file::TraceFile;
use std::sync::atomic::{AtomicU64, Ordering};
use std::sync::Arc;
use xxhash_rust::xxh3::Xxh3Builder;

fn config() -> Config {
    Config::new(TraceFile::S3, None, None, None, None, None)
}

fn hasher() -> Xxh3Builder {
    Xxh3Builder::new().with_seed(HASH_SEED_KEY)
}

fn entry(line: &str, position: usize) -> TraceEntry {
    GenericTraceParser.parse(line, position).unwrap().unwrap()
}

fn counts(r: &Report) -> (u64, u64, u64) {
    (r.insert_count, r.read_count, r.hit_count)
}

#[derive(Clone, Default)]
struct YieldCounter {
    yields: Arc<AtomicU64>,
}

impl Pacer for YieldCounter {
    fn pause(&self, _delay: Span) {}

    fn give_way(&self) {
        self.yields.fetch_add(1, Ordering::SeqCst);
    }
}

#[test]
fn the_segmented_moka_driver_counts_hits_and_misses() {
    for entry_api in [false, true] {
        let cache = moka::sync::SegmentedCache::builder(4)
            .max_capacity(10_000)
            .support_invalidation_closures()
            .build_with_hasher(hasher());
        let engine = if entry_api { MokaSegmented::with_entry_api(cache.clone()) } else { MokaSegmented::new(cache.clone()) };
        let mut driver: MokaSegmentedCache<NoPacing> = Driver::over(&config(), engine, NoPacing, None);
        let mut report = Report::new("Moka SegmentedCache(4)", 10_000, Some(1));
        driver.get_or_insert(&entry("10 5", 1), &mut report);
        assert_eq!(counts(&report), (5, 5, 0));
        driver.get_or_insert(&entry("12 5", 2), &mut report);
        assert_eq!(counts(&report), (7, 10, 3));
        driver.update(&entry("10 2", 3), &mut report);
        assert_eq!(counts(&report), (9, 10, 3));
        assert_eq!(cache.get(&10).unwrap().1[0], 10);

        // Keys 20 and 21 have failing initializers, 22 and 23 succeeding ones.
        assert_eq!(driver.get_or_insert_once(&entry("20 4", 4), &mut report), Ok(()));
        assert_eq!(counts(&report), (11, 14, 3));
        assert!(cache.get(&20).is_none() && cache.get(&21).is_none());
        assert!(cache.get(&22).is_some() && cache.get(&23).is_some());
        assert_eq!(driver.get_or_insert_once(&entry("20 4", 5), &mut report), Ok(()));
        assert_eq!(counts(&report), (11, 18, 5));

        assert_eq!(driver.invalidate(&entry("22", 6)), Ok(()));
        assert!(cache.get(&22).is_none());
        assert_eq!(driver.invalidate_entries_if(&entry("23", 7)), Ok(()));
        assert!(cache.get(&23).is_none());
        assert!(cache.get(&16).is_some());
        assert_eq!(driver.invalidate_all(), Ok(()));
        assert!(cache.get(&16).is_none());
    }
}

#[test]
fn the_segmented_moka_driver_walks_and_refuses_unsupported_predicates() {
    let cache = moka::sync::SegmentedCache::builder(2).max_capacity(100_000).build_with_hasher(hasher());
    let pacer = YieldCounter::default();
    let mut driver = Driver::over(&config(), MokaSegmented::new(cache.clone()), pacer.clone(), None);
    let mut report = Report::new("Moka SegmentedCache(2)", 100_000, Some(1));
    assert_eq!(driver.invalidate_entries_if(&entry("1", 1)), Err(Unsupported));
    driver.update(&entry("0 1100", 2), &mut report);
    cache.run_pending_tasks();
    let present = cache.iter().count() as u64;
    assert!(present >= 500);
    assert_eq!(driver.iterate(), Ok(()));
    assert_eq!(pacer.yields.load(Ordering::SeqCst), present / 500);
}

#[test]
fn the_mini_moka_sync_driver_counts_and_invalidates() {
    let cache = mini_moka::sync::Cache::builder().max_capacity(100_000).build_with_hasher(hasher());
    let pacer = YieldCounter::default();
    let mut driver: MiniMokSyncCache<YieldCounter> =
        Driver::over(&config(), MiniMokaSync::new(cache.clone()), pacer.clone(), None);
    let mut report = Report::new("Mini Moka Sync Cache", 100_000, Some(1));
    driver.get_or_insert(&entry("10 5", 1), &mut report);
    assert_eq!(counts(&report), (5, 5, 0));
    driver.get_or_insert(&entry("12 5", 2), &mut report);
    assert_eq!(counts(&report), (7, 10, 3));
    driver.update(&entry("10 2", 3), &mut report);
    assert_eq!(counts(&report), (9, 10, 3));
    assert_eq!(cache.get(&12).unwrap().1[0], 12);
    assert_eq!(driver.invalidate(&entry("12", 4)), Ok(()));
    assert!(cache.get(&12).is_none());
    assert!(cache.get(&13).is_some());

    assert_eq!(driver.get_or_insert_once(&entry("1 2", 5), &mut report), Err(Unsupported));
    assert_eq!(driver.invalidate_entries_if(&entry("1 2", 6)), Err(Unsupported));
    assert_eq!(counts(&report), (9, 10, 3));

    driver.update(&entry("1000 1000", 7), &mut report);
    let present = cache.iter().count() as u64;
    assert!(present >= 500);
    assert_eq!(driver.iterate(), Ok(()));
    assert_eq!(pacer.yields.load(Ordering::SeqCst), present / 500);

    assert_eq!(driver.invalidate_all(), Ok(()));
    assert!(cache.get(&13).is_none());
    let mut second = driver.clone();
    second.get_or_insert(&entry("13", 8), &mut report);
    assert!(cache.get(&13).is_some());
}

#[test]
fn the_mini_moka_unsync_driver_counts_and_invalidates() {
    let cache = mini_moka::unsync::Cache::builder().max_capacity(100_000).build_with_hasher(hasher());
    let pacer = YieldCounter::default();
    let mut driver: MiniMokaUnsyncCache<YieldCounter> =
        Driver::over(&config(), MiniMokaUnsync::new(cache), pacer.clone(), None);
    let mut report = Report::new("Mini Moka Unsync Cache", 100_000, Some(1));
    driver.get_or_insert(&entry("10 5", 1), &mut report);
    assert_eq!(counts(&report), (5, 5, 0));
    driver.get_or_insert(&entry("12 5", 2), &mut report);
    assert_eq!(counts(&report), (7, 10, 3));
    driver.update(&entry("10 2", 3), &mut report);
    assert_eq!(counts(&report), (9, 10, 3));
    assert_eq!(driver.invalidate(&entry("12", 4)), Ok(()));
    assert!(!driver.get(12));
    assert!(driver.get(13));
    assert_eq!(driver.invalidate_entries_if(&entry("269", 5)), Ok(()));
    assert!(!driver.get(13));
    assert!(driver.get(14));
    assert_eq!(driver.get_or_insert_once(&entry("1 2", 6), &mut report), Err(Unsupported));

    driver.update(&entry("1000 1000", 7), &mut report);
    assert_eq!(driver.iterate(), Ok(()));
    assert!(pacer.yields.load(Ordering::SeqCst) >= 1);
    assert!(pacer.yields.load(Ordering::SeqCst) <= 2);

    assert_eq!(driver.invalidate_all(), Ok(()));
    assert!(!driver.get(14));
}

#[test]
fn the_hashlink_driver_keeps_the_most_recently_used() {
    let cache = Arc::new(parking_lot::Mutex::new(hashlink::LruCache::with_hasher(3, hasher())));
    let mut driver: HashLink<NoPacing> = Driver::over(&config(), HashLinkLru::new(Arc::clone(&cache)), NoPacing, None);
    let mut report = Report::new("HashLink (LRU w/ Mutex)", 3, Some(1));
    driver.get_or_insert(&entry("1 3", 1), &mut report);
    assert_eq!(counts(&report), (3, 3, 0));
    driver.get_or_insert(&entry("1 3", 2), &mut report);
    assert_eq!(counts(&report), (3, 6, 3));
    // A fourth key pushes out key 1, the least recently used.
    driver.get_or_insert(&entry("4", 3), &mut report);
    assert_eq!(counts(&report), (4, 7, 3));
    assert!(!driver.get(1));
    assert!(driver.get(2) && driver.get(3) && driver.get(4));
    assert_eq!(cache.lock().get(&4).unwrap().1[0], 4);
    driver.update(&entry("2", 4), &mut report);
    assert_eq!(counts(&report), (5, 7, 3));
    let mut second = driver.clone();
    assert!(second.get(2));

    assert_eq!(driver.get_or_insert_once(&entry("1", 5), &mut report), Err(Unsupported));
    assert_eq!(driver.invalidate(&entry("1", 5)), Err(Unsupported));
    assert_eq!(driver.invalidate_all(), Err(Unsupported));
    assert_eq!(driver.invalidate_entries_if(&entry("1", 5)), Err(Unsupported));
    assert_eq!(driver.iterate(), Err(Unsupported));
    assert!(driver.eviction_counters().is_none());
}

#[test]
fn the_quick_cache_driver_counts_hits_and_misses() {
    let cache = Arc::new(quick_cache::sync::Cache::with(
        1_000,
        1_000,
        quick_cache::UnitWeighter,
        hasher(),
        quick_cache::sync::DefaultLifecycle::default(),
    ));
    let mut driver: QuickCache<NoPacing> = Driver::over(&config(), QuickSync::new(Arc::clone(&cache)), NoPacing, None);
    let mut report = Report::new("QuickCache Sync Cache", 1_000, Some(1));
    driver.get_or_insert(&entry("10 5", 1), &mut report);
    assert_eq!(counts(&report), (5, 5, 0));
    driver.get_or_insert(&entry("12 5", 2), &mut report);
    assert_eq!(counts(&report), (7, 10, 3));
    driver.update(&entry("10 2", 3), &mut report);
    assert_eq!(counts(&report), (9, 10, 3));
    assert_eq!(cache.get(&12).unwrap().1[0], 12);
    assert!(cache.get(&99).is_none());
    let mut second = driver.clone();
    assert!(second.get(12));

    assert_eq!(driver.get_or_insert_once(&entry("1", 5), &mut report), Err(Unsupported));
    assert_eq!(driver.invalidate(&entry("1", 5)), Err(Unsupported));
    assert_eq!(driver.invalidate_all(), Err(Unsupported));
    assert_eq!(driver.invalidate_entries_if(&entry("1", 5)), Err(Unsupported));
    assert_eq!(driver.iterate(), Err(Unsupported));
}

#[test]
fn the_stretto_driver_counts_hits_and_misses() {
    let cache = stretto::Cache::builder(10_000, 1_000).set_hasher(hasher()).finalize().unwrap();
    let mut driver: StrettoCache<NoPacing> = Driver::over(&config(), StrettoSync::new(cache.clone()), NoPacing, None);
    let mut report = Report::new("Stretto", 1_000, Some(1));
    driver.get_or_insert(&entry("10 5", 1), &mut report);
    assert_eq!(counts(&report), (5, 5, 0));
    cache.wait().unwrap();
    let admitted = (10..15usize).filter(|k| cache.get(k).is_some()).count() as u64;
    assert!(admitted >= 1);
    driver.get_or_insert(&entry("10 5", 2), &mut report);
    assert_eq!(report.read_count, 10);
    assert_eq!(report.hit_count, admitted);
    assert_eq!(report.insert_count, 5 + (5 - admitted));
    driver.update(&entry("20 2", 3), &mut report);
    assert_eq!(report.insert_count, 5 + (5 - admitted) + 2);
    assert_eq!(report.read_count, 10);

    assert_eq!(driver.get_or_insert_once(&entry("1", 5), &mut report), Err(Unsupported));
    assert_eq!(driver.invalidate(&entry("1", 5)), Err(Unsupported));
    assert_eq!(driver.invalidate_all(), Err(Unsupported));
    assert_eq!(driver.invalidate_entries_if(&entry("1", 5)), Err(Unsupported));
    assert_eq!(driver.iterate(), Err(Unsupported));
}

fn unsupported_configs() -> Vec<Config> {
    let mut configs = vec![
        Config::new(TraceFile::S3, Some(1), None, None, None, None),
        Config::new(TraceFile::S3, None, Some(1), None, None, None),
    ];
    for toggle in 0..7 {
        let mut c = config();
        match toggle {
            0 => c.set_size_aware(true),
            1 => c.set_insert_once(true),
            2 => c.set_invalidate(true),
            3 => c.set_invalidate_all(true),
            4 => c.set_invalidate_entries_if(true),
            5 => c.set_iterate(true),
            _ => c.set_eviction_listener(mokabench::config::RemovalNotificationMode::Immediate),
        }
        configs.push(c);
    }
    configs
}

fn supported_configs() -> Vec<Config> {
    let mut with_entries = config();
    with_entries.set_entry_api(true);
    let mut by_entry = config();
    by_entry.set_per_key_expiration(true);
    vec![config(), Config::new(TraceFile::S3, None, None, Some(vec![1]), Some(2), Some(3)), with_entries, by_entry]
}

#[test]
fn a_stretto_driver_is_refused_a_run_it_cannot_honour() {
    let cache = stretto::Cache::builder(1_000, 100).set_hasher(hasher()).finalize().unwrap();
    for c in unsupported_configs() {
        assert!(matches!(StrettoCache::new(&c, cache.clone(), NoPacing), Err(Unsupported)));
    }
    for c in supported_configs() {
        assert!(StrettoCache::new(&c, cache.clone(), NoPacing).is_ok());
    }
}

#[test]
fn a_hashlink_driver_is_refused_a_run_it_cannot_honour() {
    let cache = Arc::new(parking_lot::Mutex::new(hashlink::LruCache::with_hasher(3, hasher())));
    for c in unsupported_configs() {
        assert!(matches!(HashLink::new(&c, Arc::clone(&cache), NoPacing), Err(Unsupported)));
    }
    for c in supported_configs() {
        let mut driver = HashLink::new(&c, Arc::clone(&cache), NoPacing).unwrap();
        assert!(driver.eviction_counters().is_none());
        let mut report = Report::new("HashLink (LRU w/ Mutex)", 3, Some(1));
        driver.get_or_insert(&entry("1", 1), &mut report);
        assert_eq!(report.read_count, 1);
        assert!(cache.lock().get(&1).is_some());
    }
}

#[test]
fn a_quick_cache_driver_is_refused_a_run_it_cannot_honour() {
    let cache = Arc::new(quick_cache::sync::Cache::with(
        100,
        100,
        quick_cache::UnitWeighter,
        hasher(),
        quick_cache::sync::DefaultLifecycle::default(),
    ));
    for c in unsupported_configs() {
        assert!(matches!(QuickCache::new(&c, Arc::clone(&cache), NoPacing), Err(Unsupported)));
    }
    for c in supported_configs() {
        assert!(QuickCache::new(&c, Arc::clone(&cache), NoPacing).is_ok());
    }
}

#[test]
fn the_mini_moka_drivers_take_what_their_caches_offer() {
    let sync = || mini_moka::sync::Cache::builder().max_capacity(100).build_with_hasher(hasher());
    let unsync = || mini_moka::unsync::Cache::builder().max_capacity(100).build_with_hasher(hasher());
    for (i, c) in unsupported_configs().into_iter().enumerate() {
        // Spans, weights, removal and walks are offered; the initializer and the listener are not.
        let offered = [0usize, 1, 2, 4, 5, 7].contains(&i);
        assert_eq!(MiniMokSyncCache::new(&c, sync(), NoPacing).is_ok(), offered);
        // The cache of one worker takes predicates as well.
        assert_eq!(MiniMokaUnsyncCache::new(&c, unsync(), NoPacing).is_ok(), offered || i == 6);
    }
    for c in supported_configs() {
        assert!(MiniMokSyncCache::new(&c, sync(), NoPacing).is_ok());
        assert!(MiniMokaUnsyncCache::new(&c, unsync(), NoPacing).is_ok());
    }
}

#[test]
fn the_segmented_driver_is_built_as_the_run_asks() {
    let cache = moka::sync::SegmentedCache::builder(2).max_capacity(1_000).build_with_hasher(hasher());
    let mut c = config();
    c.set_entry_api(true);
    let mut driver = MokaSegmentedCache::for_run(&c, cache.clone(), None, NoPacing);
    let mut report = Report::new("Moka SegmentedCache(2)", 1_000, Some(1));
    assert_eq!(driver.get_or_insert_once(&entry("2 2", 1), &mut report), Ok(()));
    assert_eq!(counts(&report), (2, 2, 0));
    assert!(cache.get(&2).is_some() && cache.get(&3).is_some());
    let mut plain = MokaSegmentedCache::new(&c, cache.clone(), None, NoPacing);
    plain.get_or_insert(&entry("2 2", 2), &mut report);
    assert_eq!(counts(&report), (2, 4, 2));
    let mut through_entries = MokaSegmentedCache::with_entry_api(&c, cache, None, NoPacing);
    through_entries.get_or_insert(&entry("2 2", 3), &mut report);
    assert_eq!(counts(&report), (2, 6, 4));
}
