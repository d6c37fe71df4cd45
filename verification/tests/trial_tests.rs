use mokabench::cache::engine::{Driver, Engine, Walk};
use mokabench::cache::init::{InitOutcome, Initializer, NoPacing, Pacer};
use mokabench::cache::{process_commands, Key, Unsupported, Value};
use mokabench::config::{Config, RemovalNotificationMode};
use mokabench::eviction_counters::{EvictionCause, EvictionCounters};
use mokabench::parser::ParseError;
use mokabench::report::{Report, ReportBuilder};
use mokabench::span::Span;
use mokabench::trace_file::TraceFile;
use mokabench::trial::{
    checked_max_capacity, generate_all_batches, generate_batches, max_capacity, merge_reports,
    finish_trial, number_lines, should_pre_process_all_commands, BatchClock, DeliveryMode, TrialError,
};
use mokabench::{Command, BATCH_SIZE};
use std::collections::HashSet;
use std::sync::Arc;

fn config() -> Config {
    Config::new(TraceFile::S3, None, None, None, None, None)
}

fn numbered(n: usize) -> Vec<(usize, String)> {
    number_lines((0..n).map(|i| format!("{} 2", i)).collect())
}

fn report(insert: u64, read: u64, hit: u64) -> Report {
    let mut r = Report::new("worker", 1, None);
    r.insert_count = insert;
    r.read_count = read;
    r.hit_count = hit;
    r
}

/// An engine that remembers the keys it holds.
#[derive(Clone, Default)]
struct SetEngine {
    keys: HashSet<Key>,
}

impl Engine for SetEngine {
    fn get(&mut self, key: Key) -> bool {
        self.keys.contains(&key)
    }

    fn insert(&mut self, key: Key, _value: Value) {
        self.keys.insert(key);
    }

    fn get_with<P: Pacer>(&mut self, _key: Key, _init: &Initializer<P>) -> Result<InitOutcome, Unsupported> {
        Err(Unsupported)
    }

    fn invalidate(&mut self, key: Key) -> Result<(), Unsupported> {
        self.keys.remove(&key);
        Ok(())
    }

    fn invalidate_all(&mut self) -> Result<(), Unsupported> {
        self.keys.clear();
        Ok(())
    }

    fn invalidate_entries_if(&mut self, _first_byte: u8) -> Result<(), Unsupported> {
        Err(Unsupported)
    }

    fn iterate<P: Pacer>(&mut self, _walk: &mut Walk<P>) -> Result<(), Unsupported> {
        Err(Unsupported)
    }
}

#[test]
fn commands_are_buffered_unless_telemetry_samples_the_run() {
    assert!(should_pre_process_all_commands(false));
    assert!(!should_pre_process_all_commands(true));
    assert_eq!(DeliveryMode::select(false), DeliveryMode::Buffered);
    assert_eq!(DeliveryMode::select(true), DeliveryMode::Streaming);
    assert_eq!(DeliveryMode::Buffered.queue_bound(), None);
    assert_eq!(DeliveryMode::Streaming.queue_bound(), Some(100));
}

#[test]
fn the_capacity_is_scaled_where_entries_are_weighed() {
    let mut c = config();
    assert_eq!(max_capacity(&c, 400_000), 400_000);
    assert_eq!(checked_max_capacity(&c, usize::MAX), Some(usize::MAX as u64));
    c.set_size_aware(true);
    assert_eq!(max_capacity(&c, 400_000), 400_000 * 32_768);
    assert_eq!(max_capacity(&c, 0), 0);
    assert_eq!(checked_max_capacity(&c, 100), Some(3_276_800));
    assert_eq!(checked_max_capacity(&c, (u64::MAX / 32_768) as usize), Some(u64::MAX / 32_768 * 32_768));
    assert_eq!(checked_max_capacity(&c, (u64::MAX / 32_768) as usize + 1), None);
}

#[test]
fn lines_are_numbered_from_one() {
    let numbered = number_lines(vec!["a".to_string(), "b".to_string(), "c".to_string()]);
    assert_eq!(numbered, vec![(1, "a".to_string()), (2, "b".to_string()), (3, "c".to_string())]);
    assert!(number_lines(Vec::new()).is_empty());
}

#[test]
fn a_pass_makes_one_batch_for_every_two_hundred_lines() {
    assert_eq!(BATCH_SIZE, 200);
    for (lines, sizes) in [
        (0usize, vec![]),
        (1, vec![1]),
        (199, vec![199]),
        (200, vec![200]),
        (201, vec![200, 1]),
        (450, vec![200, 200, 50]),
    ] {
        let mut counter = 0;
        let mut batches = Vec::new();
        assert_eq!(generate_batches(&config(), &numbered(lines), &mut counter, &mut batches), Ok(()));
        assert_eq!(counter, lines);
        assert_eq!(batches.iter().map(|b| b.len()).collect::<Vec<_>>(), sizes);
    }
}

#[test]
fn batches_are_appended_to_those_that_are_there() {
    let mut counter = 0;
    let mut batches = vec![vec![Command::Iterate]];
    assert_eq!(generate_batches(&config(), &numbered(3), &mut counter, &mut batches), Ok(()));
    assert_eq!(batches.len(), 2);
    assert!(matches!(batches[0][0], Command::Iterate));
    assert_eq!(batches[1].len(), 3);
}

#[test]
fn sampling_goes_on_across_batches() {
    let mut c = config();
    c.set_size_aware(true);
    let mut counter = 0;
    let mut batches = Vec::new();
    assert_eq!(generate_batches(&c, &numbered(450), &mut counter, &mut batches), Ok(()));
    let flat: Vec<&Command> = batches.iter().flatten().collect();
    assert_eq!(flat.len(), 450);
    for (i, command) in flat.iter().enumerate() {
        let request = i + 1;
        match command {
            Command::Update(e) => {
                assert_eq!(request % 11, 0);
                assert_eq!(e.range(), i..i + 2);
                assert_eq!(e.line_number(), request);
            }
            Command::GetOrInsert(e) => {
                assert!(request % 11 != 0);
                assert_eq!(e.range(), i..i + 2);
            }
            other => panic!("unexpected command {:?}", other),
        }
    }
}

#[test]
fn a_rejected_line_ends_the_pass_after_the_batches_before_it() {
    let mut lines: Vec<String> = (0..450).map(|i| format!("{}", i)).collect();
    lines[420] = "oops".to_string();
    lines[430] = "1 oops".to_string();
    let mut counter = 0;
    let mut batches = Vec::new();
    let result = generate_batches(&config(), &number_lines(lines), &mut counter, &mut batches);
    assert_eq!(result, Err(ParseError::InvalidStart));
    assert_eq!(batches.len(), 2);
    assert_eq!(counter, 420);
}

#[test]
fn a_replay_keeps_counting_from_pass_to_pass() {
    let mut c = Config::new(TraceFile::S3, None, None, None, Some(3), None);
    c.set_insert_once(true);
    let lines = number_lines(vec!["1".to_string(), "*".to_string(), "2".to_string()]);
    let batches = generate_all_batches(&c, &lines).unwrap();
    assert_eq!(batches.len(), 3);
    let kinds: Vec<bool> = batches.iter().flatten().map(|c| matches!(c, Command::GetOrInsertOnce(_))).collect();
    // Six requests in all; the third and the sixth go through the initializer.
    assert_eq!(kinds, vec![false, false, true, false, false, true]);
    for batch in &batches {
        match (&batch[0], &batch[1]) {
            (Command::GetOrInsert(a), _) | (Command::GetOrInsertOnce(a), _) => assert_eq!(a.line_number(), 1),
            other => panic!("unexpected commands {:?}", other),
        }
    }
}

#[test]
fn a_run_replays_once_unless_told_otherwise() {
    let batches = generate_all_batches(&config(), &numbered(201)).unwrap();
    assert_eq!(batches.iter().map(|b| b.len()).collect::<Vec<_>>(), vec![200, 1]);
    let none = Config::new(TraceFile::S3, None, None, None, Some(0), None);
    assert!(generate_all_batches(&none, &numbered(201)).unwrap().is_empty());
    let two = Config::new(TraceFile::S3, None, None, None, Some(2), None);
    let batches = generate_all_batches(&two, &numbered(201)).unwrap();
    assert_eq!(batches.iter().map(|b| b.len()).collect::<Vec<_>>(), vec![200, 1, 200, 1]);
}

#[test]
fn a_replay_fails_with_the_first_rejected_line() {
    let two = Config::new(TraceFile::S3, None, None, None, Some(2), None);
    let lines = number_lines(vec!["1".to_string(), "2 x".to_string(), "y".to_string()]);
    assert_eq!(generate_all_batches(&two, &lines).unwrap_err(), ParseError::InvalidLength);
}

#[test]
fn a_cooperative_worker_gives_way_every_ten_thousand_batches() {
    let mut clock = BatchClock::new();
    let mut given = Vec::new();
    for batch in 1..=30_001u32 {
        if clock.batch_done() {
            given.push(batch);
        }
    }
    assert_eq!(given, vec![10_000, 20_000, 30_000]);
}

#[test]
fn worker_reports_are_merged_under_the_heading_of_the_template() {
    let builder = ReportBuilder::new("Moka Sync Cache", 400_000, Some(3));
    let reports = vec![report(1, 10, 9), report(2, 20, 18), report(3, 30, 27)];
    let merged = merge_reports(&builder, Span::from_secs(2), &reports).unwrap();
    assert_eq!((merged.insert_count, merged.read_count, merged.hit_count), (6, 60, 54));
    assert_eq!(merged.name, "Moka Sync Cache");
    assert_eq!(merged.capacity, 400_000);
    assert_eq!(merged.num_workers, Some(3));
    assert_eq!(merged.duration, Some(Span::from_secs(2)));
    assert!(!merged.has_eviction_counts);
    assert!(merged.hit_count <= merged.read_count);

    let empty = merge_reports(&builder, Span::from_secs(2), &[]).unwrap();
    assert_eq!((empty.insert_count, empty.read_count, empty.hit_count), (0, 0, 0));
}

#[test]
fn counts_that_do_not_fit_give_no_merged_report() {
    let builder = ReportBuilder::new("x", 1, Some(2));
    let reports = vec![report(u64::MAX, 0, 0), report(1, 0, 0)];
    assert!(merge_reports(&builder, Span::from_secs(1), &reports).is_none());
    assert_eq!(
        finish_trial(&config(), &builder, Span::from_secs(1), &reports, None).unwrap_err(),
        TrialError::CountOverflow
    );
}

#[test]
fn eviction_counts_are_added_once_to_the_merged_report() {
    let mut c = config();
    c.set_eviction_listener(RemovalNotificationMode::Immediate);
    let counters = Arc::new(EvictionCounters::new());
    counters.increment(EvictionCause::Size);
    counters.increment(EvictionCause::Size);
    counters.increment(EvictionCause::Expired);
    counters.increment(EvictionCause::Explicit);
    let builder = ReportBuilder::new("x", 1, Some(2));
    let reports = vec![report(1, 10, 9), report(2, 20, 18)];
    let r = finish_trial(&c, &builder, Span::from_secs(1), &reports, Some(counters)).unwrap();
    assert!(r.has_eviction_counts);
    assert_eq!((r.insert_count, r.read_count, r.hit_count), (3, 30, 27));
    assert_eq!((r.invalidation_count, r.eviction_count, r.expiration_count), (1, 2, 1));
}

#[test]
fn a_run_that_counts_evictions_needs_the_engines_counters() {
    let mut c = config();
    c.set_eviction_listener(RemovalNotificationMode::Queued);
    let builder = ReportBuilder::new("x", 1, Some(2));
    assert_eq!(
        finish_trial(&c, &builder, Span::from_secs(1), &[], None).unwrap_err(),
        TrialError::MissingEvictionCounters
    );
}

#[test]
fn a_run_that_does_not_count_evictions_ignores_the_counters() {
    let counters = Arc::new(EvictionCounters::new());
    counters.increment(EvictionCause::Size);
    let builder = ReportBuilder::new("x", 1, Some(2));
    let r = finish_trial(&config(), &builder, Span::from_secs(1), &[report(1, 2, 1)], Some(counters)).unwrap();
    assert!(!r.has_eviction_counts);
    assert_eq!(r.eviction_count, 0);
    assert_eq!((r.insert_count, r.read_count, r.hit_count), (1, 2, 1));
}

#[test]
fn every_batch_is_processed_once_by_the_workers_that_drain_the_queue() {
    let c = config();
    let lines = numbered(1_000);
    let batches = generate_all_batches(&c, &lines).unwrap();
    let sent = batches.len();
    assert_eq!(sent, 5);
    let (send, receive) = crossbeam_channel::unbounded::<Vec<Command>>();
    for batch in batches {
        send.send(batch).unwrap();
    }
    drop(send);

    let builder = ReportBuilder::new("Set", 10, Some(3));
    let driver = Driver::over(&c, SetEngine::default(), NoPacing, None);
    let mut reports = Vec::new();
    let mut processed = 0;
    for _ in 0..3 {
        let mut cache = driver.clone();
        let ch = receive.clone();
        let mut report = builder.build();
        while let Ok(commands) = ch.recv() {
            assert_eq!(process_commands(commands, &mut cache, &mut report), Ok(()));
            processed += 1;
        }
        reports.push(report);
    }
    assert_eq!(processed, sent);
    assert!(receive.recv().is_err());
    let merged = finish_trial(&c, &builder, Span::from_secs(1), &reports, None).unwrap();
    // 1000 requests of two keys each, none dropped and none applied twice.
    assert_eq!(merged.read_count, 2_000);
    // Keys 0..1001 are each inserted once by the one worker that saw them all.
    assert_eq!(merged.insert_count, 1_001);
    assert_eq!(merged.hit_count, 999);
    assert_eq!(merged.num_workers, Some(3));
}
