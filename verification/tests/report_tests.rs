use mokabench::eviction_counters::{EvictionCause, EvictionCounters, EvictionCounts};
use mokabench::report::{Report, ReportBuilder};
use mokabench::span::Span;

fn report(insert: u64, read: u64, hit: u64) -> Report {
    let mut r = Report::new("r", 10, Some(2));
    r.insert_count = insert;
    r.read_count = read;
    r.hit_count = hit;
    r
}

fn counts(r: &Report) -> [u64; 6] {
    [r.insert_count, r.read_count, r.hit_count, r.invalidation_count, r.eviction_count, r.expiration_count]
}

#[test]
fn a_new_report_has_counted_nothing() {
    let r = Report::new("Moka Sync Cache", 100, Some(16));
    assert_eq!(r.name, "Moka Sync Cache");
    assert_eq!(r.capacity, 100);
    assert_eq!(r.num_workers, Some(16));
    assert!(!r.has_eviction_counts);
    assert_eq!(counts(&r), [0; 6]);
    assert_eq!(r.duration, None);
}

#[test]
fn a_builder_builds_fresh_reports_of_its_heading() {
    let builder = ReportBuilder::new("Stretto", 512, None);
    let a = builder.build();
    let b = builder.build();
    for r in [a, b] {
        assert_eq!(r.name, "Stretto");
        assert_eq!(r.capacity, 512);
        assert_eq!(r.num_workers, None);
        assert_eq!(counts(&r), [0; 6]);
    }
}

#[test]
fn merge_adds_count_by_count_and_keeps_the_heading() {
    let mut a = report(1, 10, 4);
    a.invalidation_count = 2;
    a.eviction_count = 3;
    a.expiration_count = 5;
    a.duration = Some(Span { nanos: 9 });
    let mut b = Report::new("other", 99, None);
    b.insert_count = 20;
    b.read_count = 30;
    b.hit_count = 25;
    b.invalidation_count = 7;
    b.eviction_count = 11;
    b.expiration_count = 13;
    b.has_eviction_counts = true;
    a.merge(&b);
    assert_eq!(counts(&a), [21, 40, 29, 9, 14, 18]);
    assert_eq!(a.name, "r");
    assert_eq!(a.capacity, 10);
    assert_eq!(a.num_workers, Some(2));
    assert!(!a.has_eviction_counts);
    assert_eq!(a.duration, Some(Span { nanos: 9 }));
}

#[test]
fn merging_in_either_order_or_grouping_gives_the_same_counts() {
    let make = || {
        let mut a = report(1, 10, 4);
        a.eviction_count = 6;
        let mut b = report(7, 3, 2);
        b.invalidation_count = 1;
        let mut c = report(100, 1000, 999);
        c.expiration_count = 8;
        (a, b, c)
    };
    let (mut a, b, _) = make();
    a.merge(&b);
    let (a2, mut b2, _) = make();
    b2.merge(&a2);
    assert_eq!(counts(&a), counts(&b2));

    let (mut a, b, c) = make();
    a.merge(&b);
    a.merge(&c);
    let (mut a2, mut b2, c2) = make();
    b2.merge(&c2);
    a2.merge(&b2);
    assert_eq!(counts(&a), counts(&a2));
    assert_eq!(counts(&a), [108, 1013, 1005, 1, 6, 8]);
}

#[test]
fn merged_reports_have_no_more_hits_than_reads() {
    let mut a = report(1, 10, 10);
    a.merge(&report(5, 7, 0));
    assert!(a.hit_count <= a.read_count);
    assert_eq!(a.read_count - a.hit_count, 7);
}

#[test]
fn try_merge_leaves_the_report_where_a_sum_does_not_fit() {
    let mut a = report(u64::MAX - 1, 5, 5);
    assert!(!a.try_merge(&report(2, 1, 1)));
    assert_eq!(counts(&a), [u64::MAX - 1, 5, 5, 0, 0, 0]);
    assert!(a.try_merge(&report(1, 1, 1)));
    assert_eq!(counts(&a), [u64::MAX, 6, 6, 0, 0, 0]);
}

#[test]
fn diff_subtracts_the_snapshot_with_fewer_inserts() {
    let mut early = report(10, 100, 60);
    early.duration = Some(Span { nanos: 1_000 });
    early.invalidation_count = 1;
    let mut late = Report::new("late", 77, None);
    late.insert_count = 25;
    late.read_count = 180;
    late.hit_count = 100;
    late.invalidation_count = 4;
    late.eviction_count = 2;
    late.expiration_count = 3;
    late.has_eviction_counts = true;
    late.duration = Some(Span { nanos: 4_500 });

    let d = late.diff(&early);
    assert_eq!(counts(&d), [15, 80, 40, 3, 2, 3]);
    assert_eq!(d.duration, Some(Span { nanos: 3_500 }));
    assert_eq!(d.name, "late");
    assert_eq!(d.capacity, 77);
    assert_eq!(d.num_workers, None);
    assert!(d.has_eviction_counts);

    let d = early.diff(&late);
    assert_eq!(counts(&d), [15, 80, 40, 3, 2, 3]);
    assert_eq!(d.duration, Some(Span { nanos: 3_500 }));
    assert_eq!(d.name, "r");
    assert_eq!(d.capacity, 10);
    assert_eq!(d.num_workers, Some(2));
    assert!(!d.has_eviction_counts);
}

#[test]
fn diff_has_no_duration_unless_both_snapshots_have_one() {
    let mut early = report(1, 1, 1);
    let mut late = report(2, 2, 2);
    late.duration = Some(Span { nanos: 5 });
    assert_eq!(late.diff(&early).duration, None);
    early.duration = Some(Span { nanos: 5 });
    late.duration = None;
    assert_eq!(late.diff(&early).duration, None);
}

#[test]
fn diff_of_equal_snapshots_is_zero() {
    let a = report(3, 9, 4);
    let b = report(3, 9, 4);
    assert_eq!(counts(&a.diff(&b)), [0; 6]);
}

#[test]
fn eviction_totals_are_added_and_flagged() {
    let mut r = report(1, 2, 1);
    r.invalidation_count = 10;
    r.add_eviction_totals(&EvictionCounts { size: 5, expired: 7, explicit: 3 });
    assert!(r.has_eviction_counts);
    assert_eq!(counts(&r), [1, 2, 1, 13, 5, 7]);
}

#[test]
fn eviction_counters_are_read_into_the_report() {
    let counters = EvictionCounters::new();
    for _ in 0..3 {
        counters.increment(EvictionCause::Size);
    }
    counters.increment(EvictionCause::Expired);
    counters.increment(EvictionCause::Explicit);
    counters.increment(EvictionCause::Explicit);
    counters.increment(EvictionCause::Replaced);
    let mut r = report(0, 0, 0);
    assert!(r.add_eviction_counts(&counters));
    assert!(r.has_eviction_counts);
    assert_eq!(counts(&r), [0, 0, 0, 2, 3, 1]);
}

#[test]
fn eviction_counts_that_do_not_fit_are_left_out() {
    let counters = EvictionCounters::new();
    counters.increment(EvictionCause::Size);
    let mut r = report(0, 0, 0);
    r.eviction_count = u64::MAX;
    assert!(!r.add_eviction_counts(&counters));
    assert!(!r.has_eviction_counts);
    assert_eq!(r.eviction_count, u64::MAX);
}

#[test]
fn the_header_names_the_columns() {
    assert_eq!(
        Report::cvs_header(false),
        "Cache, Max Capacity, Clients, Inserts, Reads, Hit Ratio, Duration Secs"
    );
    assert_eq!(
        Report::cvs_header(true),
        "Cache, Max Capacity, Clients, Inserts, Reads, Hit Ratio, Invalidates, Evicted by Size, Expired, Duration Secs"
    );
}

#[test]
fn a_record_lists_the_fields_in_order() {
    let mut r = Report::new("Moka Sync Cache", 400_000, Some(16));
    r.insert_count = 1_234;
    r.read_count = 5_000;
    r.hit_count = 3_766;
    r.invalidation_count = 9;
    r.eviction_count = 8;
    r.expiration_count = 7;
    r.duration = Some(Span { nanos: 1_500_000_000 });
    assert_eq!(r.to_csv_record("75.320", "1.500"), "Moka Sync Cache, 400000, 16, 1234, 5000, 75.320, 1.500");
    r.has_eviction_counts = true;
    assert_eq!(
        r.to_csv_record("75.320", "1.500"),
        "Moka Sync Cache, 400000, 16, 1234, 5000, 75.320, 9, 8, 7, 1.500"
    );
}

#[test]
fn a_record_without_workers_or_duration_shows_dashes() {
    let r = Report::new("Mini Moka Unsync Cache", 0, None);
    assert_eq!(r.to_csv_record("NaN", ""), "Mini Moka Unsync Cache, 0, -, 0, 0, NaN, -");
    assert_eq!(r.to_csv_record("NaN", "9.000"), "Mini Moka Unsync Cache, 0, -, 0, 0, NaN, -");
    let mut measured = Report::new("x", 1, Some(1));
    measured.duration = Some(Span { nanos: 0 });
    assert_eq!(measured.to_csv_record("NaN", "0.000"), "x, 1, 1, 0, 0, NaN, 0.000");
}

#[test]
fn a_record_renders_the_ratio_and_duration_it_is_given() {
    let mut r = Report::new("x", 1, Some(1));
    r.read_count = 3;
    r.hit_count = 2;
    r.duration = Some(Span { nanos: 2_345_678_901 });
    let ratio = format!("{:.3}", (r.hit_count as f64) / (r.read_count as f64) * 100.0);
    let secs = format!("{:.3}", r.duration.unwrap().nanos as f64 / 1e9);
    assert_eq!(r.to_csv_record(&ratio, &secs), "x, 1, 1, 0, 3, 66.667, 2.346");
}

#[test]
fn eviction_totals_are_added_exactly_where_they_fit() {
    let mut r = report(1, 2, 1);
    r.eviction_count = u64::MAX - 5;
    assert!(!r.try_add_eviction_totals(&EvictionCounts { size: 6, expired: 0, explicit: 0 }));
    assert!(!r.has_eviction_counts);
    assert_eq!(counts(&r), [1, 2, 1, 0, u64::MAX - 5, 0]);
    assert!(r.try_add_eviction_totals(&EvictionCounts { size: 5, expired: 7, explicit: 3 }));
    assert!(r.has_eviction_counts);
    assert_eq!(counts(&r), [1, 2, 1, 3, u64::MAX, 7]);
    assert!(!r.try_add_eviction_totals(&EvictionCounts { size: 0, expired: u64::MAX, explicit: 0 }));
    assert!(r.has_eviction_counts);
    assert_eq!(counts(&r), [1, 2, 1, 3, u64::MAX, 7]);
    assert_eq!(r.name, "r");
    assert_eq!(r.capacity, 10);
    assert_eq!(r.num_workers, Some(2));
}

#[test]
fn a_report_without_eviction_counts_takes_any_counters() {
    let counters = EvictionCounters::new();
    for _ in 0..1000 {
        counters.increment(EvictionCause::Expired);
    }
    let mut r = report(u64::MAX, u64::MAX, u64::MAX);
    assert!(r.add_eviction_counts(&counters));
    assert!(r.has_eviction_counts);
    assert_eq!(counts(&r), [u64::MAX, u64::MAX, u64::MAX, 0, 0, 1000]);
}
