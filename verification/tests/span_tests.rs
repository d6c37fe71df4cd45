use mokabench::cache::moka_driver::expiry::MokabenchExpiry;
use mokabench::cadence::Cadence;
use mokabench::span::{micros_to_span, secs_to_span, Span};
use mokabench::text::same_text;

fn s(nanos: u128) -> Span {
    Span { nanos }
}

#[test]
fn spans_are_counted_in_nanoseconds() {
    assert_eq!(Span::from_secs(2), s(2_000_000_000));
    assert_eq!(Span::from_micros(3), s(3_000));
    assert_eq!(Span::from_secs(u64::MAX).nanos, u64::MAX as u128 * 1_000_000_000);
    assert_eq!(secs_to_span(Some(1)), Some(s(1_000_000_000)));
    assert_eq!(secs_to_span(None), None);
    assert_eq!(micros_to_span(Some(7)), Some(s(7_000)));
    assert_eq!(micros_to_span(None), None);
}

#[test]
fn the_shorter_of_two_spans_is_chosen() {
    assert_eq!(s(3).shorter(s(5)), s(3));
    assert_eq!(s(5).shorter(s(3)), s(3));
    assert_eq!(s(4).shorter(s(4)), s(4));
}

#[test]
fn what_remains_of_a_span_never_goes_below_zero() {
    assert_eq!(s(10).remaining_after(s(4)), s(6));
    assert_eq!(s(10).remaining_after(s(10)), s(0));
    assert_eq!(s(10).remaining_after(s(11)), s(0));
}

#[test]
fn a_new_entry_expires_after_the_shorter_of_ttl_and_tti() {
    assert_eq!(MokabenchExpiry::new(None, None).expire_after_create(), None);
    assert_eq!(MokabenchExpiry::new(Some(s(9)), None).expire_after_create(), Some(s(9)));
    assert_eq!(MokabenchExpiry::new(None, Some(s(4))).expire_after_create(), Some(s(4)));
    assert_eq!(MokabenchExpiry::new(Some(s(9)), Some(s(4))).expire_after_create(), Some(s(4)));
    assert_eq!(MokabenchExpiry::new(Some(s(3)), Some(s(4))).expire_after_create(), Some(s(3)));
}

#[test]
fn a_read_entry_expires_after_tti_or_what_is_left_of_ttl() {
    let none = MokabenchExpiry::new(None, None);
    assert_eq!(none.expire_after_read(s(1), Some(s(7))), Some(s(7)));
    assert_eq!(none.expire_after_read(s(1), None), None);
    let ttl_only = MokabenchExpiry::new(Some(s(9)), None);
    assert_eq!(ttl_only.expire_after_read(s(1), Some(s(7))), Some(s(7)));
    let tti_only = MokabenchExpiry::new(None, Some(s(4)));
    assert_eq!(tti_only.expire_after_read(s(1), Some(s(7))), Some(s(4)));
    let both = MokabenchExpiry::new(Some(s(9)), Some(s(4)));
    assert_eq!(both.expire_after_read(s(1), Some(s(7))), Some(s(4)));
    assert_eq!(both.expire_after_read(s(6), Some(s(7))), Some(s(3)));
    assert_eq!(both.expire_after_read(s(9), Some(s(7))), Some(s(0)));
    assert_eq!(both.expire_after_read(s(20), None), Some(s(0)));
}

#[test]
fn an_updated_entry_expires_after_ttl_where_one_is_set() {
    assert_eq!(MokabenchExpiry::new(Some(s(9)), Some(s(4))).expire_after_update(Some(s(2))), Some(s(9)));
    assert_eq!(MokabenchExpiry::new(None, Some(s(4))).expire_after_update(Some(s(2))), Some(s(2)));
    assert_eq!(MokabenchExpiry::new(None, None).expire_after_update(None), None);
}

#[test]
fn a_cadence_comes_round_every_period() {
    let mut c = Cadence::new(3);
    let due: Vec<bool> = (0..7).map(|_| c.tick()).collect();
    assert_eq!(due, vec![false, false, true, false, false, true, false]);
    let mut every = Cadence::new(1);
    assert!(every.tick());
    assert!(every.tick());
}

#[test]
fn texts_are_the_same_when_their_characters_are() {
    assert!(same_text("", ""));
    assert!(same_text("merge-p", "merge-p"));
    assert!(same_text("naïve ✓", "naïve ✓"));
    assert!(!same_text("s3", "s2"));
    assert!(!same_text("s3", "s33"));
    assert!(!same_text("s3", ""));
}
