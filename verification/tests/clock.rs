use authenticator::utils::clock::{timestamp_from_offset, utc_now};
use authenticator::utils::throttling::Timestamp;

#[test]
fn offsets_after_the_epoch() {
    assert_eq!(timestamp_from_offset(true, 1700000000, 5), Timestamp { secs: 1700000000, nanos: 5 });
    assert_eq!(timestamp_from_offset(true, u64::MAX, 7), Timestamp { secs: i64::MAX, nanos: 7 });
}

#[test]
fn offsets_before_the_epoch_are_negative() {
    assert_eq!(timestamp_from_offset(false, 3, 0), Timestamp { secs: -3, nanos: 0 });
    assert_eq!(timestamp_from_offset(false, 3, 250_000_000), Timestamp { secs: -4, nanos: 750_000_000 });
    assert_eq!(timestamp_from_offset(false, u64::MAX, 1), Timestamp { secs: i64::MIN, nanos: 0 });
}

#[test]
fn the_clock_reads_after_2020() {
    let now = utc_now();
    assert!(now.secs > 1_577_836_800);
    assert!(now.nanos < 1_000_000_000);
}
