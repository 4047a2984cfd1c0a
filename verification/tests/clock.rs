use std::time::Duration;
use ustunet::time::{elapsed_millis, Clock};

#[test]
fn whole_milliseconds_are_counted() {
    assert_eq!(elapsed_millis(Duration::from_millis(0)), 0);
    assert_eq!(elapsed_millis(Duration::from_micros(1_999)), 1);
    assert_eq!(elapsed_millis(Duration::new(12, 345_678_901)), 12_345);
}

#[test]
fn milliseconds_wrap_around() {
    assert_eq!(elapsed_millis(Duration::new(u64::MAX, 0)), -1_000);
    assert_eq!(elapsed_millis(Duration::new(u64::MAX, 7_000_000)), -993);
    assert_eq!(elapsed_millis(Duration::from_millis(1 << 63)), i64::MIN);
}

#[test]
fn instants_are_resolved() {
    let clock = Clock::new();
    assert_eq!(clock.resolve(0), Some(clock.origin()));
    assert_eq!(clock.resolve(1_500), Some(clock.origin() + Duration::from_millis(1_500)));
}

#[test]
fn a_timestamp_resolves_to_when_it_was_taken() {
    let clock = Clock::new();
    let elapsed = Duration::new(3, 250_000_000);
    assert_eq!(clock.resolve(elapsed_millis(elapsed)), Some(clock.origin() + elapsed));
    let finer = elapsed + Duration::from_nanos(999_999);
    assert_eq!(clock.resolve(elapsed_millis(finer)), Some(clock.origin() + elapsed));
}

#[test]
fn the_clock_does_not_run_backwards() {
    let clock = Clock::new();
    let first = clock.timestamp();
    let second = clock.timestamp();
    assert!(0 <= first && first <= second);
}
