use rust_prec::throttle::Throttler;
use std::time::{Duration, Instant};

fn wait(d: Duration) {
    let start = Instant::now();
    while start.elapsed() < d {}
}

#[test]
fn test_throttle() {
    let mut debouncer = Throttler::new(Duration::from_millis(10).as_nanos());
    assert!(debouncer.debounce(1).is_some());
    assert!(debouncer.debounce(1).is_none());
    wait(Duration::from_millis(15));
    assert!(debouncer.debounce(1).is_some());
}

#[test]
fn debounce_passes_the_value_it_was_given() {
    let mut t = Throttler::new(Duration::from_millis(10).as_nanos());
    assert_eq!(t.debounce("record"), Some("record"));
    assert_eq!(t.debounce("stop"), None);
}

#[test]
fn debounce_at_decides_by_elapsed_time() {
    let mut t = Throttler::new(100);
    let now = Instant::now();
    assert_eq!(t.debounce_at(None, now, 1), Some(1));
    assert_eq!(t.debounce_at(Some(100), now, 2), None);
    assert_eq!(t.debounce_at(Some(50), now, 3), None);
    assert_eq!(t.debounce_at(Some(101), now, 4), Some(4));
}
