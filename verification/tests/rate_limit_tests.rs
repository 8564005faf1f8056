use olist_cdn_preheat::rate_limit::{SpeedMonitor, TokenBucket};

const SEC: u64 = 1_000_000_000;

#[test]
fn bucket_starts_full_and_refills_at_rate() {
    let mut b = TokenBucket::new(100);
    assert!(b.acquire_at(0, 100));
    assert!(!b.acquire_at(0, 1));
    // Half a second earns 50 bytes.
    assert!(b.acquire_at(SEC / 2, 50));
    assert!(!b.acquire_at(SEC / 2, 1));
}

#[test]
fn bucket_never_holds_more_than_one_second() {
    let mut b = TokenBucket::new(100);
    assert!(b.acquire_at(0, 100));
    assert!(!b.acquire_at(10 * SEC, 101));
    assert!(b.acquire_at(10 * SEC, 100));
}

#[test]
fn failed_acquire_keeps_tokens() {
    let mut b = TokenBucket::new(10);
    assert!(!b.acquire_at(0, 11));
    assert!(b.acquire_at(0, 10));
}

#[test]
fn zero_rate_bucket_grants_nothing_but_zero() {
    let mut b = TokenBucket::new(0);
    assert!(b.acquire_at(5 * SEC, 0));
    assert!(!b.acquire_at(5 * SEC, 1));
    assert!(!b.acquire(1));
}

#[test]
fn bucket_with_live_clock() {
    let mut b = TokenBucket::new(1000);
    assert!(b.acquire(1000));
}

#[test]
fn speed_of_short_burst_is_total() {
    let mut m = SpeedMonitor::new(5);
    assert_eq!(m.current_speed(), 0);
    m.add_sample_at(0, 100);
    m.add_sample_at(SEC / 2, 200);
    assert_eq!(m.current_speed(), 300);
}

#[test]
fn speed_divides_by_span() {
    let mut m = SpeedMonitor::new(5);
    m.add_sample_at(0, 100);
    m.add_sample_at(SEC / 2, 200);
    m.add_sample_at(2 * SEC, 300);
    // 600 bytes over 2 seconds.
    assert_eq!(m.current_speed(), 300);
    m.add_sample_at(4 * SEC, 900);
    // 1500 bytes over 4 seconds, rounded down.
    assert_eq!(m.current_speed(), 375);
}

#[test]
fn old_samples_leave_the_window() {
    let mut m = SpeedMonitor::new(5);
    m.add_sample_at(0, 100);
    m.add_sample_at(SEC / 2, 200);
    m.add_sample_at(2 * SEC, 300);
    m.add_sample_at(7 * SEC + SEC / 2, 50);
    assert_eq!(m.window_total(), 50);
    assert_eq!(m.current_speed(), 50);
}

#[test]
fn live_samples_are_counted() {
    let mut m = SpeedMonitor::new(5);
    m.add_sample(10);
    m.add_sample(20);
    assert_eq!(m.window_total(), 30);
}

#[test]
fn bytes_granted_in_any_interval_stay_within_rate() {
    // Between two refills three seconds apart, at most one second's burst plus
    // three seconds at the rate can be granted.
    let mut b = TokenBucket::new(100);
    assert!(b.acquire_at(SEC, 100));
    let mut granted = 0u64;
    for step in 1..=30u64 {
        let now = SEC + step * SEC / 10;
        while b.acquire_at(now, 1) {
            granted += 1;
        }
    }
    assert!(granted <= 100 + 3 * 100);
    assert_eq!(granted, 300);
}
