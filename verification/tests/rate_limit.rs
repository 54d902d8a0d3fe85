use transcriber_api::api::rate_limit::{RateLimiter, NANOS_PER_SECOND, UNITS_PER_TOKEN};

const SECOND: u64 = 1_000_000_000;

#[test]
fn units_make_one_token_per_minute_per_rpm() {
    assert_eq!(UNITS_PER_TOKEN, 60 * NANOS_PER_SECOND);
}

#[test]
fn burst_of_rpm_then_refused() {
    let mut rl = RateLimiter::new(5);
    assert_eq!(rl.rpm(), 5);
    for _ in 0..5 {
        assert!(rl.check("alice", 0));
    }
    assert!(!rl.check("alice", 0));
    // Another user has a bucket of their own.
    assert!(rl.check("bob", 0));
}

#[test]
fn refill_at_rpm_per_minute() {
    let mut rl = RateLimiter::new(5);
    for _ in 0..5 {
        assert!(rl.check("u", 0));
    }
    // 5 per minute: one token every 12 s.
    assert!(!rl.check("u", 11 * SECOND));
    assert!(rl.check("u", 12 * SECOND));
    assert!(!rl.check("u", 12 * SECOND));
}

#[test]
fn bucket_never_exceeds_capacity() {
    let mut rl = RateLimiter::new(2);
    assert!(rl.check("u", 0));
    // A long pause refills only up to the burst size.
    let later = 3600 * SECOND;
    assert!(rl.check("u", later));
    assert!(rl.check("u", later));
    assert!(!rl.check("u", later));
}

#[test]
fn clock_going_backwards_refills_nothing() {
    let mut rl = RateLimiter::new(1);
    assert!(rl.check("u", 100 * SECOND));
    assert!(!rl.check("u", 50 * SECOND));
}

#[test]
fn seconds_until_ready_is_exact() {
    let mut rl = RateLimiter::new(15);
    assert_eq!(rl.seconds_until_ready("nobody", 0), 0);
    assert!(rl.check("u", 0));
    assert_eq!(rl.seconds_until_ready("u", 0), 0);
    for _ in 0..14 {
        assert!(rl.check("u", 0));
    }
    assert!(!rl.check("u", 0));
    // 15 per minute: one token every 4 s.
    assert_eq!(rl.seconds_until_ready("u", 0), 4);
    assert!(!rl.check("u", 1 * SECOND));
    assert_eq!(rl.seconds_until_ready("u", 1 * SECOND), 3);
    assert!(!rl.check("u", 3 * SECOND + 1));
    assert_eq!(rl.seconds_until_ready("u", 3 * SECOND + 1), 1);
    // Waiting that long lets the next request through.
    assert!(rl.check("u", 4 * SECOND));
}

#[test]
fn wait_counts_time_passed_since_last_request() {
    let mut rl = RateLimiter::new(5);
    for _ in 0..5 {
        assert!(rl.check("u", 0));
    }
    assert_eq!(rl.seconds_until_ready("u", 0), 12);
    assert_eq!(rl.seconds_until_ready("u", 5 * SECOND), 7);
    assert_eq!(rl.seconds_until_ready("u", 11 * SECOND + 1), 1);
    // After 20 s the bucket holds 1.67 tokens.
    assert_eq!(rl.seconds_until_ready("u", 20 * SECOND), 0);
    // Asking does not take a token or change the bucket.
    assert_eq!(rl.seconds_until_ready("u", 20 * SECOND), 0);
    assert!(rl.check("u", 20 * SECOND));
}

#[test]
fn zero_rpm_never_allows() {
    let mut rl = RateLimiter::new(0);
    assert!(!rl.check("u", 0));
    assert!(!rl.check("u", 3600 * SECOND));
    assert_eq!(rl.seconds_until_ready("u", 3600 * SECOND), u64::MAX);
}
