use kron::retry::{BackoffStrategy, RetryPolicy};
use kron::timestamp::Timestamp;

fn now() -> Timestamp {
    Timestamp::new(1_781_000_000, 0).unwrap()
}

#[test]
fn exponential_backoff() {
    let b = BackoffStrategy::Exponential {
        base_seconds: 30,
        max_seconds: 3600,
    };
    assert_eq!(b.delay_seconds(1), 30); // 30 * 2^0
    assert_eq!(b.delay_seconds(2), 60); // 30 * 2^1
    assert_eq!(b.delay_seconds(3), 120); // 30 * 2^2
    assert_eq!(b.delay_seconds(4), 240); // 30 * 2^3
}

#[test]
fn exponential_caps_at_max() {
    let b = BackoffStrategy::Exponential {
        base_seconds: 30,
        max_seconds: 100,
    };
    assert_eq!(b.delay_seconds(4), 100); // 240 capped to 100
}

#[test]
fn no_retry_returns_none() {
    let policy = RetryPolicy::no_retry();
    assert!(policy.next_retry_at(now(), 1).is_none());
}

#[test]
fn retry_exhausted_returns_none() {
    let policy = RetryPolicy {
        max_attempts: 3,
        ..Default::default()
    };
    assert!(policy.next_retry_at(now(), 3).is_none()); // attempt == max
    assert!(policy.next_retry_at(now(), 4).is_none()); // attempt > max
}

#[test]
fn default_policy_backs_off_exponentially() {
    let policy = RetryPolicy::default();
    assert_eq!(policy.max_attempts, 3);
    assert_eq!(policy.next_retry_at(now(), 1), now().plus(30));
    assert_eq!(policy.next_retry_at(now(), 2), now().plus(60));
}

#[test]
fn exponential_backoff_saturates() {
    let b = BackoffStrategy::Exponential {
        base_seconds: u64::MAX,
        max_seconds: u64::MAX,
    };
    assert_eq!(b.delay_seconds(200), u64::MAX);
    assert_eq!(b.delay_seconds(0), u64::MAX);
}

#[test]
fn fixed_and_linear_backoff() {
    let fixed = BackoffStrategy::Fixed { seconds: 7 };
    assert_eq!(fixed.delay_seconds(1), 7);
    assert_eq!(fixed.delay_seconds(9), 7);
    let linear = BackoffStrategy::Linear {
        base_seconds: 10,
        step_seconds: 5,
        max_seconds: 22,
    };
    assert_eq!(linear.delay_seconds(1), 10);
    assert_eq!(linear.delay_seconds(2), 15);
    assert_eq!(linear.delay_seconds(3), 20);
    assert_eq!(linear.delay_seconds(4), 22);
}

#[test]
fn delays_grow_and_stay_below_the_cap() {
    let b = BackoffStrategy::Exponential {
        base_seconds: 3,
        max_seconds: 1000,
    };
    let mut last = 0;
    for attempt in 1..20 {
        let delay = b.delay_seconds(attempt);
        assert!(delay >= last && delay <= 1000);
        last = delay;
    }
}

#[test]
fn retry_fits_where_the_instant_exists() {
    let policy = RetryPolicy {
        max_attempts: 5,
        backoff: BackoffStrategy::Fixed { seconds: i64::MAX as u64 },
    };
    assert!(!policy.retry_fits(now(), 1));
    assert!(policy.retry_fits(now(), 5));
    assert!(RetryPolicy::default().retry_fits(now(), 1));
}

#[test]
fn delays_beyond_the_calendar_do_not_fit() {
    let at = now();
    assert_eq!(at.plus_seconds(5), at.plus(5));
    assert!(at.plus_seconds(u64::MAX).is_none());
    assert!(at.plus_seconds(1 << 63).is_none());
    let policy = RetryPolicy {
        max_attempts: 2,
        backoff: BackoffStrategy::Fixed { seconds: u64::MAX },
    };
    assert!(!policy.retry_fits(at, 1));
}
