use doneyet::retry::RetryPolicy;
use doneyet::time::Duration;

#[test]
fn retries_up_to_max() {
    let policy = RetryPolicy {
        max_retries: 2,
        ..RetryPolicy::default()
    };
    assert!(policy.should_retry(0));
    assert!(policy.should_retry(1));
    assert!(!policy.should_retry(2));
    assert!(!policy.should_retry(9));
}

#[test]
fn zero_retries_never_retries() {
    let policy = RetryPolicy {
        max_retries: 0,
        ..RetryPolicy::default()
    };
    assert!(!policy.should_retry(0));
}

#[test]
fn delay_scales_linearly_with_attempt() {
    let policy = RetryPolicy {
        base_delay: Duration::from_millis(100),
        ..RetryPolicy::default()
    };
    assert_eq!(policy.delay_for(1), Duration::from_millis(100));
    assert_eq!(policy.delay_for(2), Duration::from_millis(200));
    assert_eq!(policy.delay_for(3), Duration::from_millis(300));
}

#[test]
fn delay_for_attempt_is_capped_at_max_delay() {
    let policy = RetryPolicy {
        base_delay: Duration::from_secs(1),
        max_delay: Duration::from_secs(5),
        ..RetryPolicy::default()
    };
    assert_eq!(policy.delay_for(1), Duration::from_secs(1));
    assert_eq!(policy.delay_for(5), Duration::from_secs(5));
    assert_eq!(policy.delay_for(10), Duration::from_secs(5));
}

#[test]
fn default_policy_values() {
    let policy = RetryPolicy::default();
    assert_eq!(policy.max_retries, 2);
    assert_eq!(policy.base_delay, Duration::from_millis(250));
    assert_eq!(policy.max_delay, Duration::from_secs(5));
}

#[test]
fn attempt_zero_waits_one_base_delay() {
    let policy = RetryPolicy::default();
    assert_eq!(policy.delay_for(0), Duration::from_millis(250));
}

#[test]
fn retry_delay_counts_attempts_until_exhausted() {
    let policy = RetryPolicy::default();
    let mut attempt = 0;
    assert_eq!(policy.retry_delay(&mut attempt), Some(Duration::from_millis(250)));
    assert_eq!(attempt, 1);
    assert_eq!(policy.retry_delay(&mut attempt), Some(Duration::from_millis(500)));
    assert_eq!(attempt, 2);
    assert_eq!(policy.retry_delay(&mut attempt), None);
    assert_eq!(attempt, 2);
}

#[test]
fn duration_parts() {
    let d = Duration::from_millis(1500);
    assert_eq!(d.as_secs(), 1);
    assert_eq!(d.subsec_nanos(), 500_000_000);
    assert_eq!(d.as_millis(), 1500);
    assert_eq!(Duration::from_secs(2).min(Duration::from_secs(3)), Duration::from_secs(2));
    assert_eq!(Duration::from_secs(2).checked_mul(3), Some(Duration::from_secs(6)));
    assert_eq!(Duration::from_secs(u64::MAX).checked_mul(2), None);
}
