use omni::rate_limiter::RateLimiter;

#[test]
fn test_rate_limiter_basic() {
    let mut limiter = RateLimiter::with_limits(2, 5);
    assert!(limiter.check_rate_limit("test", "install").is_ok());
    assert!(limiter.check_rate_limit("test", "install").is_ok());
    assert!(limiter.check_rate_limit("test", "install").is_err());
}

#[test]
fn test_rate_limiter_different_keys() {
    let mut limiter = RateLimiter::with_limits(1, 3);
    assert!(limiter.check_rate_limit("user1", "install").is_ok());
    assert!(limiter.check_rate_limit("user2", "install").is_ok());
    assert!(limiter.check_rate_limit("user1", "install").is_err());
}

#[test]
fn test_rate_limiter_different_operations() {
    let mut limiter = RateLimiter::with_limits(1, 3);
    assert!(limiter.check_rate_limit("user1", "install").is_ok());
    assert!(limiter.check_rate_limit("user1", "remove").is_ok());
    assert!(limiter.check_rate_limit("user1", "install").is_err());
}

#[test]
fn test_rate_limiter_status() {
    let mut limiter = RateLimiter::with_limits(3, 10);
    let status = limiter.get_status("test", "install").unwrap();
    assert_eq!(status.operations_this_minute, 0);
    assert_eq!(status.operations_this_hour, 0);
    assert!(status.can_proceed);

    limiter.check_rate_limit("test", "install").unwrap();
    let status = limiter.get_status("test", "install").unwrap();
    assert_eq!(status.operations_this_minute, 1);
    assert_eq!(status.operations_this_hour, 1);
    assert!(status.can_proceed);
}

#[test]
fn test_rate_limiter_reset() {
    let mut limiter = RateLimiter::with_limits(1, 3);
    assert!(limiter.check_rate_limit("test", "install").is_ok());
    assert!(limiter.check_rate_limit("test", "install").is_err());
    limiter.reset_limits("test").unwrap();
    assert!(limiter.check_rate_limit("test", "install").is_ok());
}

#[test]
fn minute_window_slides() {
    let mut limiter = RateLimiter::with_limits(1, 10);
    assert!(limiter.check_rate_limit_at("k", "op", 1_000).is_ok());
    assert!(limiter.check_rate_limit_at("k", "op", 30_000).is_err());
    assert!(limiter.check_rate_limit_at("k", "op", 61_001).is_ok());
    let status = limiter.get_status_at("k", "op", 61_001).unwrap();
    assert_eq!(status.operations_this_minute, 1);
    assert_eq!(status.operations_this_hour, 2);
    assert_eq!(status.remaining_minute(), 0);
    assert_eq!(status.remaining_hour(), 8);
}

#[test]
fn reset_leaves_keys_that_only_share_a_prefix() {
    let mut limiter = RateLimiter::with_limits(1, 3);
    assert!(limiter.check_rate_limit("tester", "install").is_ok());
    assert!(limiter.check_rate_limit("test", "install").is_ok());
    limiter.reset_limits("test").unwrap();
    assert!(limiter.check_rate_limit("tester", "install").is_err());
    assert!(limiter.check_rate_limit("test", "install").is_ok());
}
