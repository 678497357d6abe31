use httptester::error::AppError;
use httptester::hook::check_webhook;
use httptester::rate_limiter::RateLimiter;

const SECOND: u64 = 1_000_000_000;

#[test]
fn limit_holds_within_a_minute() {
    let mut limiter = RateLimiter::new(3);
    for i in 0..3 {
        assert!(limiter.allow("a", i * SECOND));
    }
    assert!(!limiter.allow("a", 3 * SECOND));
    assert!(!limiter.allow("a", 60 * SECOND - 1));
    assert!(limiter.allow("a", 60 * SECOND));
    assert!(limiter.allow("a", 60 * SECOND));
    assert!(limiter.allow("a", 119 * SECOND));
    assert!(!limiter.allow("a", 120 * SECOND - 1));
    assert!(limiter.allow("a", 120 * SECOND));
}

#[test]
fn keys_have_limits_of_their_own() {
    let mut limiter = RateLimiter::new(1);
    assert!(limiter.allow("a", 0));
    assert!(limiter.allow("b", 0));
    assert!(!limiter.allow("a", 1));
    assert!(!limiter.allow("b", 1));
    assert!(limiter.allow("", 1));
}

#[test]
fn zero_is_no_limit() {
    let mut limiter = RateLimiter::new(0);
    for _ in 0..1000 {
        assert!(limiter.allow("a", 5));
    }
}

#[test]
fn earlier_times_stay_in_the_window() {
    let mut limiter = RateLimiter::new(1);
    assert!(limiter.allow("a", 100 * SECOND));
    assert!(!limiter.allow("a", 0));
}

#[test]
fn a_minute_lets_through_at_most_twice_the_limit() {
    let mut limiter = RateLimiter::new(2);
    assert!(limiter.allow("a", 0));
    let mut count = 0;
    for i in 0..60 {
        if limiter.allow("a", (30 + i) * SECOND) {
            count += 1;
        }
    }
    assert_eq!(count, 3);
}

#[test]
fn unknown_webhooks_do_not_count() {
    let mut limiter = RateLimiter::new(1);
    let error = check_webhook(false, &mut limiter, "a", 0).unwrap_err();
    assert!(matches!(error, AppError::SubscriptionNotFound));
    assert_eq!(error.status(), 404);
    assert!(check_webhook(true, &mut limiter, "a", 0).is_ok());
    let error = check_webhook(true, &mut limiter, "a", 1).unwrap_err();
    assert!(matches!(error, AppError::RateLimitExceeded));
    assert_eq!((error.status(), error.message()), (429, "rate limit exceeded".to_string()));
}
