use proxy70::limiter::RateLimiter;

#[test]
fn the_eleventh_request_in_a_window_is_turned_away() {
    let mut limiter = RateLimiter::new(1, 10);
    for n in 1..=10 {
        assert!(limiter.allow("192.0.2.1"), "request {}", n);
    }
    assert!(!limiter.allow("192.0.2.1"));
    limiter.reset();
    assert!(limiter.allow("192.0.2.1"));
}

#[test]
fn a_request_that_is_turned_away_is_counted() {
    let mut limiter = RateLimiter::new(1, 2);
    assert!(limiter.allow("a"));
    assert!(limiter.allow("a"));
    assert!(!limiter.allow("a"));
    assert!(!limiter.allow("a"));
    assert_eq!(limiter.count("a"), 4);
}

#[test]
fn sources_are_counted_apart() {
    let mut limiter = RateLimiter::new(2, 1);
    assert!(limiter.allow("a"));
    assert!(limiter.allow("a"));
    assert!(!limiter.allow("a"));
    assert!(limiter.allow("b"));
    assert_eq!(limiter.count("a"), 3);
    assert_eq!(limiter.count("b"), 1);
    assert_eq!(limiter.count("c"), 0);
    assert!(limiter.allow("2001:db8::1"));
    assert!(limiter.allow("b"));
    assert!(!limiter.allow("b"));
}

#[test]
fn reset_sets_every_count_to_zero() {
    let mut limiter = RateLimiter::new(1, 1);
    for peer in ["a", "b", "c", "d", "e"] {
        limiter.allow(peer);
        limiter.allow(peer);
    }
    limiter.reset();
    for peer in ["a", "b", "c", "d", "e", "f"] {
        assert_eq!(limiter.count(peer), 0);
    }
    assert!(limiter.allow("c"));
    assert!(!limiter.allow("c"));
    limiter.reset();
    limiter.reset();
    assert_eq!(limiter.count("c"), 0);
}

#[test]
fn the_ceiling_is_rate_times_window() {
    let limiter = RateLimiter::new(3, 7);
    assert!(limiter.admits(0));
    assert!(limiter.admits(21));
    assert!(!limiter.admits(22));
    assert!(!limiter.admits(usize::MAX));
    let limiter = RateLimiter::new(i32::MAX, u32::MAX);
    assert!(limiter.admits(9223372030412324865));
    assert!(!limiter.admits(9223372030412324866));
}

#[test]
fn a_ceiling_of_nothing_admits_nobody() {
    let mut limiter = RateLimiter::new(0, 10);
    assert!(limiter.admits(0));
    assert!(!limiter.allow("a"));
    let mut limiter = RateLimiter::new(5, 0);
    assert!(!limiter.allow("a"));
    let mut limiter = RateLimiter::new(-1, 10);
    assert!(!limiter.admits(0));
    assert!(!limiter.allow("a"));
}
