use hibp_rs::rate_limit::NANOS_PER_MINUTE;
use hibp_rs::{HaveIBeenPwned, HibpError, RateLimiter};

/// Drives a limiter as a transport would: arrive, wait as told, start.
/// `overshoot` is how much longer than told every wait takes.
fn run(limiter: &mut RateLimiter, mut clock: u64, calls: usize, overshoot: u64) -> Vec<u64> {
    let mut starts = Vec::new();
    for _ in 0..calls {
        let wait = limiter.wait_if_needed(clock);
        if wait > 0 {
            clock += wait + overshoot;
        }
        limiter.mark_request(clock);
        starts.push(clock);
    }
    starts
}

#[test]
fn interval_is_a_minute_divided_by_the_rate() {
    assert_eq!(RateLimiter::new(1, 0).unwrap().interval(), 60_000_000_000);
    assert_eq!(RateLimiter::new(60, 0).unwrap().interval(), 1_000_000_000);
    assert_eq!(RateLimiter::new(100, 0).unwrap().interval(), 600_000_000);
    assert_eq!(RateLimiter::new(120, 0).unwrap().interval(), 500_000_000);
}

#[test]
fn interval_is_rounded_up_to_a_whole_nanosecond() {
    assert_eq!(RateLimiter::new(7, 0).unwrap().interval(), 8_571_428_572);
    assert_eq!(RateLimiter::new(59, 0).unwrap().interval(), 1_016_949_153);
    assert_eq!(RateLimiter::new(i32::MAX, 0).unwrap().interval(), 28);
}

#[test]
fn interval_times_rate_fills_a_minute_for_many_rates() {
    for rpm in (1..5000).chain([i32::MAX - 1, i32::MAX]) {
        let interval = RateLimiter::new(rpm, 0).unwrap().interval() as u128;
        assert!(interval * rpm as u128 >= NANOS_PER_MINUTE as u128);
        assert!((interval - 1) * (rpm as u128) < NANOS_PER_MINUTE as u128);
    }
}

#[test]
fn rate_that_is_not_positive_is_refused() {
    assert_eq!(RateLimiter::new(0, 0).unwrap_err(), HibpError::InvalidRateLimit);
    assert_eq!(RateLimiter::new(-1, 0).unwrap_err(), HibpError::InvalidRateLimit);
    assert_eq!(RateLimiter::new(i32::MIN, 17).unwrap_err(), HibpError::InvalidRateLimit);
    assert!(RateLimiter::new(1, 0).is_ok());
}

#[test]
fn get_rpm_returns_the_configured_rate() {
    assert_eq!(RateLimiter::new(100, 0).unwrap().get_rpm(), 100);
    assert_eq!(RateLimiter::new(1, 99).unwrap().get_rpm(), 1);
}

#[test]
fn first_call_waits_from_the_making_of_the_limiter() {
    let limiter = RateLimiter::new(120, 1_000).unwrap();
    assert_eq!(limiter.wait_if_needed(1_000), 500_000_000);
    assert_eq!(limiter.wait_if_needed(100_001_000), 400_000_000);
    assert_eq!(limiter.wait_if_needed(500_000_999), 1);
    assert_eq!(limiter.wait_if_needed(500_001_000), 0);
    assert_eq!(limiter.wait_if_needed(u64::MAX), 0);
}

#[test]
fn wait_if_needed_changes_nothing_until_the_request_is_marked() {
    let mut limiter = RateLimiter::new(60, 0).unwrap();
    assert_eq!(limiter.wait_if_needed(250_000_000), 750_000_000);
    assert_eq!(limiter.wait_if_needed(250_000_000), 750_000_000);
    limiter.mark_request(1_000_000_000);
    assert_eq!(limiter.wait_if_needed(1_000_000_000), 1_000_000_000);
    assert_eq!(limiter.get_rpm(), 60);
}

#[test]
fn mark_is_set_whether_or_not_the_caller_waited() {
    let mut limiter = RateLimiter::new(60, 0).unwrap();
    assert_eq!(limiter.wait_if_needed(5_000_000_000), 0);
    limiter.mark_request(5_000_000_000);
    assert_eq!(limiter.wait_if_needed(5_000_000_001), 999_999_999);
}

#[test]
fn clock_before_the_last_mark_counts_as_no_time_passed() {
    let limiter = RateLimiter::new(60, 10_000_000_000).unwrap();
    assert_eq!(limiter.wait_if_needed(9_000_000_000), 1_000_000_000);
    assert_eq!(limiter.wait_if_needed(0), 1_000_000_000);
}

#[test]
fn consecutive_starts_are_an_interval_apart() {
    for rpm in [1, 7, 59, 100, 120, 6000, i32::MAX] {
        for overshoot in [0u64, 1, 1_000_000] {
            let mut limiter = RateLimiter::new(rpm, 42).unwrap();
            let interval = limiter.interval();
            let starts = run(&mut limiter, 42, 25, overshoot);
            for pair in starts.windows(2) {
                let gap = pair[1] - pair[0];
                assert!(gap >= interval);
                assert!(gap as u128 * rpm as u128 >= NANOS_PER_MINUTE as u128);
            }
            assert!(starts[24] - starts[0] >= 24 * interval);
        }
    }
}

#[test]
fn no_wait_is_longer_than_an_interval_even_after_a_long_idle_time() {
    for rpm in [1, 7, 100, 120, i32::MAX] {
        let mut limiter = RateLimiter::new(rpm, 0).unwrap();
        let interval = limiter.interval();
        for now in [0u64, 1, interval - 1, interval, 3 * interval, u64::MAX / 2] {
            assert!(limiter.wait_if_needed(now) <= interval);
        }
        // a long idle time banks nothing: the call after it passes at once,
        // and the one after that waits a whole interval
        let late = 1_000 * NANOS_PER_MINUTE;
        assert_eq!(limiter.wait_if_needed(late), 0);
        limiter.mark_request(late);
        assert_eq!(limiter.wait_if_needed(late), interval);
    }
}

#[test]
fn three_calls_at_120_rpm_take_at_least_a_second() {
    let begin = 5_000_000_000u64;
    let mut limiter = RateLimiter::new(120, begin).unwrap();
    let starts = run(&mut limiter, begin, 3, 0);
    assert_eq!(starts.len(), 3);
    assert!(starts[2] - begin >= 1_000_000_000);
    assert_eq!(starts, vec![5_500_000_000, 6_000_000_000, 6_500_000_000]);
}

#[test]
fn three_calls_through_a_client_at_120_rpm_take_at_least_a_second() {
    let mut client = HaveIBeenPwned::new_with_rate_limit("key", 120, 0).unwrap();
    let mut clock = 0u64;
    for _ in 0..3 {
        clock += client.wait_if_needed(clock);
        client.mark_request(clock);
    }
    assert!(clock >= 2 * (NANOS_PER_MINUTE / 120));
    assert_eq!(clock, 1_500_000_000);
    assert_eq!(client.get_rpm(), Some(120));
}

#[test]
fn client_without_a_limiter_never_waits() {
    let mut client = HaveIBeenPwned::new("key");
    assert_eq!(client.get_rpm(), None);
    assert_eq!(client.wait_if_needed(0), 0);
    client.mark_request(7);
    assert_eq!(client.wait_if_needed(7), 0);
    assert!(client.rate_limiter.is_none());
}

#[test]
fn client_with_a_rate_that_is_not_positive_is_refused() {
    assert_eq!(
        HaveIBeenPwned::new_with_rate_limit("key", 0, 0).unwrap_err(),
        HibpError::InvalidRateLimit
    );
    assert_eq!(
        HaveIBeenPwned::new_with_rate_limit("key", -5, 0).unwrap_err(),
        HibpError::InvalidRateLimit
    );
}
