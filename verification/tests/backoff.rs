use fedimint_server::net::backoff::{
    api_networking_backoff, FibonacciBackoff, NETWORKING_BACKOFF_MAX_MS, NETWORKING_BACKOFF_MIN_MS,
};

#[test]
fn networking_backoff_starts_at_the_floor() {
    let mut backoff = api_networking_backoff();
    assert_eq!(backoff.min_delay_ms(), 250);
    assert_eq!(backoff.max_delay_ms(), 10_000);
    assert_eq!(backoff.last_delay_ms(), None);
    assert_eq!(backoff.next(), NETWORKING_BACKOFF_MIN_MS);
    assert_eq!(backoff.last_delay_ms(), Some(250));
}

#[test]
fn networking_backoff_follows_the_fibonacci_numbers_up_to_the_cap() {
    let mut backoff = api_networking_backoff();
    let delays: Vec<u64> = (0..12).map(|_| backoff.next()).collect();
    assert_eq!(
        delays,
        vec![250, 250, 500, 750, 1250, 2000, 3250, 5250, 8500, 10_000, 10_000, 10_000]
    );
    assert_eq!(NETWORKING_BACKOFF_MAX_MS, 10_000);
}

#[test]
fn delays_never_shrink_and_never_run_out() {
    let mut backoff = FibonacciBackoff::new(3, 1_000_000).unwrap();
    let mut last = 0;
    for _ in 0..10_000 {
        let delay = backoff.next();
        assert!(delay >= last);
        assert!(delay >= 3);
        assert!(delay <= 1_000_000);
        last = delay;
    }
    assert_eq!(last, 1_000_000);
}

#[test]
fn a_floor_above_the_cap_is_refused() {
    assert!(FibonacciBackoff::new(11, 10).is_none());
    assert!(FibonacciBackoff::new(10, 10).is_some());
}

#[test]
fn equal_limits_give_a_constant_delay() {
    let mut backoff = FibonacciBackoff::new(10, 10).unwrap();
    assert_eq!(backoff.next(), 10);
    assert_eq!(backoff.next(), 10);
    assert_eq!(backoff.next(), 10);
}

#[test]
fn the_largest_limits_do_not_overflow() {
    let mut backoff = FibonacciBackoff::new(u64::MAX - 1, u64::MAX).unwrap();
    assert_eq!(backoff.next(), u64::MAX - 1);
    assert_eq!(backoff.next(), u64::MAX - 1);
    assert_eq!(backoff.next(), u64::MAX);
    assert_eq!(backoff.next(), u64::MAX);
}

#[test]
fn a_floor_of_zero_stays_at_zero() {
    let mut backoff = FibonacciBackoff::new(0, 100).unwrap();
    for _ in 0..5 {
        assert_eq!(backoff.next(), 0);
    }
}
