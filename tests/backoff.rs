use helexa::backoff::{Backoff, ReconnectAction};

#[test]
fn three_failures_from_cold_double_the_delay() {
    let mut b = Backoff::new(30, 3600);
    assert_eq!(b.next_delay(), 30);
    assert_eq!(b.next_delay(), 60);
    assert_eq!(b.next_delay(), 120);
}

#[test]
fn delays_are_capped_at_the_maximum() {
    let mut b = Backoff::new(30, 50);
    assert_eq!(b.next_delay(), 30);
    assert_eq!(b.next_delay(), 50);
    assert_eq!(b.next_delay(), 50);
}

#[test]
fn doubling_near_the_top_of_the_range_saturates_at_max() {
    let mut b = Backoff::new(u64::MAX - 1, u64::MAX);
    assert_eq!(b.next_delay(), u64::MAX - 1);
    assert_eq!(b.next_delay(), u64::MAX);
    assert_eq!(b.next_delay(), u64::MAX);
}

#[test]
fn reset_returns_to_the_initial_delay() {
    let mut b = Backoff::new(2, 100);
    b.next_delay();
    b.next_delay();
    b.reset();
    assert_eq!(b.next_delay(), 2);
}

#[test]
fn clean_session_end_stops_and_failure_retries() {
    let mut b = Backoff::new(30, 3600);
    assert!(matches!(b.after_session(false), ReconnectAction::RetryAfter(30)));
    assert!(matches!(b.after_session(false), ReconnectAction::RetryAfter(60)));
    assert!(matches!(b.after_session(true), ReconnectAction::Stop));
    assert!(matches!(b.after_session(false), ReconnectAction::RetryAfter(120)));
}

#[test]
fn an_initial_delay_above_the_maximum_is_capped() {
    let mut b = Backoff::new(100, 50);
    assert_eq!(b.next_delay(), 50);
    assert_eq!(b.next_delay(), 50);
    b.reset();
    assert_eq!(b.next_delay(), 50);
}
