use scaproust::backoff::{Backoff, DEFAULT_INTERVAL_MAX_MS};

#[test]
fn the_wait_doubles_up_to_the_cap() {
    let mut backoff = Backoff::new(100, DEFAULT_INTERVAL_MAX_MS);
    let waits: Vec<u64> = (0..7).map(|_| backoff.next_delay()).collect();
    assert_eq!(waits, vec![100, 200, 400, 800, 1000, 1000, 1000]);
}

#[test]
fn the_wait_starts_over_after_a_success() {
    let mut backoff = Backoff::new(100, 1000);
    backoff.next_delay();
    backoff.next_delay();
    backoff.reset();
    assert_eq!(backoff.next_delay(), 100);
    assert_eq!(backoff.next_delay(), 200);
}

#[test]
fn a_cap_below_the_first_wait_keeps_the_wait_as_it_is() {
    let mut backoff = Backoff::new(500, 100);
    assert_eq!(backoff.next_delay(), 500);
    assert_eq!(backoff.next_delay(), 500);
}

#[test]
fn a_wait_of_zero_stays_zero() {
    let mut backoff = Backoff::new(0, 1000);
    assert_eq!(backoff.next_delay(), 0);
    assert_eq!(backoff.next_delay(), 0);
}

#[test]
fn the_greatest_waits_do_not_overflow() {
    let mut backoff = Backoff::new(u64::MAX / 2 + 1, u64::MAX);
    assert_eq!(backoff.next_delay(), u64::MAX / 2 + 1);
    assert_eq!(backoff.next_delay(), u64::MAX);
    assert_eq!(backoff.next_delay(), u64::MAX);
}

#[test]
fn the_default_cap_is_one_second() {
    assert_eq!(DEFAULT_INTERVAL_MAX_MS, 1000);
}
