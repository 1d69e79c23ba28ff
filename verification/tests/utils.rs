use udppp::{cur_timestamp, is_timeout, is_timeout_at, TIMEOUT_SECOND};

#[test]
fn idle_timeout_is_three_minutes() {
    assert_eq!(TIMEOUT_SECOND, 180);
}

#[test]
fn timeout_is_reached_at_the_deadline_and_not_before() {
    assert!(!is_timeout_at(279, 100, 180));
    assert!(is_timeout_at(280, 100, 180));
    assert!(is_timeout_at(281, 100, 180));
    assert!(is_timeout_at(100, 100, 0));
    assert!(!is_timeout_at(99, 100, 0));
    assert!(is_timeout_at(-20, -200, 180));
    assert!(!is_timeout_at(-21, -200, 180));
}

#[test]
fn timeout_sum_does_not_wrap() {
    assert!(!is_timeout_at(i64::MAX, i64::MAX, 1));
    assert!(!is_timeout_at(0, i64::MAX, u64::MAX));
    assert!(!is_timeout_at(i64::MAX, 0, u64::MAX));
    assert!(is_timeout_at(i64::MAX, i64::MIN, u64::MAX));
    assert!(!is_timeout_at(i64::MAX - 1, i64::MIN, u64::MAX));
    assert!(is_timeout_at(i64::MIN, i64::MIN, 0));
}

#[test]
fn clock_shows_a_time_after_the_year_2020() {
    let now = cur_timestamp();
    assert!(now > 1_577_836_800);
    let later = cur_timestamp();
    assert!(later >= now - 1);
}

#[test]
fn is_timeout_goes_by_the_clock() {
    let now = cur_timestamp();
    assert!(is_timeout(now - 1000, 180));
    assert!(!is_timeout(now + 1000, 180));
    assert!(is_timeout(0, 0));
    assert!(!is_timeout(i64::MAX, u64::MAX));
}
