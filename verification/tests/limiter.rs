use hot_lib_reloader::util::TimedLimiter;

#[test]
fn timed_limiter_over_a_window_of_three() {
    // the call times a host would have observed with a 5 ms delay:
    // at 0, 1, 11, 12 and 13 ms
    let mut l = TimedLimiter::new(5, 3);
    assert!(!l.too_frequent(0));
    assert!(!l.too_frequent(1));
    assert!(!l.too_frequent(11));
    assert!(!l.too_frequent(12));
    assert!(l.too_frequent(13));
}

#[test]
fn timed_limiter_resets_after_a_quiet_spell() {
    let mut l = TimedLimiter::new(10, 2);
    assert!(!l.too_frequent(0));
    assert!(l.too_frequent(5));
    assert!(!l.too_frequent(100));
    assert!(l.too_frequent(105));
}

#[test]
fn timed_limiter_window_of_one_is_always_frequent() {
    let mut l = TimedLimiter::new(5, 1);
    assert!(l.too_frequent(0));
    assert!(l.too_frequent(1000));
}
