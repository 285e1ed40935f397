use bolero::{Duration, Options};

#[test]
fn duration_carries_nanoseconds_over() {
    let span = Duration::new(2, 3_500_000_000);
    assert_eq!(span.as_secs(), 5);
    assert_eq!(span.subsec_nanos(), 500_000_000);
    assert_eq!(span.as_nanos(), 5_500_000_000);
    assert_eq!(span, Duration::new(5, 500_000_000));
}

#[test]
fn duration_checked_new_refuses_overflow() {
    assert_eq!(Duration::checked_new(u64::MAX, 1_000_000_000), None);
    assert_eq!(Duration::checked_new(u64::MAX - 3, 4_000_000_000), None);
    assert_eq!(
        Duration::checked_new(u64::MAX - 4, 4_000_000_000).map(|span| span.as_secs()),
        Some(u64::MAX)
    );
    assert_eq!(
        Duration::checked_new(u64::MAX, 999_999_999).map(|span| span.as_nanos()),
        Some(u64::MAX as u128 * 1_000_000_000 + 999_999_999)
    );
}

#[test]
fn duration_from_parts() {
    assert_eq!(Duration::from_secs(3), Duration::new(3, 0));
    assert_eq!(Duration::from_nanos(3_000_000_001), Duration::new(3, 1));
    assert_eq!(Duration::from_nanos(u64::MAX).as_nanos(), u64::MAX as u128);
    assert!(Duration::from_nanos(0).is_zero());
    assert!(!Duration::from_nanos(1).is_zero());
    assert!(!Duration::from_secs(1).is_zero());
}

#[test]
fn duration_comparison() {
    let short = Duration::new(1, 999_999_999);
    let long = Duration::new(2, 0);
    assert!(long.exceeds(&short));
    assert!(!short.exceeds(&long));
    assert!(!short.exceeds(&short));
    assert!(Duration::new(2, 1).exceeds(&long));
}

#[test]
fn options_defaults_and_overrides() {
    let options = Options::new();
    assert_eq!(options.max_len_or_default(), 4096);
    assert_eq!(options.max_depth_or_default(), 5);
    assert_eq!(options.shrink_time_or_default(), Duration::from_secs(1));
    assert!(options.forward_panic);
    assert!(!options.capture_backtrace);
    assert!(options.keep_first_byte);
    assert!(!options.with_keep_first_byte(false).keep_first_byte);

    let options = options
        .with_max_len(7)
        .with_max_depth(9)
        .with_shrink_time(Duration::new(0, 5));
    assert_eq!(options.max_len_or_default(), 7);
    assert_eq!(options.max_depth_or_default(), 9);
    assert_eq!(options.shrink_time_or_default(), Duration::new(0, 5));
}
