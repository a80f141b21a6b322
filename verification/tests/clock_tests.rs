use estatus::clock::{Moment, NANOS_PER_MILLI};

#[test]
fn from_millis_is_a_million_nanos_each() {
    assert_eq!(NANOS_PER_MILLI, 1_000_000);
    assert_eq!(Moment::from_millis(0).nanos(), 0);
    assert_eq!(Moment::from_millis(3).nanos(), 3_000_000);
    assert_eq!(Moment::from_millis(u64::MAX).nanos(), u64::MAX as u128 * 1_000_000);
}

#[test]
fn from_nanos_keeps_the_reading() {
    assert_eq!(Moment::from_nanos(42).nanos(), 42);
    assert_eq!(Moment::from_nanos(u128::MAX).nanos(), u128::MAX);
}

#[test]
fn millis_since_counts_whole_milliseconds() {
    let start = Moment::from_nanos(500);
    assert_eq!(Moment::from_nanos(500).millis_since(start), 0);
    assert_eq!(Moment::from_nanos(1_000_499).millis_since(start), 0);
    assert_eq!(Moment::from_nanos(1_000_500).millis_since(start), 1);
    assert_eq!(Moment::from_nanos(2_500_000_500).millis_since(start), 2500);
}

#[test]
fn millis_since_a_later_moment_is_zero() {
    let later = Moment::from_millis(9_000);
    assert_eq!(Moment::from_millis(1_000).millis_since(later), 0);
    assert_eq!(Moment::from_nanos(0).millis_since(Moment::from_nanos(u128::MAX)), 0);
}

#[test]
fn moments_compare_by_reading() {
    assert_eq!(Moment::from_millis(2), Moment::from_nanos(2_000_000));
    assert_ne!(Moment::from_millis(2), Moment::from_millis(3));
}
