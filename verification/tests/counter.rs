use contact_core::buffer::SampleCounter;

#[test]
fn counter_starts_at_zero() {
    let c = SampleCounter::default();
    assert_eq!(c.get_counter(), 0);
}

#[test]
fn counter_increments_by_one() {
    let mut c = SampleCounter::default();
    let overflow = c.increment();
    assert!(!overflow);
    assert_eq!(c.get_counter(), 1);
    let overflow = c.increment();
    assert!(!overflow);
    assert_eq!(c.get_counter(), 2);
}

#[test]
fn counter_overflow_reported_and_value_held() {
    let mut c = SampleCounter::new(usize::MAX);
    let overflow = c.increment();
    assert!(overflow);
    assert_eq!(c.get_counter(), usize::MAX);
    // A second attempt reports the overflow again and still does not wrap.
    let overflow = c.increment();
    assert!(overflow);
    assert_eq!(c.get_counter(), usize::MAX);
}

#[test]
fn counter_near_overflow_still_increments() {
    let mut c = SampleCounter::new(usize::MAX - 1);
    let overflow = c.increment();
    assert!(!overflow);
    assert_eq!(c.get_counter(), usize::MAX);
}

#[test]
fn wrapping_add_within_limit() {
    let c = SampleCounter::new(5);
    assert_eq!(c.wrapping_counter_add(7, 45000), 12);
}

#[test]
fn wrapping_add_wraps_at_limit() {
    let c = SampleCounter::new(44999);
    assert_eq!(c.wrapping_counter_add(1, 45000), 0);
    assert_eq!(c.wrapping_counter_add(3, 45000), 2);
}

#[test]
fn wrapping_add_value_beyond_limit() {
    // The counter itself may stand beyond the limit; the result is still
    // (value + rhs) mod limit.
    let c = SampleCounter::new(50000);
    assert_eq!(c.wrapping_counter_add(1, 45000), 5001);
    assert_eq!(c.wrapping_counter_add(0, 45000), 5000);
}

#[test]
fn wrapping_sub_within_limit() {
    let c = SampleCounter::new(10);
    assert_eq!(c.wrapping_counter_sub(4, 45000), 6);
}

#[test]
fn wrapping_sub_wraps_below_zero() {
    let c = SampleCounter::new(0);
    assert_eq!(c.wrapping_counter_sub(1, 45000), 44999);
    let c = SampleCounter::new(2);
    assert_eq!(c.wrapping_counter_sub(5, 45000), 44997);
}

#[test]
fn wrapping_results_stay_in_range() {
    let limits = [1usize, 2, 250, 45000];
    let values = [0usize, 1, 249, 45000, 90001];
    for &limit in limits.iter() {
        for &value in values.iter() {
            let c = SampleCounter::new(value);
            for rhs in 0..limit.min(5) {
                let a = c.wrapping_counter_add(rhs, limit);
                let s = c.wrapping_counter_sub(rhs, limit);
                assert!(a < limit);
                assert!(s < limit);
                assert_eq!(a, (value + rhs) % limit);
                assert_eq!(s, (value + limit - rhs) % limit);
            }
        }
    }
}
