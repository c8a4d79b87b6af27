use boxmode::batch::{
    active_batch_size, idle_batch_size, scale_by_magnitude, task_quota, MAGNITUDE_SCALE,
};

#[test]
fn active_batch_size_example() {
    // A rate of 100 at magnitude 0.3.
    assert_eq!(active_batch_size(100, 300), 30);
}

#[test]
fn idle_batch_size_example() {
    // Four workers at magnitude 0.75.
    assert_eq!(idle_batch_size(4, 750), 3);
}

#[test]
fn task_quota_example() {
    assert_eq!(task_quota(12, 500), 6);
    assert_eq!(task_quota(30, 1000), 30);
}

#[test]
fn halves_round_up() {
    assert_eq!(scale_by_magnitude(1, 500), 1); // 0.5
    assert_eq!(scale_by_magnitude(3, 500), 2); // 1.5
    assert_eq!(scale_by_magnitude(5, 500), 3); // 2.5
    assert_eq!(scale_by_magnitude(5, 300), 2); // 1.5
    assert_eq!(active_batch_size(7, 500), 4); // 3.5
    assert_eq!(idle_batch_size(2, 250), 1); // 0.5
    assert_eq!(task_quota(1, 1500), 2); // 1.5
}

#[test]
fn just_below_and_above_a_half() {
    assert_eq!(scale_by_magnitude(1, 499), 0); // 0.499
    assert_eq!(scale_by_magnitude(1, 501), 1); // 0.501
    assert_eq!(scale_by_magnitude(3, 499), 1); // 1.497
    assert_eq!(scale_by_magnitude(1499, 1), 1); // 1.499
    assert_eq!(scale_by_magnitude(1500, 1), 2); // 1.5
    assert_eq!(scale_by_magnitude(2499, 1), 2); // 2.499
}

#[test]
fn unit_and_zero_magnitudes() {
    assert_eq!(MAGNITUDE_SCALE, 1000);
    for value in [0u32, 1, 2, 999, 1000, 123_456, u32::MAX] {
        assert_eq!(scale_by_magnitude(value, MAGNITUDE_SCALE), value);
        assert_eq!(scale_by_magnitude(value, 0), 0);
        assert_eq!(scale_by_magnitude(0, value), 0);
    }
}

#[test]
fn product_is_capped_at_the_largest_u32() {
    assert_eq!(scale_by_magnitude(u32::MAX, 2000), u32::MAX);
    assert_eq!(scale_by_magnitude(u32::MAX, u32::MAX), u32::MAX);
    assert_eq!(scale_by_magnitude(u32::MAX, 1001), u32::MAX);
    assert_eq!(scale_by_magnitude(u32::MAX, 999), 4_290_672_328);
    assert_eq!(scale_by_magnitude(4_000_000, 1_000_000), 4_000_000_000);
    assert_eq!(scale_by_magnitude(5_000_000, 1_000_000), u32::MAX);
}

#[test]
fn scaling_matches_wide_arithmetic() {
    for value in [0u32, 1, 3, 10, 99, 100, 101, 4096, 65_535, 1_000_003] {
        for magnitude in [0u32, 1, 250, 300, 333, 500, 750, 999, 1000, 1001, 3000] {
            let exact = (value as u128 * magnitude as u128 + 500) / 1000;
            let expected = exact.min(u32::MAX as u128) as u32;
            assert_eq!(scale_by_magnitude(value, magnitude), expected);
            assert_eq!(active_batch_size(value, magnitude), expected);
            assert_eq!(idle_batch_size(value, magnitude), expected);
            assert_eq!(task_quota(value, magnitude), expected);
        }
    }
}

#[test]
fn scaling_is_monotone() {
    let mut last = 0;
    for value in 0u32..200 {
        let scaled = scale_by_magnitude(value, 333);
        assert!(scaled >= last);
        last = scaled;
    }
}
