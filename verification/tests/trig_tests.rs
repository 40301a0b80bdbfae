use crane_sim::trig::{atan2_fx, isqrt};

#[test]
fn test_isqrt_small_values() {
    assert_eq!(isqrt(0), 0);
    assert_eq!(isqrt(1), 1);
    assert_eq!(isqrt(3), 1);
    assert_eq!(isqrt(4), 2);
    assert_eq!(isqrt(99), 9);
    assert_eq!(isqrt(100), 10);
}

#[test]
fn test_isqrt_large_values() {
    assert_eq!(isqrt(1_000_000_000_000_000_000), 1_000_000_000);
    assert_eq!(isqrt(u64::MAX as u128), 4_294_967_295);
}

#[test]
fn test_atan2_eighth_turns_are_exact() {
    assert_eq!(atan2_fx(0, 5), 0);
    assert_eq!(atan2_fx(5, 5), 45_000_000);
    assert_eq!(atan2_fx(7, 0), 90_000_000);
    assert_eq!(atan2_fx(5, -5), 135_000_000);
    assert_eq!(atan2_fx(0, -3), 180_000_000);
    assert_eq!(atan2_fx(-5, 5), -45_000_000);
    assert_eq!(atan2_fx(-7, 0), -90_000_000);
    assert_eq!(atan2_fx(-1, -1), -135_000_000);
    assert_eq!(atan2_fx(0, 0), 0);
}

#[test]
fn test_atan2_general_direction_close() {
    // atan(1/2) is 26.565 degrees; the octant approximation is good to
    // about a quarter of a degree
    let a = atan2_fx(1_000_000, 2_000_000);
    assert!((a - 26_565_051).abs() < 250_000);
    // and antisymmetric in the ordinate
    assert_eq!(atan2_fx(-1_000_000, 2_000_000), -a);
}
