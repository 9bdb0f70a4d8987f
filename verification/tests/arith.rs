use breakout_pong::arith::{clamp, diagonal_component_of, div_toward_zero, saturate, sum};

#[test]
fn sum_adds() {
    assert_eq!(sum(0, 0), 0);
    assert_eq!(sum(2, 3), 5);
    assert_eq!(sum(u32::MAX - 1, 1), u32::MAX);
    assert_eq!(sum(0, u32::MAX), u32::MAX);
}

#[test]
fn division_rounds_toward_zero() {
    assert_eq!(div_toward_zero(282_842, 60), 4_714);
    assert_eq!(div_toward_zero(-282_842, 60), -4_714);
    assert_eq!(div_toward_zero(500_000, 60), 8_333);
    assert_eq!(div_toward_zero(-500_000, 60), -8_333);
    assert_eq!(div_toward_zero(59, 60), 0);
    assert_eq!(div_toward_zero(-59, 60), 0);
    assert_eq!(div_toward_zero(60, 60), 1);
    assert_eq!(div_toward_zero(-60, 60), -1);
    assert_eq!(div_toward_zero(0, 1), 0);
}

#[test]
fn division_handles_the_ends_of_the_range() {
    assert_eq!(div_toward_zero(i64::MIN, 1), i64::MIN);
    assert_eq!(div_toward_zero(i64::MAX, 1), i64::MAX);
    assert_eq!(div_toward_zero(i64::MIN, 2), i64::MIN / 2);
    assert_eq!(div_toward_zero(i64::MIN, u32::MAX), i64::MIN / (u32::MAX as i64));
    assert_eq!(div_toward_zero(i64::MAX, u32::MAX), i64::MAX / (u32::MAX as i64));
}

#[test]
fn clamp_limits_to_the_bounds() {
    assert_eq!(clamp(5, -10, 10), 5);
    assert_eq!(clamp(11, -10, 10), 10);
    assert_eq!(clamp(-11, -10, 10), -10);
    assert_eq!(clamp(10, -10, 10), 10);
    assert_eq!(clamp(-10, -10, 10), -10);
    assert_eq!(clamp(i128::MAX, -10, 10), 10);
    assert_eq!(clamp(i128::MIN, -10, 10), -10);
}

#[test]
fn clamp_with_crossed_bounds_gives_the_lower_bound() {
    assert_eq!(clamp(0, 10, -10), 10);
    assert_eq!(clamp(100, 10, -10), 10);
    assert_eq!(clamp(-100, 10, -10), 10);
}

#[test]
fn saturate_limits_to_the_coordinate_range() {
    assert_eq!(saturate(0), 0);
    assert_eq!(saturate(i64::MAX as i128 + 1), i64::MAX);
    assert_eq!(saturate(i64::MIN as i128 - 1), i64::MIN);
    assert_eq!(saturate(i64::MAX as i128), i64::MAX);
    assert_eq!(saturate(i64::MIN as i128), i64::MIN);
}

#[test]
fn diagonal_component_is_the_length_over_root_two() {
    assert_eq!(diagonal_component_of(0), 0);
    assert_eq!(diagonal_component_of(1), 0);
    assert_eq!(diagonal_component_of(2), 1);
    assert_eq!(diagonal_component_of(3), 2);
    assert_eq!(diagonal_component_of(10), 7);
    assert_eq!(diagonal_component_of(400_000), 282_842);
    assert_eq!(diagonal_component_of(1_000_000_000_000), 707_106_781_186);
}

#[test]
fn diagonal_component_brackets_the_length() {
    for length in [5i64, 99, 1_000, 123_456_789, i64::MAX] {
        let c = diagonal_component_of(length) as i128;
        let l = length as i128;
        assert!(2 * c * c <= l * l);
        assert!(l * l < 2 * (c + 1) * (c + 1));
    }
}
