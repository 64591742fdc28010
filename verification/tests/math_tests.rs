use rustymon::math::{clamp, div_round_away, isqrt, saturate, SCALE};
use rustymon::vector::Vector;

#[test]
fn scale_is_one_thousand() {
    assert_eq!(SCALE, 1000);
}

#[test]
fn isqrt_rounds_down() {
    assert_eq!(isqrt(0), 0);
    assert_eq!(isqrt(1), 1);
    assert_eq!(isqrt(3), 1);
    assert_eq!(isqrt(4), 2);
    assert_eq!(isqrt(99), 9);
    assert_eq!(isqrt(100), 10);
    assert_eq!(isqrt(40_000_000), 6324);
}

#[test]
fn isqrt_reaches_the_largest_input() {
    assert_eq!(isqrt(u128::MAX), u64::MAX);
}

#[test]
fn division_rounds_away_from_zero() {
    assert_eq!(div_round_away(7, 2), 4);
    assert_eq!(div_round_away(-7, 2), -4);
    assert_eq!(div_round_away(8, 2), 4);
    assert_eq!(div_round_away(-8, 2), -4);
    assert_eq!(div_round_away(0, 5), 0);
    assert_eq!(div_round_away(1, 1000), 1);
    assert_eq!(div_round_away(-1, 1000), -1);
}

#[test]
fn division_of_the_smallest_number_does_not_overflow() {
    assert_eq!(div_round_away(i128::MIN, 1), i128::MIN);
    assert_eq!(div_round_away(i128::MAX, 1), i128::MAX);
}

#[test]
fn saturate_holds_values_in_coordinate_range() {
    assert_eq!(saturate(5), 5);
    assert_eq!(saturate(3_000_000_000), i32::MAX);
    assert_eq!(saturate(-3_000_000_000), i32::MIN);
}

#[test]
fn clamp_limits_to_the_interval() {
    assert_eq!(clamp(5, 0, 10), 5);
    assert_eq!(clamp(-5, 0, 10), 0);
    assert_eq!(clamp(15, 0, 10), 10);
    assert_eq!(clamp(0, 0, 10), 0);
    assert_eq!(clamp(10, 0, 10), 10);
}

#[test]
fn clamp_on_an_empty_interval_gives_the_lower_end() {
    assert_eq!(clamp(5, 10, 0), 10);
}

#[test]
fn distance_squared_is_exact() {
    let a = Vector::new(0, 0);
    let b = Vector::new(6000, 2000);
    assert_eq!(a.distance_squared(&b), 40_000_000);
    assert_eq!(b.distance_squared(&a), 40_000_000);
}

#[test]
fn distance_squared_spans_the_whole_coordinate_range() {
    let a = Vector::new(i32::MIN, i32::MIN);
    let b = Vector::new(i32::MAX, i32::MAX);
    let side: u128 = 4_294_967_295;
    assert_eq!(a.distance_squared(&b), 2 * side * side);
}

#[test]
fn normalize_of_an_axis_vector_is_exact() {
    assert_eq!(Vector::new(5, 0).normalize(), Vector::new(1000, 0));
    assert_eq!(Vector::new(0, -7).normalize(), Vector::new(0, -1000));
}

#[test]
fn normalize_of_zero_is_zero() {
    assert_eq!(Vector::new(0, 0).normalize(), Vector::new(0, 0));
}

#[test]
fn normalize_rounds_each_component_away_from_zero() {
    // length of (3000, 4000) is exactly 5000
    assert_eq!(Vector::new(3000, 4000).normalize(), Vector::new(600, 800));
    // length of (1, 1) rounds down to 1, so each component is a whole unit
    assert_eq!(Vector::new(1, 1).normalize(), Vector::new(1000, 1000));
    // length of (1000, 1000) rounds down to 1414: 1000000 / 1414 = 707.2..
    assert_eq!(Vector::new(1000, 1000).normalize(), Vector::new(708, 708));
    assert_eq!(Vector::new(-1000, 1000).normalize(), Vector::new(-708, 708));
}

#[test]
fn direction_to_points_from_one_point_to_the_other() {
    let from = Vector::new(10_000, 10_000);
    let to = Vector::new(10_000, 4_000);
    assert_eq!(from.direction_to(&to), Vector::new(0, -1000));
    assert_eq!(from.direction_to(&from), Vector::new(0, 0));
}

#[test]
fn translate_saturates() {
    assert_eq!(Vector::new(1, 2).translate(3, 4), Vector::new(4, 6));
    assert_eq!(Vector::new(i32::MAX, 0).translate(1, 0), Vector::new(i32::MAX, 0));
    assert_eq!(Vector::new(0, i32::MIN).translate(0, -1), Vector::new(0, i32::MIN));
}
