use divisibility::another_function;
use divisibility::is_divisible_by;

#[test]
fn three_is_not_divisible_by_two() {
    assert!(!is_divisible_by(3, 2));
}

#[test]
fn ten_is_divisible_by_two() {
    assert!(is_divisible_by(10, 2));
}

#[test]
fn negative_nine_is_divisible_by_three() {
    assert!(is_divisible_by(-9, 3));
}

#[test]
fn zero_divisor_is_never_divisible() {
    assert!(!is_divisible_by(7, 0));
    assert!(!is_divisible_by(0, 0));
    assert!(!is_divisible_by(-7, 0));
    assert!(!is_divisible_by(i32::MIN, 0));
}

#[test]
fn zero_is_divisible_by_any_nonzero_divisor() {
    assert!(is_divisible_by(0, 5));
    assert!(is_divisible_by(0, -5));
    assert!(is_divisible_by(0, 1));
    assert!(is_divisible_by(0, i32::MIN));
}

#[test]
fn negative_divisors() {
    assert!(is_divisible_by(9, -3));
    assert!(is_divisible_by(-9, -3));
    assert!(!is_divisible_by(7, -2));
    assert!(!is_divisible_by(-7, -2));
}

#[test]
fn extreme_values() {
    assert!(is_divisible_by(i32::MIN, -1));
    assert!(is_divisible_by(i32::MIN, 1));
    assert!(is_divisible_by(i32::MIN, 2));
    assert!(is_divisible_by(i32::MIN, i32::MIN));
    assert!(!is_divisible_by(i32::MAX, 2));
    assert!(is_divisible_by(i32::MAX, i32::MAX));
    assert!(!is_divisible_by(i32::MAX, i32::MIN));
}

#[test]
fn repeated_calls_agree() {
    assert_eq!(is_divisible_by(3, 2), is_divisible_by(3, 2));
    assert_eq!(is_divisible_by(-9, 3), is_divisible_by(-9, 3));
    assert_eq!(is_divisible_by(7, 0), is_divisible_by(7, 0));
}

#[test]
fn announcement_line() {
    assert_eq!(another_function(), "another_function");
}
