use config_store::math::add;
use config_store::math::multiply;

#[test]
fn test_add_positive_numbers() {
    assert_eq!(add(2, 3), 5);
}

#[test]
fn test_add_negative_numbers() {
    assert_eq!(add(-2, -3), -5);
}

#[test]
fn test_add_mixed_numbers() {
    assert_eq!(add(-2, 5), 3);
}

#[test]
fn test_add_zero() {
    assert_eq!(add(0, 5), 5);
    assert_eq!(add(5, 0), 5);
}

#[test]
fn test_multiply_positive_numbers() {
    assert_eq!(multiply(2, 3), 6);
}

#[test]
fn test_multiply_by_zero() {
    assert_eq!(multiply(5, 0), 0);
}

#[test]
fn test_multiply_negative_numbers() {
    assert_eq!(multiply(-2, -3), 6);
}
