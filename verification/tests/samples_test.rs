use analyzer::samples::{abs, compare, fizz_buzz, sign, Ordering};

#[test]
fn test_compare() {
    assert_eq!(compare(1, 2), Ordering::Less);
    assert_eq!(compare(2, 1), Ordering::Greater);
}

#[test]
fn test_abs() {
    assert_eq!(abs(-5), 5);
}

#[test]
fn test_sign() {
    assert_eq!(sign(2), "positive");
    assert_eq!(sign(0), "zero");
}

#[test]
fn test_fizz_buzz() {
    assert_eq!(fizz_buzz(3), "fizz");
    assert_eq!(fizz_buzz(5), "buzz");
}
