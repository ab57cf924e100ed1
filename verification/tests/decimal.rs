use libosbuild::decimal::{append_decimal, decimal_string};
use libosbuild::python::sum_as_string;

#[test]
fn single_digits() {
    let expected = ["0", "1", "2", "3", "4", "5", "6", "7", "8", "9"];
    for (n, text) in expected.iter().enumerate() {
        assert_eq!(decimal_string(n), *text);
    }
}

#[test]
fn several_digits() {
    assert_eq!(decimal_string(10), "10");
    assert_eq!(decimal_string(42), "42");
    assert_eq!(decimal_string(100), "100");
    assert_eq!(decimal_string(1337), "1337");
    assert_eq!(decimal_string(9876543210), "9876543210");
}

#[test]
fn decimal_agrees_with_std() {
    for n in 0..2000usize {
        assert_eq!(decimal_string(n), n.to_string());
    }
    assert_eq!(decimal_string(usize::MAX), usize::MAX.to_string());
}

#[test]
fn append_decimal_keeps_what_is_there() {
    let mut text = String::from("n=");
    append_decimal(&mut text, 305);
    assert_eq!(text, "n=305");
    append_decimal(&mut text, 0);
    assert_eq!(text, "n=3050");
}

#[test]
fn sum_is_written_in_decimal() {
    assert_eq!(sum_as_string(0, 0), "0");
    assert_eq!(sum_as_string(1, 2), "3");
    assert_eq!(sum_as_string(999, 1), "1000");
    assert_eq!(sum_as_string(usize::MAX - 1, 1), usize::MAX.to_string());
}
