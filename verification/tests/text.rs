use sysinfo::rounding::divide_rounded;
use sysinfo::text::{push_decimal, push_one_decimal, push_two_decimals};

#[test]
fn every_digit_is_written() {
    let mut out = String::from("x");
    push_decimal(&mut out, 1_023_456_789);
    assert_eq!(out, "x1023456789");
}

#[test]
fn decimal_notation() {
    for n in [0u128, 7, 10, 99, 100, 1_234_567_890, u64::MAX as u128, u128::MAX] {
        let mut out = String::from("n=");
        push_decimal(&mut out, n);
        assert_eq!(out, format!("n={}", n));
    }
}

#[test]
fn two_digits_after_the_point() {
    let mut out = String::new();
    push_two_decimals(&mut out, 0);
    out.push(' ');
    push_two_decimals(&mut out, 5);
    out.push(' ');
    push_two_decimals(&mut out, 50);
    out.push(' ');
    push_two_decimals(&mut out, 123_456);
    assert_eq!(out, "0.00 0.05 0.50 1234.56");
}

#[test]
fn one_digit_after_the_point() {
    let mut out = String::new();
    push_one_decimal(&mut out, 0);
    out.push(' ');
    push_one_decimal(&mut out, 9);
    out.push(' ');
    push_one_decimal(&mut out, 1000);
    assert_eq!(out, "0.0 0.9 100.0");
}

#[test]
fn division_rounds_to_the_nearest() {
    assert_eq!(divide_rounded(0, 1), 0);
    assert_eq!(divide_rounded(7, 1), 7);
    assert_eq!(divide_rounded(10, 4), 2);
    assert_eq!(divide_rounded(11, 4), 3);
    assert_eq!(divide_rounded(14, 4), 4);
    assert_eq!(divide_rounded(9, 4), 2);
    assert_eq!(divide_rounded(1, 3), 0);
    assert_eq!(divide_rounded(2, 3), 1);
}

#[test]
fn a_tie_in_division_goes_to_the_even_neighbour() {
    assert_eq!(divide_rounded(1, 2), 0);
    assert_eq!(divide_rounded(3, 2), 2);
    assert_eq!(divide_rounded(5, 2), 2);
    assert_eq!(divide_rounded(7, 2), 4);
    assert_eq!(divide_rounded(u128::MAX, 2), 1 << 127);
    assert_eq!(divide_rounded(u128::MAX, u128::MAX), 1);
    assert_eq!(divide_rounded(u128::MAX - 1, u128::MAX), 1);
}
