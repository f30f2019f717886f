use payment_routing::text::{decimal_width, push_digit, push_fixed, push_padded};

fn fixed(n: u64, base: u64, width: usize) -> String {
    let mut text = String::new();
    push_fixed(&mut text, n, base, width);
    text
}

fn padded(n: u64, width: usize) -> String {
    let mut text = String::new();
    push_padded(&mut text, n, width);
    text
}

#[test]
fn digits_are_written_in_lower_case() {
    let mut text = String::from("x");
    for d in 0..16 {
        push_digit(&mut text, d);
    }
    assert_eq!(text, "x0123456789abcdef");
}

#[test]
fn fixed_width_keeps_the_last_digits() {
    assert_eq!(fixed(7, 10, 2), "07");
    assert_eq!(fixed(59, 10, 2), "59");
    assert_eq!(fixed(0, 10, 4), "0000");
    assert_eq!(fixed(12345, 10, 4), "2345");
    assert_eq!(fixed(5, 10, 0), "");
    assert_eq!(fixed(255, 16, 16), "00000000000000ff");
    assert_eq!(fixed(u64::MAX, 16, 16), "ffffffffffffffff");
    assert_eq!(fixed(0x0123456789abcdef, 16, 16), "0123456789abcdef");
    assert_eq!(fixed(u64::MAX, 10, 20), "18446744073709551615");
    assert_eq!(fixed(u64::MAX, 10, 22), "0018446744073709551615");
}

#[test]
fn padding_never_cuts_a_number() {
    assert_eq!(padded(0, 4), "0000");
    assert_eq!(padded(1, 4), "0001");
    assert_eq!(padded(9999, 4), "9999");
    assert_eq!(padded(10000, 4), "10000");
    assert_eq!(padded(15, 3), "015");
    assert_eq!(padded(7, 0), "7");
    assert_eq!(padded(0, 0), "0");
    assert_eq!(padded(u64::MAX, 4), "18446744073709551615");
    let mut text = String::from("txn_");
    push_padded(&mut text, 210, 4);
    assert_eq!(text, "txn_0210");
}

#[test]
fn widths_count_decimal_digits() {
    assert_eq!(decimal_width(0), 1);
    assert_eq!(decimal_width(9), 1);
    assert_eq!(decimal_width(10), 2);
    assert_eq!(decimal_width(99), 2);
    assert_eq!(decimal_width(100), 3);
    assert_eq!(decimal_width(9_999_999_999_999_999_999), 19);
    assert_eq!(decimal_width(10_000_000_000_000_000_000), 20);
    assert_eq!(decimal_width(u64::MAX), 20);
}
