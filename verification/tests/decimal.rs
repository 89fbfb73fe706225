use sqlite_xlsx::decimal::{i64_to_decimal, u64_to_decimal};

#[test]
fn zero_is_a_single_digit() {
    assert_eq!(u64_to_decimal(0), "0");
}

#[test]
fn single_digits() {
    for d in 0..10u64 {
        assert_eq!(u64_to_decimal(d), d.to_string());
    }
}

#[test]
fn several_digits_without_leading_zero() {
    assert_eq!(u64_to_decimal(10), "10");
    assert_eq!(u64_to_decimal(1234567890), "1234567890");
    assert_eq!(u64_to_decimal(1000), "1000");
}

#[test]
fn largest_unsigned_number() {
    assert_eq!(u64_to_decimal(u64::MAX), "18446744073709551615");
}

#[test]
fn unsigned_text_agrees_with_std() {
    let mut n: u64 = 1;
    for _ in 0..60 {
        assert_eq!(u64_to_decimal(n), n.to_string());
        assert_eq!(u64_to_decimal(n - 1), (n - 1).to_string());
        n = n.wrapping_mul(3).wrapping_add(7);
    }
}

#[test]
fn negative_numbers_carry_a_minus_sign() {
    assert_eq!(i64_to_decimal(-1), "-1");
    assert_eq!(i64_to_decimal(-120), "-120");
}

#[test]
fn non_negative_signed_numbers_have_no_sign() {
    assert_eq!(i64_to_decimal(0), "0");
    assert_eq!(i64_to_decimal(42), "42");
    assert_eq!(i64_to_decimal(i64::MAX), "9223372036854775807");
}

#[test]
fn smallest_signed_number() {
    assert_eq!(i64_to_decimal(i64::MIN), "-9223372036854775808");
}

#[test]
fn different_numbers_have_different_texts() {
    let texts: Vec<String> = (0..200u64).map(u64_to_decimal).collect();
    for i in 0..texts.len() {
        for j in 0..i {
            assert_ne!(texts[i], texts[j]);
        }
    }
}
