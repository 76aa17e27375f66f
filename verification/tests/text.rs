use gettime::text::digit_str;
use gettime::text::u64_string;

#[test]
fn numbers_render_in_decimal() {
    assert_eq!(u64_string(0), "0");
    assert_eq!(u64_string(7), "7");
    assert_eq!(u64_string(42), "42");
    assert_eq!(u64_string(100), "100");
    assert_eq!(u64_string(98_765_432_100), "98765432100");
    assert_eq!(u64_string(u64::MAX), "18446744073709551615");
}

#[test]
fn digits_render_one_character() {
    assert_eq!(digit_str(0), "0");
    assert_eq!(digit_str(5), "5");
    assert_eq!(digit_str(9), "9");
}
