use print_manager::text::{i64_to_decimal, parse_i64};

#[test]
fn decimal_of_numbers() {
    assert_eq!(i64_to_decimal(0), "0");
    assert_eq!(i64_to_decimal(7), "7");
    assert_eq!(i64_to_decimal(1203), "1203");
    assert_eq!(i64_to_decimal(-45), "-45");
    assert_eq!(i64_to_decimal(i64::MAX), "9223372036854775807");
    assert_eq!(i64_to_decimal(i64::MIN), "-9223372036854775808");
}

#[test]
fn decimal_matches_to_string() {
    for v in [0i64, 1, -1, 9, 10, 99, 100, -100, 123456789, i64::MIN + 1, i32::MAX as i64, i32::MIN as i64] {
        assert_eq!(i64_to_decimal(v), v.to_string());
    }
}

#[test]
fn parse_accepts_what_std_accepts() {
    for s in ["0", "42", "+42", "-42", "007", "-0", "9223372036854775807", "-9223372036854775808"] {
        assert_eq!(parse_i64(s), s.parse::<i64>().ok(), "{}", s);
        assert!(parse_i64(s).is_some());
    }
}

#[test]
fn parse_refuses_what_std_refuses() {
    for s in ["", "+", "-", " 1", "1 ", "1a", "a1", "--1", "+-1", "1_000", "9223372036854775808", "-9223372036854775809", "99999999999999999999", "١٢"] {
        assert_eq!(parse_i64(s), None, "{}", s);
        assert!(s.parse::<i64>().is_err());
    }
}

#[test]
fn parse_gives_the_values() {
    assert_eq!(parse_i64("+17"), Some(17));
    assert_eq!(parse_i64("-17"), Some(-17));
    assert_eq!(parse_i64("-9223372036854775808"), Some(i64::MIN));
}

#[test]
fn decimal_reads_back_as_the_same_number() {
    for v in [0i64, 5, -5, 1000, -98765, i64::MAX, i64::MIN] {
        assert_eq!(parse_i64(&i64_to_decimal(v)), Some(v));
    }
}
