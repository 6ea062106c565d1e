use mdns_rr::text::{i32_to_decimal, i64_to_decimal, parse_i32, u128_to_decimal, with_newline};

#[test]
fn decimal_rendering_matches_to_string() {
    assert_eq!(u128_to_decimal(0), "0");
    assert_eq!(u128_to_decimal(7), "7");
    assert_eq!(u128_to_decimal(12345), "12345");
    assert_eq!(u128_to_decimal(u128::MAX), u128::MAX.to_string());
    assert_eq!(i64_to_decimal(-42), "-42");
    assert_eq!(i64_to_decimal(i64::MIN), i64::MIN.to_string());
    assert_eq!(i32_to_decimal(i32::MAX), "2147483647");
    assert_eq!(i32_to_decimal(-1), "-1");
}

#[test]
fn parse_i32_matches_std() {
    let cases = [
        "0", "42", "-7", "+3", "", "-", "+", "abc", "12a", " 1", "2147483647", "2147483648",
        "-2147483648", "-2147483649", "0007", "99999999999999999999",
    ];
    for case in cases {
        assert_eq!(parse_i32(case), case.parse::<i32>().ok(), "input {:?}", case);
    }
}

#[test]
fn parse_reads_back_rendering() {
    for n in [0, 1, -1, 9, 10, -10, 123456, i32::MAX, i32::MIN] {
        assert_eq!(parse_i32(&i32_to_decimal(n)), Some(n));
    }
}

#[test]
fn line_gets_a_line_break() {
    assert_eq!(with_newline("Line 1"), "Line 1\n");
    assert_eq!(with_newline(""), "\n");
}
