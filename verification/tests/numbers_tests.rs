use gravador::numbers::{format_i32, format_i64, format_i64_pad2, format_u64, format_u64_padded, parse_i32, parse_u32};

#[test]
fn parse_u32_accepts_digits_and_plus() {
    assert_eq!(parse_u32("0"), Some(0));
    assert_eq!(parse_u32("42"), Some(42));
    assert_eq!(parse_u32("+7"), Some(7));
    assert_eq!(parse_u32("007"), Some(7));
    assert_eq!(parse_u32("4294967295"), Some(4294967295));
}

#[test]
fn parse_u32_rejects_what_std_rejects() {
    for s in ["", "+", "-", "-0", "-1", " 1", "1 ", "1a", "4294967296", "99999999999999999999", "1.0"] {
        assert_eq!(parse_u32(s), s.parse::<u32>().ok(), "input {:?}", s);
        assert_eq!(parse_u32(s), None, "input {:?}", s);
    }
}

#[test]
fn parse_i32_matches_std() {
    for s in [
        "", "+", "-", "0", "-0", "+0", "12", "-12", "+12", "2147483647", "2147483648", "-2147483648",
        "-2147483649", "1e3", " 5", "--5", "+-5", "00042",
    ] {
        assert_eq!(parse_i32(s), s.parse::<i32>().ok(), "input {:?}", s);
    }
}

#[test]
fn format_matches_display() {
    for x in [0i32, 1, 9, 10, 99, 100, -1, -10, i32::MAX, i32::MIN, 123456] {
        assert_eq!(format_i32(x), x.to_string());
    }
    for x in [0i64, -7, i64::MIN, i64::MAX, 1_000_000] {
        assert_eq!(format_i64(x), x.to_string());
    }
    for x in [0u64, 5, 10, u64::MAX] {
        assert_eq!(format_u64(x), x.to_string());
    }
}

#[test]
fn written_i32_reads_back() {
    for x in [0i32, 1, -1, 2, 2024, -2024, i32::MAX, i32::MIN, 65535] {
        assert_eq!(parse_i32(&format_i32(x)), Some(x));
    }
}

#[test]
fn zero_padding_matches_format() {
    assert_eq!(format_u64_padded(5, 2), format!("{:02}", 5));
    assert_eq!(format_u64_padded(12, 2), "12");
    assert_eq!(format_u64_padded(123, 2), "123");
    assert_eq!(format_u64_padded(7, 4), "0007");
    for x in [0i64, 5, 59, 60, -5, -59, -123, 100] {
        assert_eq!(format_i64_pad2(x), format!("{:02}", x));
    }
}
