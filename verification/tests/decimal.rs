use cio::decimal::parse_i32;

#[test]
fn numbers_are_read() {
    assert_eq!(parse_i32("0"), Some(0));
    assert_eq!(parse_i32("7"), Some(7));
    assert_eq!(parse_i32("0042"), Some(42));
    assert_eq!(parse_i32("+15"), Some(15));
    assert_eq!(parse_i32("-15"), Some(-15));
    assert_eq!(parse_i32("-0"), Some(0));
    assert_eq!(parse_i32("2147483647"), Some(i32::MAX));
    assert_eq!(parse_i32("-2147483648"), Some(i32::MIN));
    assert_eq!(parse_i32("00000000000000000000000123"), Some(123));
}

#[test]
fn other_texts_are_refused() {
    for text in [
        "", "+", "-", "--1", "+-1", "1-", " 1", "1 ", "1_000", "1,000", "0x10", "1.0", "1e3", "one",
        "2147483648", "-2147483649", "99999999999999999999999999", "-99999999999999999999999999",
        "\u{0663}", "1\u{00e9}", "\u{ff11}", "-\u{0661}",
    ] {
        assert_eq!(parse_i32(text), None);
    }
}

#[test]
fn agrees_with_the_standard_parser() {
    let mut texts: Vec<String> = Vec::new();
    for n in [-2147483648i64, -2147483647, -1000, -1, 0, 1, 9, 10, 99, 12345, 2147483646, 2147483647, 2147483648, 4294967296, -2147483649] {
        texts.push(n.to_string());
        texts.push(format!("+{}", n));
        texts.push(format!("0{}", n));
        texts.push(format!("{} ", n));
    }
    for text in ["", "+", "-", "a", "1a", "a1", "+0", "-0", "00", "٣", "١٢"] {
        texts.push(text.to_string());
    }
    for text in texts {
        assert_eq!(parse_i32(&text), text.parse::<i32>().ok());
    }
}
