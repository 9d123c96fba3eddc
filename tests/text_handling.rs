use wei_hardware::text::{
    contains_text, decimal_string, lines_text, parse_unsigned, split_text, starts_with_text, trim_text,
};

#[test]
fn decimal_strings() {
    assert_eq!(decimal_string(0), "0");
    assert_eq!(decimal_string(7), "7");
    assert_eq!(decimal_string(1234567890), "1234567890");
    assert_eq!(decimal_string(u64::MAX), "18446744073709551615");
}

#[test]
fn unsigned_parsing() {
    assert_eq!(parse_unsigned("42", u32::MAX as u64), Some(42));
    assert_eq!(parse_unsigned("+42", u32::MAX as u64), Some(42));
    assert_eq!(parse_unsigned("4294967295", u32::MAX as u64), Some(4294967295));
    assert_eq!(parse_unsigned("4294967296", u32::MAX as u64), None);
    assert_eq!(parse_unsigned("18446744073709551615", u64::MAX), Some(u64::MAX));
    assert_eq!(parse_unsigned("18446744073709551616", u64::MAX), None);
    assert_eq!(parse_unsigned("", u64::MAX), None);
    assert_eq!(parse_unsigned("+", u64::MAX), None);
    assert_eq!(parse_unsigned("-1", u64::MAX), None);
    assert_eq!(parse_unsigned("1 ", u64::MAX), None);
}

#[test]
fn lines_follow_str_lines() {
    for s in ["a\r\nb\n", "a\n\nb", "x\r", "", "\n", "one"] {
        let expected: Vec<String> = s.lines().map(|l| l.to_string()).collect();
        assert_eq!(lines_text(s), expected, "input {:?}", s);
    }
}

#[test]
fn split_follows_str_split() {
    for s in [",a,", "", "a", "a,,b"] {
        let expected: Vec<String> = s.split(',').map(|l| l.to_string()).collect();
        assert_eq!(split_text(s, ','), expected, "input {:?}", s);
    }
}

#[test]
fn trim_follows_str_trim() {
    for s in ["  x  ", "\u{3000}x\u{a0}", "", " \t\r\n", "a b"] {
        assert_eq!(trim_text(s), s.trim(), "input {:?}", s);
    }
}

#[test]
fn searching_text() {
    assert!(contains_text("NVIDIA Corporation", "NVIDIA"));
    assert!(contains_text("abc", ""));
    assert!(!contains_text("nvidia", "NVIDIA"));
    assert!(!contains_text("ab", "abc"));
    assert!(starts_with_text("CPU(s): 4", "CPU(s):"));
    assert!(!starts_with_text("CPU", "CPU(s):"));
}
