use webshell::text::{format_i64, format_u64, join, parse_i64, parse_u16, text_is, trim};

#[test]
fn format_i64_writes_decimal() {
    assert_eq!(format_i64(0), "0");
    assert_eq!(format_i64(1234567), "1234567");
    assert_eq!(format_i64(-42), "-42");
    assert_eq!(format_i64(i64::MIN), "-9223372036854775808");
    assert_eq!(format_i64(i64::MAX), "9223372036854775807");
}

#[test]
fn format_u64_writes_decimal() {
    assert_eq!(format_u64(0), "0");
    assert_eq!(format_u64(10), "10");
    assert_eq!(format_u64(u64::MAX), "18446744073709551615");
}

#[test]
fn parse_i64_accepts_what_std_accepts() {
    for s in ["0", "+5", "-0", "-17", "1700000000000", "9223372036854775807", "-9223372036854775808", "007"] {
        assert_eq!(parse_i64(s), s.parse::<i64>().ok(), "{}", s);
    }
    assert_eq!(parse_i64("+5"), Some(5));
    assert_eq!(parse_i64("-9223372036854775808"), Some(i64::MIN));
}

#[test]
fn parse_i64_refuses_what_std_refuses() {
    for s in ["", "+", "-", " 1", "1 ", "1a", "9223372036854775808", "-9223372036854775809", "--1", "+-1", "1.0", "٣"] {
        assert_eq!(parse_i64(s), None, "{}", s);
        assert!(s.parse::<i64>().is_err(), "{}", s);
    }
}

#[test]
fn parse_u16_bounds_and_signs() {
    assert_eq!(parse_u16("65535"), Some(65535));
    assert_eq!(parse_u16("+80"), Some(80));
    assert_eq!(parse_u16("65536"), None);
    assert_eq!(parse_u16("-1"), None);
    assert_eq!(parse_u16("-0"), None);
    assert_eq!(parse_u16(""), None);
    assert_eq!(parse_u16("+"), None);
    for s in ["65535", "+80", "65536", "-1", "-0", "", "+", "0"] {
        assert_eq!(parse_u16(s), s.parse::<u16>().ok(), "{}", s);
    }
}

#[test]
fn format_then_parse_gives_back_the_number() {
    for n in [0i64, 1, -1, 99, -100, 1_700_000_000_123, i64::MIN, i64::MAX] {
        assert_eq!(parse_i64(&format_i64(n)), Some(n));
    }
    for n in [0u16, 9, 10, 65535] {
        assert_eq!(parse_u16(&format_u64(n as u64)), Some(n));
    }
}

#[test]
fn trim_removes_unicode_whitespace_at_both_ends() {
    assert_eq!(trim("  24 \t\n"), "24");
    assert_eq!(trim("\u{3000}a b\u{00a0}"), "a b");
    assert_eq!(trim("   "), "");
    assert_eq!(trim(""), "");
    assert_eq!(trim("x"), "x");
    for s in ["  24 \t\n", "\u{3000}a b\u{00a0}", " \u{2028}", "a\u{200b}"] {
        assert_eq!(trim(s), s.trim());
    }
}

#[test]
fn join_puts_separator_between_parts() {
    assert_eq!(join(&vec![], " "), "");
    assert_eq!(join(&vec!["ls".to_string()], " "), "ls");
    assert_eq!(join(&vec!["ls".to_string(), "-la".to_string(), "".to_string()], " "), "ls -la ");
}

#[test]
fn text_is_compares_whole_texts() {
    assert!(text_is("ping", "ping"));
    assert!(!text_is("pin", "ping"));
    assert!(!text_is("pings", "ping"));
    assert!(text_is("", ""));
}

#[test]
fn whitespace_agrees_with_std_on_every_char() {
    for code in 0u32..=0x10ffff {
        if let Some(c) = char::from_u32(code) {
            assert_eq!(webshell::text::char_is_whitespace(c), c.is_whitespace(), "U+{:04X}", code);
        }
    }
}
