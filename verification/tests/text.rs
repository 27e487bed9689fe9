use sdroxide_ui::text::{
    chars_of, cut, eq_ignore_ascii_case, fmt_i64, fmt_padded, fmt_u64, is_blank, keeps_prefix,
    parse_int, same, split, str_before, trim, upper,
};

#[test]
fn white_space_is_trimmed_off_both_ends() {
    assert_eq!(trim(" \t OE3 ABC \r\n"), "OE3 ABC");
    assert_eq!(trim("\u{a0}x\u{2003}"), "x");
    assert_eq!(trim("plain"), "plain");
    for s in ["", " ", "\u{3000}\u{2028}", "\u{200b}x\u{200b}", "\u{1680}a b\u{85}", "\u{202f}ü\u{205f}"] {
        assert_eq!(trim(s), s.trim());
        assert_eq!(is_blank(s), s.trim().is_empty());
    }
    let all: String = (0..0x1_0000).filter_map(char::from_u32).filter(|c| c.is_whitespace()).collect();
    assert!(is_blank(&all));
    assert_eq!((cut("OE3ABC", 3), cut("OE3", 9)), ("OE3".to_string(), "OE3".to_string()));
    assert!(is_blank(" \n"));
    assert!(is_blank(""));
    assert!(!is_blank(" a "));
}

#[test]
fn a_call_is_put_in_capitals() {
    assert_eq!(upper("oe3abc/p"), "OE3ABC/P");
    assert_eq!(upper("straße"), "STRASSE");
    assert_eq!(upper("ärger"), "ÄRGER");
}

#[test]
fn a_string_has_its_characters() {
    let s = "añ → b";
    assert_eq!(chars_of(s), s.chars().collect::<Vec<char>>());
    assert_eq!(chars_of(s).iter().collect::<String>(), s);
}

#[test]
fn texts_compare() {
    assert!(same("K1A", "K1A"));
    assert!(!same("K1A", "K1a"));
    assert!(eq_ignore_ascii_case("k1a", "K1A"));
    assert!(!eq_ignore_ascii_case("k1a", "K1AB"));
    assert!(!eq_ignore_ascii_case("ä", "Ä"));
    for (a, b) in [("", "a"), ("a", "b"), ("a", "ab"), ("Z", "a"), ("b", "a"), ("a", "a")] {
        assert_eq!(str_before(a, b), a < b, "{a} {b}");
    }
}

#[test]
fn numbers_are_written() {
    for n in [0, 7, 10, 42, 100, 99_999, u64::MAX] {
        assert_eq!(fmt_u64(n), n.to_string());
    }
    for n in [0, -1, 10, i64::MAX, i64::MIN] {
        assert_eq!(fmt_i64(n), n.to_string());
    }
    assert_eq!(fmt_padded(7, 2), "07");
    assert_eq!(fmt_padded(1234, 2), "1234");
    assert_eq!(fmt_padded(-5, 4), format!("{:04}", -5));
    assert_eq!(fmt_padded(-12345, 4), format!("{:04}", -12345));
}

#[test]
fn numbers_are_read() {
    assert_eq!(parse_int("59", -100, 100), Some(59));
    assert_eq!(parse_int("+05", -100, 100), Some(5));
    assert_eq!(parse_int("-12", -100, 100), Some(-12));
    assert_eq!(parse_int("-0", 0, 100), "-0".parse::<u8>().ok().map(|n| n as i64));
    assert_eq!(parse_int("-12", 0, 100), None);
    assert_eq!(parse_int("101", -100, 100), None);
    assert_eq!(parse_int("", -100, 100), None);
    assert_eq!(parse_int("-", -100, 100), None);
    assert_eq!(parse_int("5x", -100, 100), None);
    assert_eq!(parse_int(" 5", -100, 100), None);
    assert_eq!(parse_int("99999999999999999999", i64::MIN, i64::MAX), None);
    for n in [-32768i64, -1, 0, 1, 9, 10, 32767] {
        assert_eq!(parse_int(&fmt_i64(n), i16::MIN as i64, i16::MAX as i64), Some(n));
        assert_eq!(
            parse_int(&fmt_i64(n), i16::MIN as i64, i16::MAX as i64),
            n.to_string().parse::<i16>().ok().map(|v| v as i64)
        );
    }
}

#[test]
fn texts_are_split() {
    for s in ["2024-07-29", "", "-", "a--b", "no"] {
        let want: Vec<String> = s.split('-').map(|p| p.to_string()).collect();
        assert_eq!(split(s, '-'), want, "{s:?}");
    }
}

#[test]
fn a_sent_prefix_is_recognised() {
    assert!(keeps_prefix("CQ CQ de K", "CQ CQ x", 5));
    assert!(!keeps_prefix("CQ", "CX", 2));
    assert!(keeps_prefix("CQ", "CX", 1));
    assert!(keeps_prefix("", "anything", 0));
}
