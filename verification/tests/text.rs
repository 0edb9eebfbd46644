use wyattwtf::text::{
    chars_of, collapse_whitespace, decimal_string, decimal_string_i64, equals_ignore_ascii_case,
    parse_i64_chars, parse_unsigned_chars, split_after_last, split_before_char, trim_string,
};

#[test]
fn parses_unsigned_like_std() {
    for s in ["0", "+7", "65535", "65536", "", "+", "-1", "1 ", "007", "٣"] {
        let ours = parse_unsigned_chars(&chars_of(s), 65535);
        assert_eq!(ours, s.parse::<u16>().ok().map(u64::from), "{s:?}");
    }
}

#[test]
fn parses_i64_like_std() {
    for s in ["0", "-0", "+12", "-9223372036854775808", "9223372036854775807", "9223372036854775808", "-", "--1", "1777762923"] {
        assert_eq!(parse_i64_chars(&chars_of(s)), s.parse::<i64>().ok(), "{s:?}");
    }
}

#[test]
fn writes_decimals_like_std() {
    for n in [0i64, 9, 10, 1997, -5, i64::MIN, i64::MAX] {
        assert_eq!(decimal_string_i64(n), n.to_string());
    }
    assert_eq!(decimal_string(u64::MAX), u64::MAX.to_string());
}

#[test]
fn trims_and_collapses_like_std() {
    for s in ["", "  a ", "\u{3000}x\u{2028}y\t", "a  b\n\nc", " \u{85} "] {
        assert_eq!(trim_string(s), s.trim(), "{s:?}");
        assert_eq!(collapse_whitespace(s), s.split_whitespace().collect::<Vec<_>>().join(" "), "{s:?}");
    }
}

#[test]
fn splits_like_std() {
    for s in ["a,b,c", ",x", "none", "Heat, 1995 - ★★ - ½", "a - - b"] {
        assert_eq!(split_before_char(s, ','), s.split(',').next().unwrap());
        assert_eq!(split_after_last(s, " - "), s.rsplit(" - ").next().unwrap());
    }
    assert!(equals_ignore_ascii_case(&chars_of("YeS"), &chars_of("yes")));
    assert!(!equals_ignore_ascii_case(&chars_of("yes!"), &chars_of("yes")));
}
