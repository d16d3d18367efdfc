use tg_downloader::text::{find_char, parse_u32, str_eq, trim_str, u32_to_decimal, IntErrorKind};

fn std_kind(s: &str) -> Result<u32, IntErrorKind> {
    s.parse::<u32>().map_err(|e| match e.kind() {
        std::num::IntErrorKind::Empty => IntErrorKind::Empty,
        std::num::IntErrorKind::InvalidDigit => IntErrorKind::InvalidDigit,
        std::num::IntErrorKind::PosOverflow => IntErrorKind::PosOverflow,
        other => panic!("unexpected kind {other:?}"),
    })
}

#[test]
fn parse_u32_matches_std() {
    for s in [
        "", "+", "-", "0", "7", "+12", "-5", "12a", "a12", "4294967295", "4294967296",
        "99999999999a", "00042", "1 2", " 1", "٣", "+-1", "++1",
    ] {
        assert_eq!(parse_u32(s), std_kind(s), "input {s:?}");
    }
}

#[test]
fn parse_u32_errors() {
    assert_eq!(parse_u32(""), Err(IntErrorKind::Empty));
    assert_eq!(parse_u32("-"), Err(IntErrorKind::InvalidDigit));
    assert_eq!(parse_u32("12x"), Err(IntErrorKind::InvalidDigit));
    assert_eq!(parse_u32("4294967296"), Err(IntErrorKind::PosOverflow));
    assert_eq!(parse_u32("+4294967295"), Ok(4294967295));
}

#[test]
fn decimal_matches_to_string() {
    for n in [0u32, 7, 10, 99, 100, 12345, 4294967295] {
        assert_eq!(u32_to_decimal(n), n.to_string());
        assert_eq!(parse_u32(&u32_to_decimal(n)), Ok(n));
    }
}

#[test]
fn trim_matches_std() {
    for s in [
        "", "   ", "  ./stored/a b.mp4\n", "x", "\u{3000}\tx y\u{85}\r\n", "\u{200b}x",
    ] {
        assert_eq!(trim_str(s), s.trim(), "input {s:?}");
    }
}

#[test]
fn find_and_compare() {
    assert_eq!(find_char("audio:12", ':'), Some(5));
    assert_eq!(find_char("ab", ':'), None);
    assert_eq!(find_char("ä:", ':'), Some(1));
    assert!(str_eq("abc", "abc"));
    assert!(!str_eq("abc", "abd"));
}
