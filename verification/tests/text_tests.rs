use runas::text;
use runas::text::IntError;

#[test]
fn split_once_takes_first() {
    assert_eq!(text::split_once("A=b=c", '='), Some(("A", "b=c")));
    assert_eq!(text::split_once("=x", '='), Some(("", "x")));
    assert_eq!(text::split_once("plain", '='), None);
}

#[test]
fn split_like_std() {
    for s in ["", ":", "a:b", "/bin::/usr/bin:", "ä:ö"] {
        let expected: Vec<&str> = s.split(':').collect();
        assert_eq!(text::split(s, ':'), expected);
    }
}

#[test]
fn split_word_at_white_space() {
    assert_eq!(text::split_word("bob  A=1"), ("bob", Some(" A=1")));
    assert_eq!(text::split_word("bob\tA=1"), ("bob", Some("A=1")));
    assert_eq!(text::split_word("bob"), ("bob", None));
}

#[test]
fn trim_like_std() {
    for s in ["", "  ", " a b ", "\t\u{a0}x\u{2003}\n", "\u{200b}y", "\u{85}z\u{3000}"] {
        assert_eq!(text::trim(s), s.trim());
        assert_eq!(text::trim_start(s), s.trim_start());
        assert_eq!(text::trim_end(s), s.trim_end());
    }
}

#[test]
fn white_space_like_std() {
    for n in 0..0x3100u32 {
        if let Some(c) = char::from_u32(n) {
            assert_eq!(text::is_whitespace(c), c.is_whitespace(), "{n:x}");
        }
    }
}

#[test]
fn replace_like_std() {
    for (s, from, to) in [
        ("${USER}-${USER}", "${USER}", "bob"),
        ("aaa", "aa", "b"),
        ("abc", "x", "y"),
        ("", "x", "y"),
        ("x", "x", ""),
    ] {
        assert_eq!(text::replace(s, from, to), s.replace(from, to));
    }
}

#[test]
fn contains_and_prefix() {
    assert!(text::contains("enter password:", "password"));
    assert!(!text::contains("passwor", "password"));
    assert_eq!(text::strip_prefix("#100", "#"), Some("100"));
    assert_eq!(text::strip_prefix("100", "#"), None);
    assert!(text::starts_with("LC_ALL", "LC_"));
    assert!(text::has_char("a/b", '/'));
    assert!(text::same("é", "é"));
    assert!(!text::same("e", "é"));
}

#[test]
fn parse_numbers() {
    assert_eq!(text::parse_u32("0"), Ok(0));
    assert_eq!(text::parse_u32("+17"), Ok(17));
    assert_eq!(text::parse_u32("4294967295"), Ok(u32::MAX));
    assert_eq!(text::parse_u32("4294967296"), Err(IntError::PosOverflow));
    assert_eq!(text::parse_u32(""), Err(IntError::Empty));
    assert_eq!(text::parse_u32("+"), Err(IntError::InvalidDigit));
    assert_eq!(text::parse_u32("1x"), Err(IntError::InvalidDigit));
}

#[test]
fn parse_messages_like_std() {
    for s in ["", "+", "-", "-1", "x", "4294967296", "99999999999x"] {
        let expected = s.parse::<u32>().unwrap_err().to_string();
        assert_eq!(text::parse_u32(s).unwrap_err().message(), expected, "{s}");
    }
}

#[test]
fn decimal_round_trip() {
    for n in [0u32, 7, 10, 4096, 1_000_000_007, u32::MAX] {
        assert_eq!(text::u32_text(n), n.to_string());
        assert_eq!(text::parse_u32(&text::u32_text(n)), Ok(n));
    }
    assert_eq!(text::i32_text(i32::MIN), i32::MIN.to_string());
    assert_eq!(text::i32_text(-12), "-12");
    assert_eq!(text::usize_text(usize::MAX), usize::MAX.to_string());
}

#[test]
fn numeric_like_std() {
    assert!(text::all_numeric("1000"));
    assert!(text::all_numeric("\u{665}\u{b2}"));
    assert!(!text::all_numeric("10a"));
    assert!(text::all_numeric(""));
}

#[test]
fn first_zero_byte() {
    assert_eq!(text::first_nul(b"ab\0c\0"), Some(2));
    assert_eq!(text::first_nul(b"abc"), None);
}
