use paf_desktop::text::{
    blank, ends_with, is_whitespace, join3, parse_decimal, same_text, starts_with, strip_prefix,
    to_ascii_lowercase, to_decimal, trim_end_matches,
};

#[test]
fn numerals_are_written() {
    assert_eq!(to_decimal(0), "0");
    assert_eq!(to_decimal(9), "9");
    assert_eq!(to_decimal(10), "10");
    assert_eq!(to_decimal(40_907), "40907");
    assert_eq!(to_decimal(u64::MAX), "18446744073709551615");
}

#[test]
fn numerals_are_read_as_by_the_standard_library() {
    for s in [
        "", "+", "-", "0", "007", "+7", "++7", "-7", "-0", "7 ", " 7", "7_0", "4294967295",
        "4294967296", "00000000000000000000005", "99999999999999999999999999", "x", "12x", "٣",
        "99999999999999999999999999x",
    ] {
        let got = parse_decimal(s, u32::MAX as u64);
        assert_eq!(got, s.parse::<u32>().ok().map(|n| n as u64), "{s:?}");
        let got = parse_decimal(s, usize::MAX as u64);
        assert_eq!(got, s.parse::<usize>().ok().map(|n| n as u64), "{s:?}");
    }
}

#[test]
fn numerals_round_trip() {
    for n in [0, 1, 10, 99, 12_345, u64::MAX] {
        assert_eq!(parse_decimal(&to_decimal(n), u64::MAX), Some(n));
    }
}

#[test]
fn white_space_is_that_of_the_standard_library() {
    for u in 0..=0x10ffffu32 {
        if let Some(c) = char::from_u32(u) {
            assert_eq!(is_whitespace(c), c.is_whitespace(), "{u:x}");
        }
    }
    assert!(blank(""));
    assert!(blank(" \t\u{a0}\u{2003}\n"));
    assert!(!blank(" x "));
}

#[test]
fn strings_are_taken_apart() {
    assert!(starts_with("tab_goto_3", "tab_goto_"));
    assert!(!starts_with("tab", "tab_goto_"));
    assert!(ends_with("app.personio.com", ".personio.com"));
    assert!(!ends_with("io.com", "personio.com"));
    assert_eq!(strip_prefix("content-12", "content-"), Some("12".to_string()));
    assert_eq!(strip_prefix("chrome", "content-"), None);
    assert_eq!(trim_end_matches("a.b...", '.'), "a.b");
    assert_eq!(trim_end_matches("...", '.'), "");
    assert_eq!(trim_end_matches("é//", '/'), "é");
    assert_eq!(to_ascii_lowercase("AbZ-Ä@[`{9"), "AbZ-Ä@[`{9".to_ascii_lowercase());
    assert_eq!(join3("a", "", "ß"), "aß");
    assert!(same_text("ab", "ab"));
    assert!(!same_text("ab", "aB"));
}
