use spectrum_ares::text::{
    append_decimal, contains_ascii_token, contains_text, decimal_text, equal_text, equal_text_ci,
    is_blank_text, is_white_space, join_texts, parse_unsigned, starts_with_text,
    text_comes_before, to_lower_char, trim_text,
};

const SAMPLES: [&str; 14] = [
    "",
    " ",
    "a",
    "A",
    "ab",
    "  ab\t",
    "\u{a0}\u{3000}x y\u{85}",
    "Spotify",
    "spotify",
    "\u{e9}t\u{e9}",
    "\u{c9}T\u{c9}",
    "com.spotify.Client",
    "b",
    "a\u{10ffff}",
];

#[test]
fn white_space_is_that_of_unicode() {
    for code in 0..=0x10ffff_u32 {
        if let Some(c) = char::from_u32(code) {
            assert_eq!(is_white_space(c), c.is_whitespace(), "{:x}", code);
            assert_eq!(to_lower_char(c), c.to_ascii_lowercase(), "{:x}", code);
        }
    }
}

#[test]
fn texts_compare_as_strings_do() {
    for a in SAMPLES {
        assert_eq!(trim_text(a), a.trim());
        assert_eq!(is_blank_text(a), a.trim().is_empty());
        for b in SAMPLES {
            assert_eq!(equal_text(a, b), a == b);
            assert_eq!(equal_text_ci(a, b), a.eq_ignore_ascii_case(b));
            assert_eq!(text_comes_before(a, b), a < b);
            assert_eq!(contains_text(a, b), a.contains(b));
            assert_eq!(starts_with_text(a, b), a.starts_with(b));
        }
    }
}

#[test]
fn tokens_are_split_at_other_characters() {
    assert!(contains_ascii_token("my-SPOTIFY app", "spotify"));
    assert!(contains_ascii_token("spotify", "Spotify"));
    assert!(!contains_ascii_token("my_spotify", "spotify"));
    assert!(!contains_ascii_token("spotify2", "spotify"));
    assert!(contains_ascii_token("a--b", ""));
    assert!(!contains_ascii_token("ab", ""));
    assert!(contains_ascii_token("", ""));
}

#[test]
fn numbers_are_written_and_read_back() {
    for n in [0_u64, 7, 9, 10, 99, 100, 312, 4_294_967_295, u64::MAX] {
        assert_eq!(decimal_text(n), n.to_string());
        assert_eq!(parse_unsigned(&decimal_text(n), u64::MAX), Some(n));
    }
    let mut text = "id=".to_string();
    append_decimal(&mut text, 138);
    assert_eq!(text, "id=138");
}

#[test]
fn numbers_are_parsed_as_by_std() {
    for text in [
        "", "+", "-", "+5", "-5", "++5", "007", " 7", "7 ", "7a", "a7", "\u{663}", "+0",
        "18446744073709551615", "18446744073709551616", "99999999999999999999999",
        "4294967295", "4294967296", "0000000000000000000000001",
    ] {
        assert_eq!(parse_unsigned(text, u64::MAX), text.parse::<u64>().ok(), "{}", text);
        assert_eq!(
            parse_unsigned(text, u64::from(u32::MAX)),
            text.parse::<u32>().ok().map(u64::from),
            "{}",
            text
        );
    }
}

#[test]
fn texts_are_joined() {
    let parts = vec!["a".to_string(), String::new(), "c".to_string()];
    assert_eq!(join_texts(&parts, "; "), "a; ; c");
    assert_eq!(join_texts(&vec!["a".to_string()], "; "), "a");
    assert_eq!(join_texts(&Vec::new(), "; "), "");
}
