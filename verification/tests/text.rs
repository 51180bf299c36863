use crawler_core::numbers::parse_integer;
use crawler_core::text::{
    contains, find_char, from_chars, is_space, same_chars, slice_of, starts_with, to_chars,
    to_lower, trim,
};

fn chars(s: &str) -> Vec<char> {
    s.chars().collect()
}

const SAMPLES: [&str; 12] = [
    "",
    " ",
    "a",
    "  a b  ",
    "\t\r\n x \u{a0}\u{3000}",
    "\u{2003}em\u{2003}",
    "no-space",
    "ünï çødé ",
    "\u{feff}bom",
    "\u{85}next line\u{85}",
    "x\u{200b}",
    "Disallow: /a b \r",
];

#[test]
fn whitespace_is_what_the_standard_library_calls_whitespace() {
    for n in 0..=0x10FFFFu32 {
        if let Some(c) = char::from_u32(n) {
            assert_eq!(is_space(c), c.is_whitespace(), "U+{:04X}", n);
        }
    }
}

#[test]
fn trim_agrees_with_the_standard_library() {
    for s in SAMPLES {
        assert_eq!(from_chars(&trim(&chars(s))), s.trim(), "{:?}", s);
    }
}

#[test]
fn characters_round_trip() {
    for s in SAMPLES {
        assert_eq!(to_chars(s), chars(s));
        assert_eq!(from_chars(&chars(s)), s);
    }
}

#[test]
fn lowercase_is_unicode_lowercase() {
    assert_eq!(to_lower("GoodBot"), chars("goodbot"));
    assert_eq!(to_lower("ÄÖÜ"), chars("äöü"));
    assert_eq!(to_lower("*"), chars("*"));
}

#[test]
fn searching() {
    let hay = chars("text/html; charset=utf-8");
    assert!(contains(&hay, &chars("text/html")));
    assert!(contains(&hay, &chars("utf-8")));
    assert!(contains(&hay, &chars("")));
    assert!(!contains(&hay, &chars("text/plain")));
    assert!(!contains(&chars("ab"), &chars("abc")));
    assert!(contains(&chars(""), &chars("")));
    assert!(starts_with(&hay, &chars("text/")));
    assert!(starts_with(&hay, &chars("")));
    assert!(!starts_with(&hay, &chars("html")));
    assert!(!starts_with(&chars("a"), &chars("ab")));
    assert_eq!(find_char(&hay, ';'), 9);
    assert_eq!(find_char(&hay, '#'), hay.len());
    assert_eq!(find_char(&chars(""), 'x'), 0);
    assert!(same_chars(&chars("abc"), &chars("abc")));
    assert!(!same_chars(&chars("abc"), &chars("abd")));
    assert!(!same_chars(&chars("abc"), &chars("ab")));
    assert_eq!(slice_of(&hay, 5, 9), chars("html"));
    assert_eq!(slice_of(&hay, 3, 3), chars(""));
}

#[test]
fn integers_agree_with_the_standard_library() {
    for s in [
        "0", "-0", "+0", "1", "-1", "007", "+", "-", "", "1 ", "١٢٣", "9223372036854775807",
        "9223372036854775808", "-9223372036854775808", "-9223372036854775809", "12_000", "0x10",
        "99999999999999999999999999", "+-1",
    ] {
        assert_eq!(parse_integer(&chars(s)), s.parse::<i64>().ok(), "{:?}", s);
    }
}
