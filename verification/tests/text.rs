use multi_session::text::{
    char_is_digit, char_is_whitespace, contains, join, parse_count, split_lines, text_less,
    to_chars, trim,
};

fn strings(items: &[&str]) -> Vec<String> {
    items.iter().map(|s| s.to_string()).collect()
}

#[test]
fn to_chars_keeps_every_character() {
    assert_eq!(to_chars("aé\u{1F600}z"), vec!['a', 'é', '\u{1F600}', 'z']);
    assert_eq!(to_chars(""), Vec::<char>::new());
}

#[test]
fn contains_finds_substrings_like_std() {
    let cases = [
        ("hello world", "lo w", true),
        ("hello world", "", true),
        ("", "", true),
        ("", "a", false),
        ("abc", "abcd", false),
        ("aaab", "aab", true),
        ("Ready", "ready", false),
        ("naïve café", "ïve c", true),
        ("abc", "c", true),
        ("abc", "a", true),
    ];
    for (hay, needle, expected) in cases {
        assert_eq!(contains(hay, needle), expected, "{hay:?} {needle:?}");
        assert_eq!(contains(hay, needle), hay.contains(needle));
    }
}

#[test]
fn split_lines_agrees_with_std_lines() {
    let cases = [
        "",
        "a",
        "a\n",
        "a\nb",
        "a\r\nb\r\n",
        "\n",
        "\n\n",
        "a\n\nb",
        "a\r",
        "a\r\n\r",
        "\r\n",
        "a\rb\nc",
        "x\r\r\ny",
        "last line without end",
    ];
    for text in cases {
        let expected: Vec<String> = text.lines().map(|l| l.to_string()).collect();
        assert_eq!(split_lines(text), expected, "{text:?}");
    }
}

#[test]
fn split_lines_exact_values() {
    assert_eq!(split_lines("one\r\ntwo\nthree"), strings(&["one", "two", "three"]));
    assert_eq!(split_lines("a\n\n"), strings(&["a", ""]));
    assert_eq!(split_lines("a\r"), strings(&["a\r"]));
}

#[test]
fn join_puts_line_feeds_between_lines() {
    assert_eq!(join(&strings(&[])), "");
    assert_eq!(join(&strings(&["a"])), "a");
    assert_eq!(join(&strings(&["a", "b", "c"])), "a\nb\nc");
    assert_eq!(join(&strings(&["", ""])), "\n");
}

#[test]
fn trim_agrees_with_std_trim() {
    let cases = [
        "",
        " ",
        "main\n",
        "  feature/x \t\r\n",
        "\u{a0}x\u{3000}",
        "\u{2003}a b\u{2028}",
        "no-space",
        " \u{85} ",
        "a\u{200b}",
        "\u{feff}a",
    ];
    for text in cases {
        assert_eq!(trim(text), text.trim(), "{text:?}");
    }
    assert_eq!(trim("  main\n"), "main");
}

#[test]
fn whitespace_agrees_with_std_on_every_char() {
    for code in 0u32..0x11000 {
        if let Some(c) = char::from_u32(code) {
            assert_eq!(char_is_whitespace(c), c.is_whitespace(), "{code:#x}");
        }
    }
}

#[test]
fn digits_are_the_ten_ascii_digits() {
    for c in '0'..='9' {
        assert!(char_is_digit(c));
    }
    for c in ['/', ':', 'a', ' ', '\u{0663}', '\u{ff11}'] {
        assert!(!char_is_digit(c));
    }
}

#[test]
fn parse_count_reads_decimal_numbers() {
    let chars = to_chars("x12345y");
    assert_eq!(parse_count(&chars, 1, 6), 12345);
    assert_eq!(parse_count(&chars, 1, 2), 1);
    assert_eq!(parse_count(&chars, 3, 3), 0);
    let zeros = to_chars("000042");
    assert_eq!(parse_count(&zeros, 0, 6), 42);
}

#[test]
fn parse_count_gives_zero_on_overflow() {
    let max = usize::MAX.to_string();
    let chars = to_chars(&max);
    assert_eq!(parse_count(&chars, 0, chars.len()), usize::MAX);
    let over = format!("{}0", usize::MAX);
    let chars = to_chars(&over);
    assert_eq!(parse_count(&chars, 0, chars.len()), 0);
    let huge = to_chars("99999999999999999999999999999999999999");
    assert_eq!(parse_count(&huge, 0, huge.len()), 0);
}

#[test]
fn text_less_agrees_with_string_order() {
    let words = [
        "",
        "a",
        "ab",
        "b",
        "B",
        "2024-01-02T03:04:05+00:00",
        "2024-01-02T03:04:05.5+00:00",
        "2023-12-31T23:59:59+00:00",
        "é",
        "z",
        "\u{10000}",
        "\u{ffff}",
    ];
    for a in words {
        for b in words {
            assert_eq!(text_less(a, b), a < b, "{a:?} {b:?}");
        }
    }
}
