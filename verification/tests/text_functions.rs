use minutes_app::text::{
    ascii_lowercase_text, before_chars, behind_last_chars, chars_of, contains_text, copies,
    decimal_text, ends_with, field_len_of, is_one_of, is_white_space, joined, lines_of,
    parse_i64_chars, parse_u32_chars, position_in, same_ignoring_ascii_case, same_text,
    starts_with, string_of, strip_prefix_chars, trim_chars, trim_end_chars, trim_start_chars,
};

const SAMPLES: [&str; 12] = [
    "",
    " ",
    "a",
    "  two words \t",
    "\u{a0}no-break\u{a0}",
    "\u{2003}em\u{3000}",
    "line\nline",
    "\r\n",
    "zażółć gęślą jaźń",
    "/Applications/zoom.us.app/Contents/MacOS/zoom.us",
    "\u{200b}zero width\u{200b}",
    "🔒 lock 🔒",
];

#[test]
fn white_space_is_that_of_unicode() {
    for code in 0..=0x10ffffu32 {
        if let Some(c) = char::from_u32(code) {
            assert_eq!(is_white_space(c), c.is_whitespace(), "{code:#x}");
        }
    }
}

#[test]
fn characters_make_the_string_again() {
    for s in SAMPLES {
        assert_eq!(chars_of(s), s.chars().collect::<Vec<char>>());
        assert_eq!(string_of(&chars_of(s)), s);
    }
}

#[test]
fn trimming_agrees_with_std() {
    for s in SAMPLES {
        let chars = chars_of(s);
        assert_eq!(string_of(trim_chars(&chars)), s.trim());
        assert_eq!(string_of(trim_start_chars(&chars)), s.trim_start());
        assert_eq!(string_of(trim_end_chars(&chars)), s.trim_end());
    }
}

#[test]
fn lines_agree_with_std() {
    for s in [
        "",
        "\n",
        "one",
        "one\n",
        "one\ntwo",
        "one\r\ntwo\r\n",
        "a\rb\n\n\nc\r",
        "\r\n\r\n",
        "x\n\r",
    ] {
        let chars = chars_of(s);
        let lines: Vec<String> = lines_of(&chars).into_iter().map(string_of).collect();
        assert_eq!(lines, s.lines().collect::<Vec<_>>(), "{s:?}");
    }
}

#[test]
fn unsigned_numbers_are_read_as_std_reads_them() {
    for s in [
        "",
        "+",
        "-",
        "0",
        "00017",
        "+42",
        "-1",
        "-0",
        "4294967295",
        "4294967296",
        "99999999999999999999999999",
        "1 2",
        "12a",
        " 12",
        "١٢",
    ] {
        assert_eq!(parse_u32_chars(&chars_of(s)), s.parse::<u32>().ok(), "{s:?}");
    }
}

#[test]
fn signed_numbers_are_read_as_std_reads_them() {
    for s in [
        "",
        "+",
        "-",
        "--1",
        "0",
        "-0",
        "+63",
        "-63",
        "9223372036854775807",
        "9223372036854775808",
        "-9223372036854775808",
        "-9223372036854775809",
        "123456789012345678901234567890",
        "5x",
    ] {
        assert_eq!(parse_i64_chars(&chars_of(s)), s.parse::<i64>().ok(), "{s:?}");
    }
}

#[test]
fn numbers_are_written_as_std_writes_them() {
    for n in [0, 1, 9, 10, 99, 100, 12345, u64::MAX - 1, u64::MAX] {
        assert_eq!(decimal_text(n), n.to_string());
    }
}

#[test]
fn numbers_written_are_read_back() {
    for n in [0u32, 7, 10, 65535, u32::MAX] {
        let text = decimal_text(n as u64);
        assert_eq!(parse_u32_chars(&chars_of(&text)), Some(n));
    }
}

#[test]
fn ascii_case_is_ignored_and_no_other() {
    assert_eq!(ascii_lowercase_text("SLACK Ünder"), "slack Ünder");
    assert_eq!(
        ascii_lowercase_text("Straße@[`{"),
        "Straße@[`{".to_ascii_lowercase()
    );
    assert!(same_ignoring_ascii_case(
        &chars_of("Google Chrome"),
        &chars_of("google chrome")
    ));
    assert!(!same_ignoring_ascii_case(&chars_of("Ü"), &chars_of("ü")));
}

#[test]
fn parts_of_a_text_are_found() {
    let chars = chars_of("a/b/c.app");
    assert_eq!(position_in(&chars, '/'), 1);
    assert_eq!(position_in(&chars, '?'), 9);
    assert_eq!(string_of(before_chars(&chars, '/')), "a");
    assert_eq!(string_of(before_chars(&chars, '?')), "a/b/c.app");
    assert_eq!(string_of(behind_last_chars(&chars, '/')), "c.app");
    assert_eq!(string_of(behind_last_chars(&chars, '?')), "a/b/c.app");
    assert!(starts_with(&chars, "a/b"));
    assert!(!starts_with(&chars, "b"));
    assert!(ends_with(&chars, ".app"));
    assert!(!ends_with(&chars, "xa/b/c.app"));
    assert!(contains_text(&chars, "b/c"));
    assert!(contains_text(&chars, ""));
    assert!(contains_text(&chars, ".app"));
    assert!(!contains_text(&chars, "b//c"));
    assert_eq!(
        strip_prefix_chars(&chars, "a/").map(string_of),
        Some("b/c.app".to_string())
    );
    assert_eq!(strip_prefix_chars(&chars, "b"), None);
    assert_eq!(field_len_of(&chars_of("12 34")), 2);
    assert_eq!(field_len_of(&chars_of("1234")), 4);
}

#[test]
fn texts_are_compared_and_joined() {
    assert!(same_text("fn", "fn"));
    assert!(!same_text("fn", "fnn"));
    assert_eq!(joined("a", "ü"), "aü");
    assert!(is_one_of("b", &["a", "b"]));
    assert!(!is_one_of("c", &["a", "b"]));
    let list = vec!["x".to_string(), "y".to_string()];
    assert_eq!(copies(&list), list);
}
