use fzh::edit::byte_len;
use fzh::text::{
    chars_of, decimal_string, parse_number, same_text, split_once, trim, white_space,
};

#[test]
fn trim_agrees_with_the_standard_library() {
    for text in ["", " ", "a", " a ", "\t\na b\r\n", "\u{a0}x\u{3000}", "a\u{200b} ", "  \u{85}  "] {
        assert_eq!(trim(text), text.trim());
    }
}

#[test]
fn white_space_agrees_with_the_standard_library() {
    for code in 0..=0x10ffffu32 {
        if let Some(c) = char::from_u32(code) {
            assert_eq!(white_space(c), c.is_whitespace());
        }
    }
}

#[test]
fn split_once_at_the_first_separator() {
    assert_eq!(split_once("a:b:c", ':'), ("a", Some("b:c")));
    assert_eq!(split_once(":", ':'), ("", Some("")));
    assert_eq!(split_once("abc", ':'), ("abc", None));
    assert_eq!(split_once("\u{e9}:\u{e8}", ':'), ("\u{e9}", Some("\u{e8}")));
}

#[test]
fn numbers_are_read_as_the_standard_library_reads_them() {
    for text in [
        "", "+", "-", "0", "+7", "-7", "007", "42", "4 2", " 42", "42 ", "1_0", "0x1",
        "18446744073709551615", "18446744073709551616", "+18446744073709551615",
        "99999999999999999999999", "\u{0663}", "++1",
    ] {
        assert_eq!(parse_number(text), text.parse::<u64>().ok(), "{}", text);
    }
}

#[test]
fn numbers_are_written_as_the_standard_library_writes_them() {
    for value in [0, 1, 9, 10, 11, 99, 100, 1234567890, u64::MAX - 1, u64::MAX] {
        assert_eq!(decimal_string(value), value.to_string());
    }
}

#[test]
fn written_number_is_read_back() {
    for value in [0, 7, 10, 255, 1 << 40, u64::MAX] {
        assert_eq!(parse_number(&decimal_string(value)), Some(value));
    }
}

#[test]
fn small_texts() {
    assert_eq!(chars_of("a\u{e9}"), vec!['a', '\u{e9}']);
    assert_eq!(byte_len("a\u{e9}"), 3);
    assert!(same_text("add", "add"));
    assert!(!same_text("add", "Add"));
}
