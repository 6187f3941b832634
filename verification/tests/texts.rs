//! Texts, numbers and errors.
use qomicex_connector::error::ScaffoldingError;
use qomicex_connector::text::{
    begins_with, contains_text, decimal_text, is_blank, join_texts, lower_text, same_text,
    signed_text, split_text, text_precedes, trimmed, upper_text, utf8_bytes,
};

#[test]
fn numbers_are_written_in_decimal() {
    for n in [0u64, 1, 9, 10, 99, 100, 65535, 4294967296, u64::MAX] {
        assert_eq!(decimal_text(n), n.to_string());
    }
    for n in [0i64, -1, 7, -10, i64::MIN, i64::MAX] {
        assert_eq!(signed_text(n), n.to_string());
    }
}

#[test]
fn texts_are_split_and_joined() {
    for text in ["", "a", "\0", "a\0b", "\0\0", "名\0字\0", "a-b"] {
        let expected: Vec<String> = text.split('\0').map(String::from).collect();
        assert_eq!(split_text(text, '\0'), expected);
        assert_eq!(join_texts(&expected, '\0'), text);
    }
    assert_eq!(join_texts(&vec![], '\0'), "");
}

#[test]
fn texts_are_searched_like_strings() {
    let texts = ["", "a", "ab", "aab", "abc", "名字", "字", "bca"];
    for a in texts {
        for b in texts {
            assert_eq!(contains_text(a, b), a.contains(b), "{a} {b}");
            assert_eq!(begins_with(a, b), a.starts_with(b), "{a} {b}");
            assert_eq!(same_text(a, b), a == b, "{a} {b}");
            assert_eq!(text_precedes(a, b), a < b, "{a} {b}");
        }
    }
}

#[test]
fn white_space_is_that_of_unicode() {
    for text in ["", " ", "a", " a ", "\t\u{85}a b\u{2028}\u{3000}", "\u{200b}", "\u{a0}\u{feff}"] {
        assert_eq!(trimmed(text), text.trim());
        assert_eq!(is_blank(text), text.trim().is_empty());
    }
    let mut white = Vec::new();
    for c in '\0'..=char::MAX {
        if is_blank(&c.to_string()) {
            white.push(c as u32);
        }
    }
    assert_eq!(
        white,
        [
            0x9, 0xA, 0xB, 0xC, 0xD, 0x20, 0x85, 0xA0, 0x1680, 0x2000, 0x2001, 0x2002, 0x2003,
            0x2004, 0x2005, 0x2006, 0x2007, 0x2008, 0x2009, 0x200A, 0x2028, 0x2029, 0x202F,
            0x205F, 0x3000,
        ]
    );
}

#[test]
fn only_ascii_letters_change_case() {
    let text = "AZaz09[`{@É名";
    assert_eq!(lower_text(text), text.to_ascii_lowercase());
    assert_eq!(upper_text(text), text.to_ascii_uppercase());
    assert_eq!(utf8_bytes(text), text.as_bytes());
}

#[test]
fn errors_show_their_message() {
    let message = "消息".to_string();
    for error in [
        ScaffoldingError::RoomCodeInvalid(message.clone()),
        ScaffoldingError::EasyTierStart(message.clone()),
        ScaffoldingError::EasyTierTimeout(message.clone()),
        ScaffoldingError::CenterNotFound(message.clone()),
        ScaffoldingError::CenterConnection(message.clone()),
        ScaffoldingError::Protocol(message.clone()),
        ScaffoldingError::HeartbeatTimeout(message.clone()),
    ] {
        assert_eq!(error.message(), "消息");
    }
}
