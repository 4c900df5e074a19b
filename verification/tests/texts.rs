use e2e_harness::text::{
    chars_of, decimal_text, join, same_text, signed_decimal_text, text_precedes, trim,
};

#[test]
fn trim_removes_surrounding_whitespace() {
    assert_eq!(trim("  hello world \t\n"), "hello world");
    assert_eq!(trim("hello"), "hello");
    assert_eq!(trim("\u{a0}x\u{2003}"), "x");
}

#[test]
fn trim_keeps_inner_whitespace() {
    assert_eq!(trim(" a  b "), "a  b");
}

#[test]
fn trim_of_blank_text_is_empty() {
    assert_eq!(trim(""), "");
    assert_eq!(trim(" \t\r\n "), "");
}

#[test]
fn trim_agrees_with_the_standard_trim() {
    for text in ["", " ", "a", " a", "a ", " a ", "\n\u{e9}t\u{e9} \n", "  \u{4e2d}\u{6587}  x "] {
        assert_eq!(trim(text), text.trim());
    }
}

#[test]
fn decimal_text_writes_numbers() {
    assert_eq!(decimal_text(0), "0");
    assert_eq!(decimal_text(7), "7");
    assert_eq!(decimal_text(10), "10");
    assert_eq!(decimal_text(8042), "8042");
    assert_eq!(decimal_text(u128::MAX), u128::MAX.to_string());
}

#[test]
fn signed_decimal_text_writes_the_sign() {
    assert_eq!(signed_decimal_text(0), "0");
    assert_eq!(signed_decimal_text(101), "101");
    assert_eq!(signed_decimal_text(-1), "-1");
    assert_eq!(signed_decimal_text(i32::MIN), "-2147483648");
    assert_eq!(signed_decimal_text(i32::MAX), "2147483647");
}

#[test]
fn same_text_compares_characters() {
    assert!(same_text("abc", "abc"));
    assert!(!same_text("abc", "abd"));
    assert!(!same_text("abc", "ab"));
    assert!(same_text("", ""));
}

#[test]
fn join_concatenates() {
    assert_eq!(join("--port=", "8000"), "--port=8000");
    assert_eq!(join("", ""), "");
}

#[test]
fn chars_of_lists_the_characters() {
    assert_eq!(chars_of("a\u{e9}z"), vec!['a', '\u{e9}', 'z']);
    assert_eq!(chars_of(""), Vec::<char>::new());
}

#[test]
fn text_precedes_is_dictionary_order() {
    assert!(text_precedes("", ""));
    assert!(text_precedes("", "a"));
    assert!(!text_precedes("a", ""));
    assert!(text_precedes("connect", "disconnect"));
    assert!(!text_precedes("disconnect", "connect"));
    assert!(text_precedes("num", "num"));
    assert!(text_precedes("ab", "abc"));
    assert!(!text_precedes("abc", "ab"));
    assert!(text_precedes("Z", "a"));
}

#[test]
fn text_precedes_agrees_with_the_standard_order() {
    let texts = ["", "a", "b", "ab", "ba", "\u{e9}", "z", "Z", "\u{10000}", "\u{ffff}"];
    for a in texts {
        for b in texts {
            assert_eq!(text_precedes(a, b), a <= b);
        }
    }
}
