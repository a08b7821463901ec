use xdcc_agent::text::{
    char_is_digit, char_is_space, chars_of, parse_decimal, push_decimal, scan_digits, scan_word,
};

#[test]
fn digits_and_spaces() {
    assert!(char_is_digit('0'));
    assert!(char_is_digit('9'));
    assert!(!char_is_digit('/'));
    assert!(!char_is_digit(':'));
    assert!(!char_is_digit('\u{661}'));
    assert!(char_is_space(' '));
    assert!(char_is_space('\t'));
    assert!(char_is_space('\n'));
    assert!(char_is_space('\r'));
    assert!(char_is_space('\u{a0}'));
    assert!(char_is_space('\u{3000}'));
    assert!(!char_is_space('\u{1}'));
    assert!(!char_is_space('a'));
    assert!(!char_is_space('\u{200b}'));
    for c in ['\u{0}', ' ', 'x', '\u{85}', '\u{1680}', '\u{2005}', '\u{2028}', '\u{feff}'] {
        assert_eq!(char_is_space(c), c.is_whitespace());
    }
}

#[test]
fn chars_are_kept_in_order() {
    assert_eq!(chars_of("a\u{e9}\u{1}z"), vec!['a', '\u{e9}', '\u{1}', 'z']);
    assert!(chars_of("").is_empty());
}

#[test]
fn runs_end_where_they_end() {
    let text = chars_of("123 abc\t9");
    assert_eq!(scan_digits(&text, 0), 3);
    assert_eq!(scan_digits(&text, 3), 3);
    assert_eq!(scan_digits(&text, 8), 9);
    assert_eq!(scan_digits(&text, 9), 9);
    assert_eq!(scan_word(&text, 0), 3);
    assert_eq!(scan_word(&text, 4), 7);
    assert_eq!(scan_word(&text, 7), 7);
    assert_eq!(scan_word(&text, 8), 9);
}

#[test]
fn decimal_is_read() {
    let text = chars_of("x18446744073709551615y18446744073709551616z007");
    assert_eq!(parse_decimal(&text, 1, 21), Some(u64::MAX));
    assert_eq!(parse_decimal(&text, 22, 42), None);
    assert_eq!(parse_decimal(&text, 43, 46), Some(7));
    assert_eq!(parse_decimal(&text, 1, 3), Some(18));
    assert_eq!(parse_decimal(&text, 1, 1), None);
    assert_eq!(parse_decimal(&text, 0, 3), None);
    assert_eq!(parse_decimal(&text, 20, 23), None);
    assert_eq!(parse_decimal(&text, 3, 1), None);
    assert_eq!(parse_decimal(&text, 43, 47), None);
    assert_eq!(scan_digits(&text, 47), 47);
    assert_eq!(scan_word(&text, 47), 47);
}

#[test]
fn decimal_is_written() {
    let mut out = String::from("n=");
    push_decimal(&mut out, 0);
    assert_eq!(out, "n=0");
    push_decimal(&mut out, 10);
    assert_eq!(out, "n=010");
    push_decimal(&mut out, u64::MAX);
    assert_eq!(out, "n=01018446744073709551615");
    let mut out = String::new();
    push_decimal(&mut out, 3498348389);
    assert_eq!(out, "3498348389");
}
