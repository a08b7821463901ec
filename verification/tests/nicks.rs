use xdcc_agent::irc_case::{
    byte_eq_ignore_irc_case, bytes_eq_ignore_irc_case, eq_ignore_irc_case,
};

#[test]
fn nick_case_is_ignored() {
    assert!(eq_ignore_irc_case("Foo", "foo"));
    assert!(eq_ignore_irc_case("FOO", "foo"));
    assert!(eq_ignore_irc_case("foo", "foo"));
    assert!(eq_ignore_irc_case("", ""));
    assert!(!eq_ignore_irc_case("foo", "fob"));
    assert!(!eq_ignore_irc_case("foo", "fooo"));
    assert!(!eq_ignore_irc_case("foo", ""));
}

#[test]
fn nick_brackets_are_braces() {
    assert!(eq_ignore_irc_case("Foo{bar}", "foo[bar]"));
    assert!(eq_ignore_irc_case("foo[bar]", "Foo{bar}"));
    assert!(eq_ignore_irc_case("a\\b", "A|B"));
    assert!(eq_ignore_irc_case("a|b", "a\\b"));
    assert!(!eq_ignore_irc_case("a{b", "a]b"));
    assert!(!eq_ignore_irc_case("a[b", "a}b"));
    assert!(!eq_ignore_irc_case("a~b", "a^b"));
}

#[test]
fn nick_bytes_one_by_one() {
    assert!(byte_eq_ignore_irc_case(b'a', b'A'));
    assert!(byte_eq_ignore_irc_case(b'Z', b'z'));
    assert!(byte_eq_ignore_irc_case(b'{', b'['));
    assert!(byte_eq_ignore_irc_case(b']', b'}'));
    assert!(byte_eq_ignore_irc_case(b'|', b'\\'));
    assert!(byte_eq_ignore_irc_case(b'1', b'1'));
    assert!(!byte_eq_ignore_irc_case(b'@', b'`'));
    assert!(!byte_eq_ignore_irc_case(b'^', b'~'));
    assert!(!byte_eq_ignore_irc_case(b'1', b'2'));
    assert!(!byte_eq_ignore_irc_case(0xc9, 0xe9));
    assert!(bytes_eq_ignore_irc_case(b"[AA]-Demo|x", b"{aa}-demo\\X"));
    assert!(!bytes_eq_ignore_irc_case(b"abc", b"ab"));
}

#[test]
fn nick_beyond_ascii_compares_exactly() {
    assert!(eq_ignore_irc_case("caf\u{e9}", "CAF\u{e9}"));
    assert!(!eq_ignore_irc_case("caf\u{e9}", "caf\u{c9}"));
}
