use redis_starter_rust::text::{bytes_eq, eq_ignore_case, str_eq, utf8_text};

#[test]
fn utf8_text_decodes_well_formed_bytes_only() {
    assert_eq!(utf8_text(b"hello"), Some("hello".to_string()));
    assert_eq!(utf8_text(b""), Some(String::new()));
    assert_eq!(utf8_text(b"h\xc3\xa9"), Some("h\u{e9}".to_string()));
    assert_eq!(utf8_text(b"\xf0\x9f\x98\x80"), Some("\u{1f600}".to_string()));
    // a lone continuation byte, an overlong form, a surrogate, a short tail
    assert_eq!(utf8_text(b"\x80"), None);
    assert_eq!(utf8_text(b"\xc0\xaf"), None);
    assert_eq!(utf8_text(b"\xed\xa0\x80"), None);
    assert_eq!(utf8_text(b"\xe2\x82"), None);
}

#[test]
fn equality_of_texts_and_bytes() {
    assert!(str_eq("", ""));
    assert!(str_eq("capa", "capa"));
    assert!(!str_eq("capa", "CAPA"));
    assert!(!str_eq("capa", "cap"));
    assert!(bytes_eq(b"ab", b"ab"));
    assert!(!bytes_eq(b"ab", b"ac"));
    assert!(!bytes_eq(b"ab", b"abc"));
}

#[test]
fn case_is_ignored_for_ascii_letters_only() {
    assert!(eq_ignore_case("PiNg", "pInG"));
    assert!(eq_ignore_case("", ""));
    assert!(eq_ignore_case("replconf", "REPLCONF"));
    assert!(!eq_ignore_case("ping", "pong"));
    assert!(!eq_ignore_case("ping", "pin"));
    // `[` and `{` lie 0x20 apart as letters do, and are no letters
    assert!(!eq_ignore_case("[", "{"));
    assert!(!eq_ignore_case("@", "`"));
    assert!(eq_ignore_case("\u{e9}A", "\u{e9}a"));
    assert!(!eq_ignore_case("\u{c9}", "\u{e9}"));
    assert!(!eq_ignore_case("\u{212a}", "k"));
}
