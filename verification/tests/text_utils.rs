use sui_validator::strutil::{join_with_semi, parse_dec_at, str_all_space, str_eq, u64_to_dec};

#[test]
fn decimal_rendering() {
    assert_eq!(u64_to_dec(0).as_str(), "0");
    assert_eq!(u64_to_dec(7).as_str(), "7");
    assert_eq!(u64_to_dec(12345).as_str(), "12345");
    assert_eq!(u64_to_dec(u64::MAX).as_str(), "18446744073709551615");
}

#[test]
fn decimal_parsing() {
    assert_eq!(parse_dec_at("123:rest", 0), Some((123, 4)));
    assert_eq!(parse_dec_at("0:", 0), Some((0, 2)));
    assert_eq!(parse_dec_at("x5:", 1), Some((5, 3)));
    assert_eq!(parse_dec_at("abc", 0), None);
    assert_eq!(parse_dec_at("123", 0), None);
    // one past u64::MAX must be refused
    assert_eq!(parse_dec_at("18446744073709551616:", 0), None);
    assert_eq!(parse_dec_at("18446744073709551615:", 0), Some((u64::MAX, 21)));
}

#[test]
fn whitespace_classification() {
    assert!(str_all_space(""));
    assert!(str_all_space(" \t\r\n"));
    assert!(str_all_space("\u{a0}\u{2003}\u{3000}"));
    assert!(!str_all_space(" a "));
}

#[test]
fn joining_with_semicolons() {
    let parts: Vec<String> = Vec::new();
    assert_eq!(join_with_semi(&parts).as_str(), "");
    let parts = vec!["one".to_owned()];
    assert_eq!(join_with_semi(&parts).as_str(), "one");
    let parts = vec!["a".to_owned(), "b".to_owned(), "c".to_owned()];
    assert_eq!(join_with_semi(&parts).as_str(), "a; b; c");
}

#[test]
fn string_equality_handles_unicode() {
    assert!(str_eq("héllo", "héllo"));
    assert!(!str_eq("héllo", "hello"));
    assert!(!str_eq("abc", "abcd"));
}
