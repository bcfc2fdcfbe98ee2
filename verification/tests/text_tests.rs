use spa_server::text::{parse_u32, split_on, str_eq, u32_to_dec};

#[test]
fn split_keeps_empty_pieces() {
    let parts = split_on("/user/alice", '/');
    assert_eq!(parts, vec!["", "user", "alice"]);
}

#[test]
fn split_empty_string() {
    let parts = split_on("", '/');
    assert_eq!(parts, vec![""]);
}

#[test]
fn split_trailing_separator() {
    let parts = split_on("/user/", '/');
    assert_eq!(parts, vec!["", "user", ""]);
}

#[test]
fn parse_u32_accepts_plain_numerals() {
    assert_eq!(parse_u32("0"), Some(0));
    assert_eq!(parse_u32("30"), Some(30));
    assert_eq!(parse_u32("007"), Some(7));
    assert_eq!(parse_u32("4294967295"), Some(u32::MAX));
}

#[test]
fn parse_u32_rejects_malformed_input() {
    assert_eq!(parse_u32(""), None);
    assert_eq!(parse_u32("notanumber"), None);
    assert_eq!(parse_u32("12a"), None);
    assert_eq!(parse_u32("-1"), None);
    assert_eq!(parse_u32("+1"), None);
    assert_eq!(parse_u32("4294967296"), None);
}

#[test]
fn decimal_rendering() {
    assert_eq!(u32_to_dec(0), "0");
    assert_eq!(u32_to_dec(30), "30");
    assert_eq!(u32_to_dec(u32::MAX), "4294967295");
}

#[test]
fn str_eq_compares_contents() {
    assert!(str_eq("abc", "abc"));
    assert!(!str_eq("abc", "abd"));
    assert!(!str_eq("abc", "ab"));
    assert!(str_eq("", ""));
}
