use spa_server::greet::greet_body;

#[test]
fn greet_plain_username() {
    let body = greet_body("alice", None, None);
    assert_eq!(body, "{\"name\":\"alice\",\"age\":null,\"query\":\"no username\"}");
}

#[test]
fn greet_query_override() {
    let body = greet_body("alice", None, Some("bob"));
    assert_eq!(body, "{\"name\":\"alice\",\"age\":null,\"query\":\"bob\"}");
}

#[test]
fn greet_with_age() {
    let body = greet_body("alice", Some(30), None);
    assert_eq!(body, "{\"name\":\"alice\",\"age\":30,\"query\":\"no username\"}");
}

#[test]
fn greet_escapes_quotes_and_backslashes() {
    let body = greet_body("a\"b\\c", None, None);
    assert_eq!(body, "{\"name\":\"a\\\"b\\\\c\",\"age\":null,\"query\":\"no username\"}");
}

#[test]
fn greet_escapes_control_characters() {
    let body = greet_body("a\nb\u{1f}", None, Some("\t"));
    assert_eq!(body, "{\"name\":\"a\\nb\\u001f\",\"age\":null,\"query\":\"\\t\"}");
}

#[test]
fn greet_age_zero_and_max() {
    let body = greet_body("x", Some(0), None);
    assert_eq!(body, "{\"name\":\"x\",\"age\":0,\"query\":\"no username\"}");
    let body = greet_body("x", Some(u32::MAX), None);
    assert_eq!(body, "{\"name\":\"x\",\"age\":4294967295,\"query\":\"no username\"}");
}
