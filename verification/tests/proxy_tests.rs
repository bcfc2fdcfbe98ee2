use spa_server::proxy::{
    finish_forward, rewrite_request, HttpVersion, UPSTREAM_FAILURE_STATUS,
};

#[test]
fn rewrite_concatenates_target_and_path_query() {
    let out = rewrite_request("http://upstream:9000", "/api/items?limit=5");
    assert_eq!(out.uri, "http://upstream:9000/api/items?limit=5");
    assert_eq!(out.version, HttpVersion::Http11);
}

#[test]
fn rewrite_without_query() {
    let out = rewrite_request("http://upstream:9000", "/api/items");
    assert_eq!(out.uri, "http://upstream:9000/api/items");
    assert_eq!(out.version, HttpVersion::Http11);
}

#[test]
fn rewrite_is_literal_joining() {
    // No slash normalization: the concatenation is literal, by design.
    let out = rewrite_request("http://upstream:9000/", "/api");
    assert_eq!(out.uri, "http://upstream:9000//api");
}

#[test]
fn rewritten_uri_parses() {
    let out = rewrite_request("http://upstream:9000", "/api/items?limit=5");
    let uri = out.to_uri().expect("a well-formed URI");
    assert_eq!(uri.host(), Some("upstream"));
    assert_eq!(uri.port_u16(), Some(9000));
    assert_eq!(uri.path(), "/api/items");
    assert_eq!(uri.query(), Some("limit=5"));
}

#[test]
fn malformed_uri_is_rejected() {
    let out = rewrite_request("not a scheme://", "/api");
    assert!(out.to_uri().is_none());
}

#[test]
fn upstream_response_passes_through() {
    let outcome: Result<&str, &str> = Ok("upstream body");
    let relayed = finish_forward(outcome);
    assert_eq!(relayed, Ok("upstream body"));
}

#[test]
fn upstream_failure_becomes_500() {
    let outcome: Result<&str, String> = Err("connection refused".to_string());
    let relayed = finish_forward(outcome);
    assert_eq!(relayed, Err(500));
    assert_eq!(UPSTREAM_FAILURE_STATUS, 500);
}
