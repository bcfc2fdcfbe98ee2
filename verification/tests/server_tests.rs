use spa_server::config::{Config, FileServer, Proxy};
use spa_server::proxy::HttpVersion;
use spa_server::routes::build;
use spa_server::{handle_request, RequestAction, NOT_FOUND_STATUS, OK_STATUS};

fn table_config() -> Config {
    Config {
        port: 8080,
        https_config: None,
        file_server: Some(FileServer {
            file_path: "/srv/public".to_string(),
            route_path: "/".to_string(),
            fallback_file: "/srv/public/index.html".to_string(),
        }),
        proxies: Some(vec![Proxy {
            route: "/api/items".to_string(),
            target: "http://upstream:9000".to_string(),
        }]),
    }
}

#[test]
fn greeting_request_yields_json_response() {
    let table = build(&table_config(), false, false).unwrap();
    match handle_request(&table, "/user/alice", None, "/user/alice") {
        RequestAction::Respond { status, body } => {
            assert_eq!(status, OK_STATUS);
            assert_eq!(body, "{\"name\":\"alice\",\"age\":null,\"query\":\"no username\"}");
        },
        _ => panic!("expected a direct greeting response"),
    }
}

#[test]
fn greeting_request_with_query_override() {
    let table = build(&table_config(), false, false).unwrap();
    match handle_request(&table, "/user/alice", Some("bob"), "/user/alice?username=bob") {
        RequestAction::Respond { status, body } => {
            assert_eq!(status, OK_STATUS);
            assert_eq!(body, "{\"name\":\"alice\",\"age\":null,\"query\":\"bob\"}");
        },
        _ => panic!("expected a direct greeting response"),
    }
}

#[test]
fn proxy_request_is_rewritten_for_the_upstream() {
    let table = build(&table_config(), true, true).unwrap();
    match handle_request(&table, "/api/items", None, "/api/items?limit=5") {
        RequestAction::Forward { outbound, log_requests, log_responses } => {
            assert_eq!(outbound.uri, "http://upstream:9000/api/items?limit=5");
            assert_eq!(outbound.version, HttpVersion::Http11);
            assert!(log_requests);
            assert!(log_responses);
        },
        _ => panic!("expected a forward to the upstream"),
    }
}

#[test]
fn unmatched_request_goes_to_the_static_rule() {
    let table = build(&table_config(), false, false).unwrap();
    match handle_request(&table, "/missing/page", None, "/missing/page") {
        RequestAction::ServeStatic { file_server } => {
            assert_eq!(file_server.fallback_file, "/srv/public/index.html");
        },
        _ => panic!("expected the static fallback"),
    }
}

#[test]
fn unmatched_request_without_static_rule_is_not_found() {
    let mut config = table_config();
    config.file_server = None;
    let table = build(&config, false, false).unwrap();
    match handle_request(&table, "/missing/page", None, "/missing/page") {
        RequestAction::NotFound { status } => assert_eq!(status, NOT_FOUND_STATUS),
        _ => panic!("expected a not-found response"),
    }
}
