use spa_server::args::Args;
use spa_server::config::{resolve_path, Config, FileServer, Person, Proxy, Secure};

#[test]
fn resolve_relative_joins_parent() {
    let r = resolve_path("/etc/app", "tls/cert.pem");
    assert_eq!(r, "/etc/app/tls/cert.pem");
}

#[test]
fn resolve_absolute_unchanged() {
    let r = resolve_path("/etc/app", "/var/tls/cert.pem");
    assert_eq!(r, "/var/tls/cert.pem");
}

#[test]
fn resolve_is_idempotent() {
    let once = resolve_path("/etc/app", "tls/cert.pem");
    let twice = resolve_path("/etc/app", &once);
    assert_eq!(once, twice);
}

#[test]
fn resolve_parent_with_trailing_slash() {
    let r = resolve_path("/etc/app/", "cert.pem");
    assert_eq!(r, "/etc/app/cert.pem");
}

#[test]
fn resolve_empty_parent_leaves_path() {
    let r = resolve_path("", "cert.pem");
    assert_eq!(r, "cert.pem");
}

#[test]
fn resolved_config_joins_all_file_paths() {
    let config = Config {
        port: 8443,
        https_config: Some(Secure { key: "key.pem".to_string(), cert: "cert.pem".to_string() }),
        file_server: Some(FileServer {
            file_path: "public".to_string(),
            route_path: "/static".to_string(),
            fallback_file: "public/index.html".to_string(),
        }),
        proxies: Some(vec![Proxy {
            route: "/api".to_string(),
            target: "http://upstream:9000".to_string(),
        }]),
    };
    let resolved = config.resolved("/srv/conf");
    assert_eq!(resolved.port, 8443);
    let secure = resolved.https_config.expect("TLS material kept");
    assert_eq!(secure.key, "/srv/conf/key.pem");
    assert_eq!(secure.cert, "/srv/conf/cert.pem");
    let file_server = resolved.file_server.expect("static rule kept");
    assert_eq!(file_server.file_path, "/srv/conf/public");
    assert_eq!(file_server.route_path, "/static");
    assert_eq!(file_server.fallback_file, "/srv/conf/public/index.html");
    let proxies = resolved.proxies.expect("proxy rules kept");
    assert_eq!(proxies.len(), 1);
    assert_eq!(proxies[0].route, "/api");
    assert_eq!(proxies[0].target, "http://upstream:9000");
}

#[test]
fn resolved_config_without_options() {
    let config = Config { port: 80, https_config: None, file_server: None, proxies: None };
    let resolved = config.resolved("/srv/conf");
    assert_eq!(resolved.port, 80);
    assert!(resolved.https_config.is_none());
    assert!(resolved.file_server.is_none());
    assert!(resolved.proxies.is_none());
}

#[test]
fn args_new_keeps_values() {
    let args = Args::new("/srv/conf/server.json".to_string(), true, false);
    assert_eq!(args.config, "/srv/conf/server.json");
    assert!(args.log_requests);
    assert!(!args.log_responses);
}

#[test]
fn person_holds_names() {
    let p = Person { first_name: "Ada".to_string(), last_name: "Lovelace".to_string() };
    assert_eq!(p.first_name, "Ada");
    assert_eq!(p.last_name, "Lovelace");
}
