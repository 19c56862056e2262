use mq_bridge::listener::{
    accept_cooldown_ms, alpn_protocols, binds_per_worker, conflict_message, reuseport_setting,
    serves_tls, shares_existing_server, AcceptFailure, HttpServerProtocol, ServerKey, ServerLookup,
    ServerRegistry,
};
use mq_bridge::models::TlsConfig;

fn key(addr: &str, workers: usize) -> ServerKey {
    ServerKey {
        listen_addr: addr.to_string(),
        tls: TlsConfig::new(),
        workers,
        server_protocol: HttpServerProtocol::Auto,
    }
}

#[test]
fn one_server_per_address_shared_by_equal_settings() {
    let mut registry = ServerRegistry::new();
    assert_eq!(registry.lookup(&key("0.0.0.0:8080", 2)), ServerLookup::Absent);
    assert_eq!(registry.insert(key("0.0.0.0:8080", 2)).unwrap(), 0);
    assert_eq!(registry.lookup(&key("0.0.0.0:8080", 2)), ServerLookup::Reuse(0));
    assert_eq!(registry.lookup(&key("0.0.0.0:8080", 4)), ServerLookup::Conflict);
    assert!(registry.insert(key("0.0.0.0:8080", 4)).is_err());
    assert_eq!(registry.insert(key("0.0.0.0:9090", 4)).unwrap(), 1);
    let mut tls = key("0.0.0.0:9090", 4);
    tls.tls.required = true;
    assert_eq!(registry.lookup(&tls), ServerLookup::Conflict);
    assert_eq!(
        conflict_message("0.0.0.0:9090"),
        "HTTP consumer 0.0.0.0:9090 is already registered with different TLS or worker settings"
    );
}

#[test]
fn reuseport_is_on_unless_switched_off() {
    assert!(reuseport_setting(None));
    assert!(reuseport_setting(Some("1")));
    assert!(!reuseport_setting(Some(" OFF ")));
    assert!(!reuseport_setting(Some("false")));
    assert!(binds_per_worker(4, true));
    assert!(!binds_per_worker(1, true));
    assert!(!binds_per_worker(4, false));
}

#[test]
fn alpn_offers_only_what_is_served() {
    assert_eq!(alpn_protocols(HttpServerProtocol::Auto), vec![b"h2".to_vec(), b"http/1.1".to_vec()]);
    assert_eq!(alpn_protocols(HttpServerProtocol::Http1Only), vec![b"http/1.1".to_vec()]);
    assert_eq!(alpn_protocols(HttpServerProtocol::Http2Only), vec![b"h2".to_vec()]);
}

#[test]
fn accept_failures_cool_down_by_kind() {
    assert_eq!(accept_cooldown_ms(AcceptFailure::Transient), 1);
    assert_eq!(accept_cooldown_ms(AcceptFailure::TooManyOpenFiles), 100);
    assert_eq!(accept_cooldown_ms(AcceptFailure::Other), 10);
}

#[test]
fn ephemeral_ports_never_share_and_tls_needs_cert_and_key() {
    assert!(!shares_existing_server(0));
    assert!(shares_existing_server(8080));
    let mut tls = TlsConfig::new();
    assert_eq!(serves_tls(&tls), Ok(false));
    tls.required = true;
    assert_eq!(
        serves_tls(&tls),
        Err("HTTP server TLS enabled but no cert/key provided in HttpConfig".to_string())
    );
    tls.cert_file = Some("cert.pem".to_string());
    tls.key_file = Some("key.pem".to_string());
    assert_eq!(serves_tls(&tls), Ok(true));
}
