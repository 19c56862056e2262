use mq_bridge::consumer::{consumer_settings, SetupError};
use mq_bridge::limiter::{probe_order, shard_permits};
use mq_bridge::models::HttpConfig;
use mq_bridge::router::{
    route_matches_method, route_matches_path, route_specificity, routes_conflict, HttpRoute,
    RouteMatch, RouteTable,
};

fn route(path: Option<&str>, method: Option<&str>) -> HttpRoute {
    HttpRoute {
        path: path.map(str::to_string),
        method: method.map(str::to_string),
    }
}

#[test]
fn routes_clash_on_a_shared_path_and_method() {
    assert!(routes_conflict(&route(Some("/a"), Some("GET")), &route(Some("/a"), None)));
    assert!(routes_conflict(&route(Some("/a"), Some("GET")), &route(Some("/a"), Some("GET"))));
    assert!(!routes_conflict(&route(Some("/a"), Some("GET")), &route(Some("/a"), Some("POST"))));
    assert!(!routes_conflict(&route(Some("/a"), None), &route(Some("/b"), None)));
    assert!(route_matches_path(&route(None, None), "/anything"));
    assert!(!route_matches_method(&route(None, Some("GET")), "POST"));
    assert_eq!(route_specificity(&route(Some("/a"), None)), (1, 0));
}

#[test]
fn a_clashing_registration_leaves_the_table_as_it_was() {
    let mut table = RouteTable::new();
    assert!(table.register_route(1, route(Some("/orders"), Some("POST"))).is_ok());
    let err = table.register_route(2, route(Some("/orders"), None)).unwrap_err();
    assert_eq!(err.path.as_deref(), Some("/orders"));
    assert_eq!(err.method, None);
    assert_eq!(table.len(), 1);
    assert!(table.register_route(3, route(Some("/orders"), Some("GET"))).is_ok());
    assert_eq!(table.len(), 2);
}

#[test]
fn a_clashing_registration_is_refused_with_the_path_and_method_named() {
    let mut table = RouteTable::new();
    table.register_route(1, route(Some("/shared"), None)).unwrap();
    let err = table.register_route(2, route(Some("/shared"), None)).unwrap_err();
    let text = err.message();
    assert!(text.contains("Conflicting HTTP consumer registration"));
    assert_eq!(
        text,
        "Conflicting HTTP consumer registration for path Some(\"/shared\") and method None"
    );
    let err = table.register_route(3, route(Some("/shared"), Some("GET"))).unwrap_err();
    assert_eq!(
        err.message(),
        "Conflicting HTTP consumer registration for path Some(\"/shared\") and method Some(GET)"
    );
    let mut any_path = RouteTable::new();
    any_path.register_route(1, route(None, Some("POST"))).unwrap();
    let err = any_path.register_route(2, route(None, None)).unwrap_err();
    assert_eq!(
        err.message(),
        "Conflicting HTTP consumer registration for path None and method None"
    );
}

#[test]
fn the_most_specific_route_wins() {
    let mut table = RouteTable::new();
    table.register_route(1, route(None, Some("GET"))).unwrap();
    table.register_route(2, route(Some("/orders"), Some("GET"))).unwrap();
    table.register_route(3, route(Some("/orders"), Some("POST"))).unwrap();
    table.register_route(4, route(Some("/files"), None)).unwrap();
    assert!(matches!(table.match_route("/orders", "POST"), RouteMatch::Matched(3)));
    assert!(matches!(table.match_route("/orders", "GET"), RouteMatch::Matched(2)));
    assert!(matches!(table.match_route("/other", "GET"), RouteMatch::Matched(1)));
    assert!(matches!(table.match_route("/files", "GET"), RouteMatch::Matched(4)));
    assert!(matches!(table.match_route("/other", "POST"), RouteMatch::MethodNotAllowed(_)));
}

#[test]
fn a_path_without_the_method_lists_what_it_allows() {
    let mut table = RouteTable::new();
    table.register_route(1, route(Some("/items"), Some("PUT"))).unwrap();
    table.register_route(2, route(Some("/items"), Some("DELETE"))).unwrap();
    table.register_route(3, route(Some("/items"), Some("GET"))).unwrap();
    table.register_route(4, route(Some("/other"), Some("POST"))).unwrap();
    match table.match_route("/items", "POST") {
        RouteMatch::MethodNotAllowed(methods) => {
            assert_eq!(methods, vec!["DELETE".to_string(), "GET".to_string(), "PUT".to_string()])
        }
        other => panic!("unexpected {other:?}"),
    }
    assert!(matches!(table.match_route("/missing", "GET"), RouteMatch::NotFound));
}

#[test]
fn unregistering_drops_every_route_of_an_id() {
    let mut table = RouteTable::new();
    table.register_route(7, route(Some("/a"), None)).unwrap();
    table.register_route(8, route(Some("/b"), None)).unwrap();
    assert!(!table.unregister_route(7));
    assert!(matches!(table.match_route("/a", "GET"), RouteMatch::NotFound));
    assert!(table.unregister_route(8));
    assert_eq!(table.len(), 0);
}

#[test]
fn permits_are_split_evenly_and_none_is_lost() {
    assert_eq!(shard_permits(100, 8), vec![13, 13, 13, 13, 12, 12, 12, 12]);
    assert_eq!(shard_permits(0, 8), vec![1]);
    assert_eq!(shard_permits(3, 64), vec![1, 1, 1]);
    let many = shard_permits(1000, 64);
    assert_eq!(many.len(), 16);
    assert_eq!(many.iter().sum::<usize>(), 1000);
    assert_eq!(shard_permits(5, 0), vec![5]);
}

#[test]
fn a_worker_tries_its_own_shard_first_then_all_others() {
    assert_eq!(probe_order(6, 4), vec![2, 3, 0, 1]);
    assert_eq!(probe_order(0, 1), vec![0]);
}

#[test]
fn consumer_settings_fill_in_defaults() {
    let mut config = HttpConfig::new("0.0.0.0:8080");
    config.path = Some(" orders ".to_string());
    config.internal_buffer_size = Some(0);
    let settings = consumer_settings(&config).unwrap();
    assert_eq!(settings.route.path.as_deref(), Some("/orders"));
    assert_eq!(settings.route.method, None);
    assert_eq!(settings.message_id_header, "message-id");
    assert_eq!(settings.request_timeout_ms, 30000);
    assert_eq!(settings.compression_threshold_bytes, 1024);
    assert_eq!(settings.buffer_size, 1);
    assert_eq!(settings.concurrency_limit, 100);
    assert!(!settings.compression_enabled);
    assert!(!settings.ignores_codec);
}

#[test]
fn consumer_settings_refuse_bad_methods_and_headers() {
    let mut config = HttpConfig::new("0.0.0.0:8080");
    config.method = Some("GE T".to_string());
    let err = consumer_settings(&config).unwrap_err();
    assert_eq!(err, SetupError::InvalidMethod("GE T".to_string()));
    assert_eq!(err.message(), "Invalid config.method: 'GE T'");

    let mut config = HttpConfig::new("0.0.0.0:8080");
    config.custom_headers = vec![("x-ok".to_string(), "1".to_string()), ("bad name".to_string(), "2".to_string())];
    let err = consumer_settings(&config).unwrap_err();
    assert_eq!(err, SetupError::InvalidHeaderName("bad name".to_string()));
    assert_eq!(err.message(), "Invalid custom_headers name 'bad name': invalid HTTP header name");

    let mut config = HttpConfig::new("0.0.0.0:8080");
    config.custom_headers = vec![("x-bad".to_string(), "a\nb".to_string())];
    let err = consumer_settings(&config).unwrap_err();
    assert_eq!(err, SetupError::InvalidHeaderValue("x-bad".to_string()));
}

#[test]
fn unregistering_a_fresh_id_undoes_its_registration() {
    let mut table = RouteTable::new();
    table.register_route(1, route(Some("/a"), Some("GET"))).unwrap();
    table.register_route(2, route(Some("/b"), None)).unwrap();
    assert!(matches!(table.match_route("/b", "PUT"), RouteMatch::Matched(2)));
    assert!(!table.unregister_route(2));
    assert_eq!(table.len(), 1);
    assert!(matches!(table.match_route("/b", "PUT"), RouteMatch::NotFound));
    assert!(matches!(table.match_route("/a", "GET"), RouteMatch::Matched(1)));
}

#[test]
fn a_method_or_header_name_is_taken_exactly_when_it_is_a_token() {
    for method in ["GET", "get", "M-SEARCH", "A_VERY_LONG_EXTENSION_METHOD", "~!#$%&'*+-.^_`|"] {
        let mut config = HttpConfig::new("0.0.0.0:8080");
        config.method = Some(method.to_string());
        assert!(consumer_settings(&config).is_ok(), "{method}");
    }
    for method in ["", "GÉT", "GET:", "(GET)"] {
        let mut config = HttpConfig::new("0.0.0.0:8080");
        config.method = Some(method.to_string());
        assert_eq!(consumer_settings(&config).unwrap_err(), SetupError::InvalidMethod(method.to_string()));
    }
    for name in ["X-Custom", "content-type", "x~y"] {
        let mut config = HttpConfig::new("0.0.0.0:8080");
        config.custom_headers = vec![(name.to_string(), "v".to_string())];
        assert!(consumer_settings(&config).is_ok(), "{name}");
    }
    for name in ["", "x:y", "naïve", "a/b"] {
        let mut config = HttpConfig::new("0.0.0.0:8080");
        config.custom_headers = vec![(name.to_string(), "v".to_string())];
        assert_eq!(consumer_settings(&config).unwrap_err(), SetupError::InvalidHeaderName(name.to_string()));
    }
}
