use mq_bridge::codec::compress_if_needed;
use mq_bridge::http_server::HttpVersion;
use mq_bridge::message::CanonicalMessage;
use mq_bridge::models::{Compression, HttpConfig};
use mq_bridge::publisher::{publisher_settings, request_plan, response_outcome, PublisherError};

fn settings_for(config: &HttpConfig) -> mq_bridge::publisher::PublisherSettings {
    publisher_settings(config).unwrap()
}

#[test]
fn publisher_settings_default_to_post() {
    let mut config = HttpConfig::new("http://localhost");
    config.batch_concurrency = Some(0);
    config.basic_auth = Some(("user".to_string(), "pass".to_string()));
    let s = settings_for(&config);
    assert_eq!(s.method, "POST");
    assert_eq!(s.batch_concurrency, 1);
    assert_eq!(s.request_timeout_ms, 30000);
    assert_eq!(s.basic_auth_header.as_deref(), Some("Basic dXNlcjpwYXNz"));
    config.method = Some("bad method".to_string());
    assert!(publisher_settings(&config).is_err());
}

#[test]
fn a_request_carries_the_message_without_its_framing_or_provenance() {
    let mut config = HttpConfig::new("http://localhost");
    config.custom_headers = vec![("x-api".to_string(), "k".to_string())];
    config.compression_enabled = Some(true);
    let s = settings_for(&config);
    let msg = CanonicalMessage::new(b"body".to_vec(), Some(5))
        .with_metadata_kv("http_method", "PUT")
        .with_metadata_kv("http_path", "/items/1")
        .with_metadata_kv("http_query", "a=1")
        .with_metadata_kv("content-length", "4")
        .with_metadata_kv("mqb.src.kafka_offset", "9")
        .with_metadata_kv("x-trace", "t");
    let plan = request_plan(&msg, &s).unwrap();
    assert_eq!(plan.method, "PUT");
    assert_eq!(plan.path_and_query.as_deref(), Some("/items/1?a=1"));
    assert_eq!(
        plan.headers,
        vec![
            ("x-trace".to_string(), "t".to_string()),
            ("x-api".to_string(), "k".to_string()),
            ("Accept-Encoding".to_string(), "gzip, lz4, zstd".to_string()),
        ]
    );
    assert_eq!(plan.body, b"body".to_vec());
}

#[test]
fn an_unknown_method_name_falls_back_and_a_large_body_is_compressed() {
    let mut config = HttpConfig::new("http://localhost");
    config.compression = Compression::Zstd;
    let s = settings_for(&config);
    let msg = CanonicalMessage::new(vec![b'q'; 4096], Some(5)).with_metadata_kv("http_method", "BAD METHOD");
    let plan = request_plan(&msg, &s).unwrap();
    assert_eq!(plan.method, "POST");
    assert_eq!(plan.path_and_query, None);
    assert_eq!(plan.headers.last().unwrap(), &("Content-Encoding".to_string(), "zstd".to_string()));
    let (expected, _) = compress_if_needed(vec![b'q'; 4096], Compression::Zstd, 1024).unwrap();
    assert_eq!(plan.body, expected);
}

#[test]
fn a_request_with_a_header_that_cannot_be_sent_is_not_retried() {
    let s = settings_for(&HttpConfig::new("http://localhost"));
    let msg = CanonicalMessage::new(Vec::new(), Some(5)).with_metadata_kv("bad name", "v");
    assert_eq!(
        request_plan(&msg, &s).unwrap_err(),
        PublisherError::NonRetryable("Failed to build request: invalid HTTP header name".to_string())
    );
    let msg = CanonicalMessage::new(Vec::new(), Some(5)).with_metadata_kv("http_path", "/a b");
    assert!(matches!(request_plan(&msg, &s).unwrap_err(), PublisherError::NonRetryable(t) if t.starts_with("Failed to build URI: ")));
}

#[test]
fn failed_statuses_retry_only_when_worth_it() {
    let none = Vec::new();
    match response_outcome(404, HttpVersion::Http11, &none, b"nope".to_vec(), false, 1) {
        Err(PublisherError::NonRetryable(t)) => {
            assert_eq!(t, "HTTP send request failed with status 404 Not Found: \"nope\"")
        }
        other => panic!("unexpected {other:?}"),
    }
    assert!(matches!(
        response_outcome(429, HttpVersion::Http11, &none, Vec::new(), false, 1),
        Err(PublisherError::Retryable(_))
    ));
    assert!(matches!(
        response_outcome(503, HttpVersion::Http11, &none, Vec::new(), false, 1),
        Err(PublisherError::Retryable(_))
    ));
    assert!(matches!(
        response_outcome(501, HttpVersion::Http11, &none, Vec::new(), false, 1),
        Err(PublisherError::NonRetryable(_))
    ));
    assert!(matches!(
        response_outcome(302, HttpVersion::Http11, &none, Vec::new(), false, 1),
        Err(PublisherError::NonRetryable(_))
    ));
}

#[test]
fn a_reply_carries_its_status_version_and_headers() {
    let headers = vec![
        ("x-one".to_string(), Some("1".to_string())),
        ("x-bin".to_string(), None),
    ];
    let reply = response_outcome(404, HttpVersion::Http2, &headers, b"gone".to_vec(), true, 77).unwrap();
    assert_eq!(reply.message_id, 77);
    assert_eq!(reply.payload, b"gone".to_vec());
    assert_eq!(reply.metadata.get("http_status_code").map(|s| s.as_str()), Some("404"));
    assert_eq!(reply.metadata.get("http_version").map(|s| s.as_str()), Some("HTTP/2.0"));
    assert_eq!(reply.metadata.get("x-one").map(|s| s.as_str()), Some("1"));
    assert!(reply.metadata.get("x-bin").is_none());
}

#[test]
fn a_compressed_reply_is_read_back() {
    let (body, _) = compress_if_needed(vec![b'r'; 4096], Compression::Gzip, 0).unwrap();
    let headers = vec![("content-encoding".to_string(), Some("gzip".to_string()))];
    let reply = response_outcome(200, HttpVersion::Http11, &headers, body, false, 1).unwrap();
    assert_eq!(reply.payload, vec![b'r'; 4096]);
    let broken = response_outcome(200, HttpVersion::Http11, &headers, b"x".to_vec(), false, 1);
    assert!(matches!(broken, Err(PublisherError::Retryable(t)) if t.starts_with("Failed to decompress response: ")));
}
