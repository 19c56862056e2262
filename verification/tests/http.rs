use mq_bridge::http::{
    basic_auth_header_value, configured_basic_auth, constant_time_eq, error_body_excerpt,
    has_content_type_header, is_sensitive_request_header, normalize_http_path, HttpRequestExt,
    HTTP_METHOD, HTTP_PATH, HTTP_QUERY, SENSITIVE_HEADER_METADATA_PREFIX,
};
use mq_bridge::message::{is_source_metadata_key, CanonicalMessage, SOURCE_METADATA_PREFIX};
use mq_bridge::models::{Compression, HttpConfig};

fn request(method: &str, path: &str, query: &str) -> CanonicalMessage {
    CanonicalMessage::new(Vec::new(), None)
        .with_metadata_kv(HTTP_METHOD, method)
        .with_metadata_kv(HTTP_PATH, path)
        .with_metadata_kv(HTTP_QUERY, query)
}

#[test]
fn reads_request_line() {
    let msg = request("GET", "/sum", "a=2&b=40");
    assert_eq!(msg.http_method(), "GET");
    assert_eq!(msg.http_path(), "/sum");
    assert_eq!(msg.http_query(), "a=2&b=40");
}

#[test]
fn missing_metadata_reads_as_empty() {
    let msg = CanonicalMessage::new(Vec::new(), None);
    assert_eq!(msg.http_method(), "");
    assert_eq!(msg.query_param("a"), None);
    assert_eq!(msg.query_int("a"), None);
}

#[test]
fn parses_query_params_by_exact_key() {
    let msg = request("GET", "/", "a=2&ab=9&b=40");
    assert_eq!(msg.query_param("a"), Some("2"));
    assert_eq!(msg.query_param("ab"), Some("9"));
    assert_eq!(msg.query_int("b"), Some(40));
    assert_eq!(msg.query_param("missing"), None);
    assert_eq!(msg.query_param("c"), None);
}

#[test]
fn detects_gzip_support() {
    let yes = request("GET", "/", "").with_metadata_kv("accept-encoding", "br, GZIP");
    let no = request("GET", "/", "").with_metadata_kv("accept-encoding", "deflate");
    assert!(yes.accepts_gzip());
    assert!(!no.accepts_gzip());
    assert!(!request("GET", "/", "").accepts_gzip());
}

#[test]
fn query_int_reads_signed_numbers_within_range() {
    let msg = request("GET", "/", "n=-42&p=+7&big=9223372036854775808&min=-9223372036854775808&x=4a");
    assert_eq!(msg.query_int("n"), Some(-42));
    assert_eq!(msg.query_int("p"), Some(7));
    assert_eq!(msg.query_int("big"), None);
    assert_eq!(msg.query_int("min"), Some(i64::MIN));
    assert_eq!(msg.query_int("x"), None);
}

#[test]
fn test_config_compression_resolution() {
    let mut cfg = HttpConfig::new("http://localhost");
    cfg.compression_enabled = Some(true);
    assert_eq!(cfg.publisher_compression(), Compression::Gzip);
    assert!(cfg.consumer_compression_enabled());

    cfg.compression = Compression::Lz4;
    assert_eq!(cfg.publisher_compression(), Compression::Lz4);

    let mut only_codec = HttpConfig::new("http://localhost");
    only_codec.compression = Compression::Zstd;
    assert_eq!(only_codec.publisher_compression(), Compression::Zstd);
    assert!(!only_codec.consumer_compression_enabled());

    let plain = HttpConfig::new("http://localhost");
    assert_eq!(plain.publisher_compression(), Compression::Identity);
    assert!(!plain.consumer_compression_enabled());
}

#[test]
fn test_basic_auth_header_value_omits_empty_credentials() {
    let empty = (String::new(), String::new());
    assert_eq!(basic_auth_header_value(Some(&empty)), None);
    assert_eq!(basic_auth_header_value(None), None);
}

#[test]
fn test_configured_basic_auth_omits_empty_credentials() {
    let empty = (String::new(), String::new());
    assert_eq!(configured_basic_auth(Some(&empty)), None);
    assert_eq!(configured_basic_auth(None), None);
}

#[test]
fn test_configured_basic_auth_keeps_non_empty_credentials() {
    let creds = ("user".to_string(), "pass".to_string());
    assert_eq!(configured_basic_auth(Some(&creds)), Some(("user", "pass")));
}

#[test]
fn test_basic_auth_header_value_encodes_configured_credentials() {
    let creds = ("user".to_string(), "pass".to_string());
    assert_eq!(basic_auth_header_value(Some(&creds)).as_deref(), Some("Basic dXNlcjpwYXNz"));
}

#[test]
fn test_sensitive_header_prefix_is_reserved_source_metadata() {
    assert!(SENSITIVE_HEADER_METADATA_PREFIX.starts_with(SOURCE_METADATA_PREFIX));
    assert!(is_source_metadata_key(&format!("{SENSITIVE_HEADER_METADATA_PREFIX}authorization")));
}

#[test]
fn sensitive_headers_are_matched_ignoring_case() {
    assert!(is_sensitive_request_header("Authorization"));
    assert!(is_sensitive_request_header("X-API-KEY"));
    assert!(!is_sensitive_request_header("x-trace-id"));
}

#[test]
fn listener_paths_are_trimmed_and_rooted() {
    assert_eq!(normalize_http_path(Some("  orders ")).as_deref(), Some("/orders"));
    assert_eq!(normalize_http_path(Some("/orders")).as_deref(), Some("/orders"));
    assert_eq!(normalize_http_path(Some("   ")), None);
    assert_eq!(normalize_http_path(None), None);
    let once = normalize_http_path(Some(" a/b ")).unwrap();
    assert_eq!(normalize_http_path(Some(&once)).as_deref(), Some(once.as_str()));
}

#[test]
fn content_type_is_found_in_any_case() {
    let headers = vec![("Content-Type".to_string(), "application/problem+json".to_string())];
    assert!(has_content_type_header(&headers));
    assert!(!has_content_type_header(&vec![("x-a".to_string(), "b".to_string())]));
}

#[test]
fn constant_time_comparison_is_equality() {
    assert!(constant_time_eq(b"secret", b"secret"));
    assert!(!constant_time_eq(b"secret", b"secreT"));
    assert!(!constant_time_eq(b"secret", b"secrets"));
    assert!(constant_time_eq(b"", b""));
}

#[test]
fn short_error_bodies_are_quoted_whole() {
    assert_eq!(error_body_excerpt(b"bad gateway"), "bad gateway");
}

#[test]
fn long_error_bodies_are_cut_between_characters() {
    let mut body = vec![b'a'; 2047];
    body.extend_from_slice("é".as_bytes());
    body.extend_from_slice(&[b'z'; 10]);
    let excerpt = error_body_excerpt(&body);
    assert!(excerpt.ends_with("... (12 bytes truncated)"), "{excerpt}");
    assert!(excerpt.starts_with(&"a".repeat(2047)));
    assert!(!excerpt.contains('\u{fffd}'));
}
