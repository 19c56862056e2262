use mq_bridge::http::{check_basic_auth, AuthHeader, AuthRejection};
use mq_bridge::http_server::{
    http_version_str, message_id_from_header, parse_message_id_header, request_metadata, HttpVersion,
    RequestLine,
};
use mq_bridge::models::{Endpoint, EndpointType, HttpConfig, MetricsMiddleware, Middleware, ResponseConfig};
use mq_bridge::sinks::http_inline_fast_path_applies;

fn credentials() -> Option<(String, String)> {
    Some(("user".to_string(), "pass".to_string()))
}

#[test]
fn basic_auth_admits_only_the_configured_credentials() {
    let creds = credentials();
    let ok = AuthHeader::Text("Basic dXNlcjpwYXNz".to_string());
    assert_eq!(check_basic_auth(creds.as_ref(), &ok), Ok(()));
    let wrong = AuthHeader::Text("Basic dXNlcjp3cm9uZw==".to_string());
    assert_eq!(check_basic_auth(creds.as_ref(), &wrong), Err(AuthRejection::InvalidCredentials));
    assert_eq!(check_basic_auth(creds.as_ref(), &AuthHeader::Missing), Err(AuthRejection::MissingHeader));
    assert_eq!(check_basic_auth(creds.as_ref(), &AuthHeader::NotText), Err(AuthRejection::InvalidHeaderEncoding));
    let bearer = AuthHeader::Text("Bearer abc".to_string());
    assert_eq!(check_basic_auth(creds.as_ref(), &bearer), Err(AuthRejection::MissingBasicScheme));
    let garbage = AuthHeader::Text("Basic !!!".to_string());
    assert_eq!(check_basic_auth(creds.as_ref(), &garbage), Err(AuthRejection::InvalidBase64));
    let no_colon = AuthHeader::Text("Basic dXNlcg==".to_string());
    assert_eq!(check_basic_auth(creds.as_ref(), &no_colon), Err(AuthRejection::InvalidCredentials));
    let empty = Some((String::new(), String::new()));
    assert_eq!(check_basic_auth(empty.as_ref(), &AuthHeader::Missing), Ok(()));
    assert_eq!(check_basic_auth(None, &AuthHeader::Missing), Ok(()));
}

#[test]
fn a_message_id_header_is_read_as_uuid_hex_or_decimal() {
    assert_eq!(
        parse_message_id_header("67e55044-10b1-426f-9247-bb680e5fe0c8"),
        Some(0x67e5504410b1426f9247bb680e5fe0c8)
    );
    assert_eq!(parse_message_id_header("0xff"), Some(255));
    assert_eq!(parse_message_id_header("10"), Some(16));
    assert_eq!(parse_message_id_header("not-an-id"), None);
    assert_eq!(message_id_from_header("zz", Some(7)), Some(7));
}

#[test]
fn a_request_becomes_metadata_without_reserved_or_spoofed_keys() {
    let line = RequestLine {
        method: "POST".to_string(),
        path: "/in".to_string(),
        query: Some("a=1".to_string()),
        version: HttpVersion::Http2,
        cipher_suite: Some("TLS13".to_string()),
        protocol_version: None,
    };
    let headers = vec![
        ("authorization".to_string(), Some("Basic x".to_string())),
        ("http_method".to_string(), Some("DELETE".to_string())),
        ("mqb.src.kafka_offset".to_string(), Some("1".to_string())),
        ("x-bin".to_string(), None),
        ("Content-Encoding".to_string(), Some("gzip".to_string())),
        ("x-trace".to_string(), Some("t".to_string())),
    ];
    let (metadata, encoding) = request_metadata(&line, &headers);
    assert_eq!(encoding.as_deref(), Some("gzip"));
    assert_eq!(metadata.get("http_method").map(|s| s.as_str()), Some("POST"));
    assert_eq!(metadata.get("http_query").map(|s| s.as_str()), Some("a=1"));
    assert_eq!(metadata.get("http_version").map(|s| s.as_str()), Some("HTTP/2.0"));
    assert_eq!(metadata.get("tls_cipher_suite").map(|s| s.as_str()), Some("TLS13"));
    assert!(metadata.get("tls_protocol_version").is_none());
    assert_eq!(metadata.get("mqb.src.http_authorization").map(|s| s.as_str()), Some("Basic x"));
    assert!(metadata.get("authorization").is_none());
    assert!(metadata.get("mqb.src.kafka_offset").is_none());
    assert!(metadata.get("x-bin").is_none());
    assert_eq!(metadata.get("x-trace").map(|s| s.as_str()), Some("t"));
    assert_eq!(http_version_str(HttpVersion::Http09), "HTTP/0.9");
    assert_eq!(http_version_str(HttpVersion::Other), "HTTP/?");
}

#[test]
fn only_a_plain_http_route_to_an_inline_output_answers_inline() {
    let http = || Endpoint::new(EndpointType::Http(HttpConfig::new("0.0.0.0:8080")));
    let response = || Endpoint::new(EndpointType::Response(ResponseConfig {}));
    assert!(http_inline_fast_path_applies(&http(), &response()));
    let mut off = HttpConfig::new("0.0.0.0:8080");
    off.inline_response_fast_path = Some(false);
    assert!(!http_inline_fast_path_applies(&Endpoint::new(EndpointType::Http(off)), &response()));
    let mut forget = HttpConfig::new("0.0.0.0:8080");
    forget.fire_and_forget = true;
    assert!(!http_inline_fast_path_applies(&Endpoint::new(EndpointType::Http(forget)), &response()));
    assert!(!http_inline_fast_path_applies(&http(), &Endpoint::null()));
    let mut with_metrics = response();
    with_metrics.middlewares.push(Middleware::Metrics(MetricsMiddleware {}));
    assert!(http_inline_fast_path_applies(&http(), &with_metrics));
}
