use mq_bridge::http::AuthRejection;
use mq_bridge::http_server::{HttpVersion, RequestLine};
use mq_bridge::message::CanonicalMessage;
use mq_bridge::models::Compression;
use mq_bridge::response::{
    auth_failure_response, failure_response, fire_and_forget_response, inline_echo_fast_path_applies,
    inline_echo_response, make_response, request_metadata_matches, route_miss_response,
    send_timeout_nanos, text_error_response, MessageDisposition, RequestFailure, RequestView,
    ResponseError, ResponsePlan,
};
use mq_bridge::router::RouteMatch;

fn header<'a>(plan: &'a ResponsePlan, name: &str) -> Option<&'a str> {
    plan.headers
        .iter()
        .find(|(k, _)| k.eq_ignore_ascii_case(name))
        .map(|(_, v)| v.as_str())
}

fn pairs(list: &[(&str, &str)]) -> Vec<(String, String)> {
    list.iter().map(|(k, v)| (k.to_string(), v.to_string())).collect()
}

fn line() -> RequestLine {
    RequestLine {
        method: "POST".to_string(),
        path: "/orders".to_string(),
        query: None,
        version: HttpVersion::Http11,
        cipher_suite: None,
        protocol_version: None,
    }
}

#[test]
fn test_text_error_response_sets_text_content_type_when_accepted() {
    let response = text_error_response(400, "bad request", true, None);
    assert_eq!(header(&response, "content-type"), Some("text/plain; charset=utf-8"));
}

#[test]
fn test_text_error_response_skips_text_content_type_when_not_accepted() {
    let response = text_error_response(400, "bad request", false, None);
    assert!(header(&response, "content-type").is_none());
}

#[test]
fn test_text_error_response_preserves_custom_content_type() {
    let headers = pairs(&[("content-type", "application/problem+json")]);
    let response = text_error_response(400, "bad request", true, Some(&headers));
    assert_eq!(header(&response, "content-type"), Some("application/problem+json"));
    assert_eq!(response.headers.len(), 1);
    assert_eq!(response.body, b"bad request".to_vec());
}

#[test]
fn unknown_paths_and_methods_are_answered_as_such() {
    let not_found = route_miss_response(&RouteMatch::NotFound, "GET", true).unwrap();
    assert_eq!(not_found.status, 404);
    assert_eq!(not_found.body, b"No HTTP consumer registered for this path".to_vec());
    let allowed = RouteMatch::MethodNotAllowed(vec!["GET".to_string(), "POST".to_string()]);
    let refused = route_miss_response(&allowed, "PUT", false).unwrap();
    assert_eq!(refused.status, 405);
    assert_eq!(header(&refused, "Allow"), Some("GET, POST"));
    assert_eq!(refused.body, b"Method PUT not allowed".to_vec());
    assert!(route_miss_response(&RouteMatch::Matched(3), "PUT", false).is_none());
}

#[test]
fn auth_failures_challenge_only_when_credentials_are_missing() {
    let missing = auth_failure_response(AuthRejection::MissingHeader, false);
    assert_eq!(missing.status, 401);
    assert_eq!(header(&missing, "WWW-Authenticate"), Some("Basic realm=\"mq-bridge\""));
    let wrong = auth_failure_response(AuthRejection::InvalidCredentials, true);
    assert_eq!(wrong.status, 401);
    assert_eq!(header(&wrong, "WWW-Authenticate"), None);
    assert_eq!(wrong.body, b"Invalid credentials".to_vec());
    let malformed = auth_failure_response(AuthRejection::InvalidBase64, false);
    assert_eq!(malformed.status, 400);
}

#[test]
fn failures_keep_custom_headers_only_after_the_request_was_read() {
    let custom = pairs(&[("x-route", "a")]);
    let timeout = failure_response(RequestFailure::DispositionTimedOut, false, &custom);
    assert_eq!(timeout.status, 504);
    assert_eq!(header(&timeout, "x-route"), Some("a"));
    let too_large = failure_response(RequestFailure::BodyTooLarge, false, &custom);
    assert_eq!(too_large.status, 413);
    assert_eq!(header(&too_large, "x-route"), None);
    assert_eq!(too_large.body, b"Request body exceeds maximum of 268435456 bytes".to_vec());
    let unreadable = failure_response(RequestFailure::BodyReadFailed("reset".to_string()), false, &custom);
    assert_eq!(unreadable.body, b"Failed to read body: reset".to_vec());
    let overloaded = failure_response(RequestFailure::Overloaded, true, &custom);
    assert_eq!(overloaded.status, 503);
    assert_eq!(header(&overloaded, "content-type"), Some("text/plain; charset=utf-8"));
    let accepted = fire_and_forget_response(&custom);
    assert_eq!(accepted.status, 202);
    assert_eq!(accepted.body, b"Message accepted for processing".to_vec());
}

#[test]
fn an_ack_and_a_nack_become_fixed_answers() {
    let custom = pairs(&[("x-route", "a")]);
    let ack = make_response(MessageDisposition::Ack, Compression::Identity, 0, &custom, true, None).unwrap();
    assert_eq!(ack.status, 202);
    assert_eq!(ack.body, b"Message processed".to_vec());
    assert_eq!(ack.headers, custom);
    let nack = make_response(MessageDisposition::Nack, Compression::Identity, 0, &custom, true, None).unwrap();
    assert_eq!(nack.status, 500);
    assert_eq!(header(&nack, "content-type"), Some("text/plain; charset=utf-8"));
}

#[test]
fn a_reply_sets_its_status_headers_and_default_content_type() {
    let reply = CanonicalMessage::new(b"hi".to_vec(), Some(1))
        .with_metadata_kv("http_status_code", "201")
        .with_metadata_kv("x-trace", "t1")
        .with_metadata_kv("mqb.src.kafka_offset", "4")
        .with_metadata_kv("content-length", "99");
    let plan = make_response(MessageDisposition::Reply(reply), Compression::Identity, 0, &Vec::new(), true, None)
        .unwrap();
    assert_eq!(plan.status, 201);
    assert_eq!(plan.headers, pairs(&[("x-trace", "t1")]));
    assert_eq!(plan.body, b"hi".to_vec());
    assert!(!plan.streaming);

    let ok = CanonicalMessage::new(Vec::new(), Some(2)).with_metadata_kv("http_status_code", "1000");
    let plan = make_response(MessageDisposition::Reply(ok), Compression::Identity, 0, &Vec::new(), true, None)
        .unwrap();
    assert_eq!(plan.status, 200);
    assert_eq!(header(&plan, "content-type"), Some("application/octet-stream"));
}

#[test]
fn a_reply_does_not_echo_the_request_but_keeps_its_content_type() {
    let l = line();
    let request_headers = vec![
        ("x-request-id".to_string(), Some("r-1".to_string())),
        ("content-type".to_string(), Some("application/json".to_string())),
    ];
    let view = RequestView { line: &l, headers: &request_headers };
    assert!(request_metadata_matches(&view, "http_method", "POST"));
    assert!(request_metadata_matches(&view, "X-Request-Id", "r-1"));
    assert!(!request_metadata_matches(&view, "x-request-id", "r-2"));
    assert!(request_metadata_matches(&view, "http_query", ""));
    let reply = CanonicalMessage::new(b"{}".to_vec(), Some(1))
        .with_metadata_kv("x-request-id", "r-1")
        .with_metadata_kv("content-type", "application/json")
        .with_metadata_kv("http_path", "/orders");
    let plan = make_response(MessageDisposition::Reply(reply), Compression::Identity, 0, &Vec::new(), true, Some(&view))
        .unwrap();
    assert_eq!(plan.headers, pairs(&[("content-type", "application/json")]));
}

#[test]
fn a_preset_encoding_is_kept_and_an_event_stream_streams() {
    let reply = CanonicalMessage::new(vec![b'a'; 4096], Some(1))
        .with_metadata_kv("content-encoding", "br")
        .with_metadata_kv("content-type", "text/event-stream");
    let plan = make_response(MessageDisposition::Reply(reply), Compression::Gzip, 16, &Vec::new(), true, None)
        .unwrap();
    assert_eq!(plan.body, vec![b'a'; 4096]);
    assert_eq!(header(&plan, "Content-Encoding"), Some("br"));
    assert!(plan.streaming);

    let compressible = CanonicalMessage::new(vec![b'a'; 4096], Some(1));
    let plan = make_response(MessageDisposition::Reply(compressible), Compression::Gzip, 16, &Vec::new(), true, None)
        .unwrap();
    assert_eq!(header(&plan, "Content-Encoding"), Some("gzip"));
    assert!(plan.body.len() < 4096);
}

#[test]
fn a_reply_header_that_cannot_be_sent_fails_the_response() {
    let reply = CanonicalMessage::new(Vec::new(), Some(1)).with_metadata_kv("bad header", "x");
    let r = make_response(MessageDisposition::Reply(reply), Compression::Identity, 0, &Vec::new(), true, None);
    assert_eq!(r.unwrap_err(), ResponseError::InvalidHeader);
}

#[test]
fn the_echo_fast_path_needs_a_plain_request() {
    let plain = vec![("content-type".to_string(), Some("text/plain".to_string()))];
    assert!(inline_echo_fast_path_applies(true, false, &plain));
    assert!(!inline_echo_fast_path_applies(false, false, &plain));
    assert!(!inline_echo_fast_path_applies(true, true, &plain));
    let encoded = vec![("Content-Encoding".to_string(), None)];
    assert!(!inline_echo_fast_path_applies(true, false, &encoded));
    let sse = vec![("content-type".to_string(), Some("text/event-stream".to_string()))];
    assert!(!inline_echo_fast_path_applies(true, false, &sse));
    let custom = pairs(&[("x-route", "a")]);
    let echo = inline_echo_response(None, b"ping".to_vec(), Compression::Identity, 0, &custom).unwrap();
    assert_eq!(echo.status, 200);
    assert_eq!(echo.headers, pairs(&[("content-type", "application/octet-stream"), ("x-route", "a")]));
    assert_eq!(echo.body, b"ping".to_vec());
}

#[test]
fn the_hand_off_wait_is_half_the_timeout_up_to_two_seconds() {
    assert_eq!(send_timeout_nanos(30000), 2_000_000_000);
    assert_eq!(send_timeout_nanos(1000), 500_000_000);
    assert_eq!(send_timeout_nanos(3), 1_500_000);
}
