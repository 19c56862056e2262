use mq_bridge::codec::compress_if_needed;
use mq_bridge::handler::{admission_of, internal_error_response, message_from_body, Admission, IncomingRequest, ReadPlan, RouteHandling};
use mq_bridge::http::AuthHeader;
use mq_bridge::http_server::{HttpVersion, RequestLine};
use mq_bridge::message::Metadata;
use mq_bridge::models::Compression;
use mq_bridge::negotiation::AcceptedCoding;

fn handling() -> RouteHandling {
    RouteHandling {
        basic_auth: None,
        message_id_header: "message-id".to_string(),
        receive_streamable: false,
        compression_enabled: false,
        custom_headers: vec![("x-route".to_string(), "orders".to_string())],
        inline_echo: false,
    }
}

fn request(headers: Vec<(&str, &str)>) -> IncomingRequest {
    IncomingRequest {
        line: RequestLine {
            method: "POST".to_string(),
            path: "/orders".to_string(),
            query: Some("a=1".to_string()),
            version: HttpVersion::Http11,
            cipher_suite: None,
            protocol_version: None,
        },
        headers: headers.into_iter().map(|(k, v)| (k.to_string(), Some(v.to_string()))).collect(),
        auth: AuthHeader::Missing,
        codings: vec![AcceptedCoding { coding: "gzip".to_string(), refused: false }],
        accepts_text: true,
    }
}

fn header<'a>(headers: &'a [(String, String)], name: &str) -> Option<&'a str> {
    headers.iter().find(|(k, _)| k.eq_ignore_ascii_case(name)).map(|(_, v)| v.as_str())
}

#[test]
fn a_request_without_the_configured_credentials_is_refused_with_a_challenge() {
    let mut h = handling();
    h.basic_auth = Some(("user".to_string(), "pass".to_string()));
    match admission_of(&h, &request(vec![])) {
        Admission::Respond(plan) => {
            assert_eq!(plan.status, 401);
            assert_eq!(header(&plan.headers, "WWW-Authenticate"), Some("Basic realm=\"mq-bridge\""));
            assert_eq!(header(&plan.headers, "content-type"), Some("text/plain; charset=utf-8"));
            assert!(!plan.body.is_empty());
        }
        other => panic!("unexpected admission {:?}", other),
    }
    let mut ok = request(vec![]);
    ok.auth = AuthHeader::Text("Basic dXNlcjpwYXNz".to_string());
    assert!(matches!(admission_of(&h, &ok), Admission::Read(_)));
}

#[test]
fn an_echo_route_echoes_with_the_negotiated_codec() {
    let mut h = handling();
    h.inline_echo = true;
    h.compression_enabled = true;
    match admission_of(&h, &request(vec![("content-type", "application/json")])) {
        Admission::Echo(codec) => assert_eq!(codec, Compression::Gzip),
        other => panic!("unexpected admission {:?}", other),
    }
    h.compression_enabled = false;
    match admission_of(&h, &request(vec![])) {
        Admission::Echo(codec) => assert_eq!(codec, Compression::Identity),
        other => panic!("unexpected admission {:?}", other),
    }
    // An encoded body leaves the shortcut.
    assert!(matches!(admission_of(&h, &request(vec![("content-encoding", "gzip")])), Admission::Read(_)));
}

#[test]
fn a_streaming_route_refuses_compressed_bodies_and_streams_the_rest() {
    let mut h = handling();
    h.receive_streamable = true;
    match admission_of(&h, &request(vec![("content-encoding", "gzip")])) {
        Admission::Respond(plan) => {
            assert_eq!(plan.status, 415);
            assert_eq!(String::from_utf8(plan.body).unwrap(), "Compressed streamable HTTP requests are not supported");
            assert_eq!(header(&plan.headers, "x-route"), Some("orders"));
        }
        other => panic!("unexpected admission {:?}", other),
    }
    match admission_of(&h, &request(vec![("x-tenant", "acme")])) {
        Admission::Stream(metadata) => {
            assert_eq!(metadata.get("http_method").map(|s| s.as_str()), Some("POST"));
            assert_eq!(metadata.get("http_path").map(|s| s.as_str()), Some("/orders"));
            assert_eq!(metadata.get("x-tenant").map(|s| s.as_str()), Some("acme"));
        }
        other => panic!("unexpected admission {:?}", other),
    }
}

#[test]
fn a_read_plan_carries_the_named_id_the_codec_and_the_metadata() {
    let mut h = handling();
    h.compression_enabled = true;
    let req = request(vec![("message-id", "0x2a"), ("content-encoding", "zstd")]);
    match admission_of(&h, &req) {
        Admission::Read(plan) => {
            assert_eq!(plan.message_id, Some(42));
            assert_eq!(plan.compression, Compression::Gzip);
            assert_eq!(plan.content_encoding.as_deref(), Some("zstd"));
            assert_eq!(plan.metadata.get("http_query").map(|s| s.as_str()), Some("a=1"));
            assert_eq!(plan.metadata.get("http_version").map(|s| s.as_str()), Some("HTTP/1.1"));
        }
        other => panic!("unexpected admission {:?}", other),
    }
    match admission_of(&h, &request(vec![])) {
        Admission::Read(plan) => {
            assert_eq!(plan.message_id, None);
            assert_eq!(plan.content_encoding, None);
        }
        other => panic!("unexpected admission {:?}", other),
    }
}

#[test]
fn a_read_body_becomes_a_message_through_its_encoding() {
    let mut metadata = Metadata::new();
    metadata.insert("k".to_string(), "v".to_string());
    let body = b"a body long enough to be worth compressing, repeated; a body long enough to be worth compressing".repeat(20);
    let (compressed, encoding) = compress_if_needed(body.clone(), Compression::Gzip, 16).unwrap();
    assert_eq!(encoding, Some("gzip"));
    let plan = ReadPlan {
        message_id: Some(7),
        compression: Compression::Identity,
        metadata,
        content_encoding: Some("gzip".to_string()),
    };
    let message = message_from_body(plan, compressed, true).unwrap();
    assert_eq!(message.payload, body);
    assert_eq!(message.message_id, 7);
    assert_eq!(message.metadata.get("k").map(|s| s.as_str()), Some("v"));

    let plain = ReadPlan { message_id: None, compression: Compression::Identity, metadata: Metadata::new(), content_encoding: None };
    let message = message_from_body(plain, b"raw".to_vec(), true).unwrap();
    assert_eq!(message.payload, b"raw".to_vec());
}

#[test]
fn a_body_that_cannot_be_decoded_is_answered_with_a_400() {
    let plan = ReadPlan {
        message_id: None,
        compression: Compression::Identity,
        metadata: Metadata::new(),
        content_encoding: Some("gzip".to_string()),
    };
    match message_from_body(plan, b"not gzip at all".to_vec(), false) {
        Err(response) => {
            assert_eq!(response.status, 400);
            assert!(String::from_utf8(response.body).unwrap().starts_with("Failed to decompress request body: "));
            assert!(response.headers.is_empty());
        }
        Ok(_) => panic!("a malformed body was accepted"),
    }
}

#[test]
fn an_internal_error_is_a_500_naming_it() {
    let plan = internal_error_response("boom", true);
    assert_eq!(plan.status, 500);
    assert_eq!(String::from_utf8(plan.body).unwrap(), "Internal error: boom");
    assert_eq!(header(&plan.headers, "content-type"), Some("text/plain; charset=utf-8"));
    assert!(!plan.streaming);
}
