use mq_bridge::content_types::guess_content_type;
use mq_bridge::models::Compression;
use mq_bridge::negotiation::{
    accept_encoding_items, negotiate_response_compression, q_value_text, request_accepts,
    request_accepts_text, AcceptedCoding,
};

/// The codings one `Accept-Encoding` value names, each refused where a `q` parameter reads
/// as zero.
fn codings(raw: &str) -> Vec<AcceptedCoding> {
    accept_encoding_items(raw)
        .into_iter()
        .map(|item| AcceptedCoding {
            refused: item.params.iter().any(|p| {
                q_value_text(p)
                    .and_then(|q| q.parse::<f32>().ok())
                    .is_some_and(|q| q == 0.0)
            }),
            coding: item.coding,
        })
        .collect()
}

fn accept(values: &[&str]) -> Vec<Option<String>> {
    values.iter().map(|v| Some(v.to_string())).collect()
}

#[test]
fn test_guess_content_type_from_path() {
    assert_eq!(
        guess_content_type("/assets/app.bundle.js"),
        "text/javascript; charset=utf-8"
    );
    assert_eq!(guess_content_type("images/logo.SVG"), "image/svg+xml");
}

#[test]
fn test_guess_content_type_from_extension() {
    assert_eq!(guess_content_type("html"), "text/html; charset=utf-8");
    assert_eq!(guess_content_type(".woff2"), "font/woff2");
    assert_eq!(guess_content_type("JSON"), "application/json; charset=utf-8");
}

#[test]
fn test_guess_content_type_unknown_defaults_to_octet_stream() {
    assert_eq!(guess_content_type(""), "application/octet-stream");
    assert_eq!(guess_content_type("unknown-ext"), "application/octet-stream");
    assert_eq!(guess_content_type("archive.custombin"), "application/octet-stream");
}

#[test]
fn content_types_ignore_surrounding_space_and_leading_dots() {
    assert_eq!(guess_content_type("  ..png "), "image/png");
    assert_eq!(guess_content_type("notes.TXT"), "text/plain; charset=utf-8");
    assert_eq!(guess_content_type("movie.mpg"), "video/mpeg");
}

#[test]
fn test_request_accepts_text_defaults_true_without_accept_header() {
    assert!(request_accepts_text(&Vec::new()));
}

#[test]
fn test_request_accepts_text_matches_text_and_wildcards() {
    assert!(request_accepts_text(&accept(&["application/json, text/plain"])));
    assert!(request_accepts_text(&accept(&["*/*"])));
}

#[test]
fn test_request_accepts_text_rejects_binary_only_accept_header() {
    assert!(!request_accepts_text(&accept(&["application/octet-stream"])));
}

#[test]
fn accept_items_are_read_without_parameters_and_case() {
    assert!(request_accepts_text(&accept(&["application/json", " TEXT/*;q=0.5"])));
    assert!(!request_accepts_text(&vec![None]));
    assert!(!request_accepts_text(&accept(&["text/html"])));
}

#[test]
fn test_request_accepts_gzip_false_without_header() {
    assert!(!request_accepts(&Vec::new(), "gzip", true));
}

#[test]
fn test_request_accepts_gzip_matches_gzip_and_wildcard() {
    assert!(request_accepts(&codings("gzip, deflate, br"), "gzip", true));
    assert!(request_accepts(&codings("deflate, gzip;q=0.8"), "gzip", true));
    assert!(request_accepts(&codings("*"), "gzip", true));
}

#[test]
fn test_request_accepts_gzip_honors_q_zero_and_other_codings() {
    assert!(!request_accepts(&codings("gzip;q=0"), "gzip", true));
    assert!(!request_accepts(&codings("*;q=0"), "gzip", true));
    assert!(!request_accepts(&codings("br, deflate"), "gzip", true));
}

#[test]
fn test_negotiate_response_compression_best_of_all() {
    assert_eq!(negotiate_response_compression(&codings("*")), Compression::Gzip);
    assert_eq!(negotiate_response_compression(&codings("lz4")), Compression::Lz4);
    assert_eq!(negotiate_response_compression(&codings("gzip, br, zstd")), Compression::Zstd);
    assert_eq!(negotiate_response_compression(&codings("gzip, br")), Compression::Gzip);
    assert_eq!(negotiate_response_compression(&codings("br")), Compression::Identity);
}

#[test]
fn encoding_items_keep_their_trimmed_parameters() {
    let items = accept_encoding_items(" GZip ; q=0.5 ;level=1, br");
    assert_eq!(items.len(), 2);
    assert_eq!(items[0].coding, "gzip");
    assert_eq!(items[0].params, vec!["q=0.5".to_string(), "level=1".to_string()]);
    assert_eq!(items[1].coding, "br");
    assert!(items[1].params.is_empty());
    assert_eq!(q_value_text("q=0"), Some("0"));
    assert_eq!(q_value_text("level=1"), None);
}

#[test]
fn a_wildcard_never_selects_lz4_or_zstd() {
    assert!(!request_accepts(&codings("*"), "lz4", false));
    assert!(!request_accepts(&codings("*"), "zstd", false));
    assert_eq!(negotiate_response_compression(&codings("*, gzip;q=0")), Compression::Gzip);
    assert_eq!(negotiate_response_compression(&codings("zstd;q=0, lz4")), Compression::Lz4);
}
