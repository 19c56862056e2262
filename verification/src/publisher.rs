//! What an HTTP publisher sends for a message, and what it makes of the answer: the request
//! it builds, which failures a route retries, and the reply message.
use crate::codec::{codec_error_text, compress_if_needed, compresses, decompress_if_needed, decompressed_body, encoding_of, token_of, CodecError};
use crate::consumer::{method_is_valid, valid_method, SetupError};
use crate::digits::{decimal, decimal_u64};
use crate::http::{
    basic_auth_header_value, configured_credentials, error_body_excerpt, body_excerpt, same_ignoring_case,
    base64_text, opt_str_view, HTTP_METHOD, HTTP_PATH, HTTP_QUERY, HTTP_STATUS_CODE, HTTP_VERSION,
};
use crate::http_server::{http_version_str, version_text, HttpVersion};
use crate::message::{is_source_key, is_source_metadata_key, CanonicalMessage, Metadata};
use crate::models::{Compression, HttpConfig};
use crate::response::{header_name_is_valid, header_value_is_valid, pair_views, valid_header_name, valid_header_value};
use crate::router::opt_text;
use crate::text::{concat2, eq_ignore_ascii_case, str_eq};
use vstd::prelude::*;
use vstd::string::*;
use vstd::utf8::encode_utf8;

verus! {

/// The text `hyper::http::uri::PathAndQuery` refuses a path and query with, where it does.
pub uninterp spec fn path_and_query_error(text: Seq<char>) -> Option<Seq<char>>;

/// Calls `hyper::http::uri::PathAndQuery::try_from`; the text of its error, where it
/// refuses, is named [`path_and_query_error`].
#[verifier::external_body]
fn check_path_and_query(text: &str) -> (r: Option<String>)
    ensures
        opt_text(r) == path_and_query_error(text@),
{
    match hyper::http::uri::PathAndQuery::try_from(text) {
        Ok(_) => None,
        Err(e) => Some(e.to_string()),
    }
}

/// The reason phrase `hyper::StatusCode::canonical_reason` gives for a status code.
pub uninterp spec fn canonical_reason(code: u16) -> Option<Seq<char>>;

/// Calls `hyper::StatusCode::from_u16` and `canonical_reason`; the phrase is named
/// [`canonical_reason`]. `from_u16` takes the codes from 100 to 999.
#[verifier::external_body]
fn reason_phrase(code: u16) -> (r: Option<&'static str>)
    requires
        100 <= code <= 999,
    ensures
        opt_str_view(r) == canonical_reason(code),
{
    match hyper::StatusCode::from_u16(code) {
        Ok(status) => status.canonical_reason(),
        Err(_) => None,
    }
}

/// What `format!("{:?}", s)` writes for a string: it quoted, with its special characters
/// escaped.
pub uninterp spec fn debug_text(s: Seq<char>) -> Seq<char>;

/// Calls `format!("{:?}", s)`; the text is named [`debug_text`].
#[verifier::external_body]
pub(crate) fn debug_quoted(s: &str) -> (r: String)
    ensures
        r@ == debug_text(s@),
{
    format!("{:?}", s)
}

/// Why a message was not published, and whether a route should try it again.
#[derive(Debug, PartialEq, Eq)]
pub enum PublisherError {
    Retryable(String),
    NonRetryable(String),
}

/// What a publisher sends with, taken from its configuration.
#[derive(Debug)]
pub struct PublisherSettings {
    /// The method a message that names none is sent with.
    pub method: String,
    /// How many messages of a batch are sent at once.
    pub batch_concurrency: usize,
    /// How long a send may take, in milliseconds.
    pub request_timeout_ms: u64,
    pub compression: Compression,
    pub compression_threshold_bytes: usize,
    /// The `Authorization` value, where credentials are configured.
    pub basic_auth_header: Option<String>,
    pub custom_headers: Vec<(String, String)>,
    /// Whether a failed status is handed back as a reply rather than as an error.
    pub pass_through_status: bool,
}

/// What a publisher sends with: the configured method where it is a method name (`POST`
/// unless set), 20 messages at once unless set (at least one), a 30 s timeout and a
/// 1024-byte compression threshold unless set, the configured codec, Basic credentials and
/// custom headers.
pub fn publisher_settings(config: &HttpConfig) -> (r: Result<PublisherSettings, SetupError>)
    ensures
        match r {
            Err(e) => config.method matches Some(m) && !valid_method(m@) && e == SetupError::InvalidMethod(m),
            Ok(s) => {
                &&& (config.method matches Some(m) ==> valid_method(m@) && s.method@ == m@)
                &&& (config.method is None ==> s.method@ == "POST"@)
                &&& s.batch_concurrency == match config.batch_concurrency {
                    Some(b) => if b == 0 { 1usize } else { b },
                    None => 20usize,
                }
                &&& s.request_timeout_ms == match config.request_timeout_ms {
                    Some(t) => t,
                    None => 30000u64,
                }
                &&& s.compression_threshold_bytes == match config.compression_threshold_bytes {
                    Some(t) => t,
                    None => 1024usize,
                }
                &&& s.compression == (if config.compression != Compression::Identity {
                    config.compression
                } else if config.compression_enabled == Some(true) {
                    Compression::Gzip
                } else {
                    Compression::Identity
                })
                &&& match configured_credentials(match config.basic_auth {
                    Some(ref c) => Some(c),
                    None => None,
                }) {
                    Some((u, p)) => s.basic_auth_header matches Some(v) && v@ == "Basic "@ + base64_text(
                        encode_utf8(u + ":"@ + p),
                    ),
                    None => s.basic_auth_header is None,
                }
                &&& s.custom_headers@ == config.custom_headers@
                &&& s.pass_through_status == config.pass_through_status
            },
        },
{
    let method = match &config.method {
        Some(m) => {
            if !method_is_valid(m.as_str()) {
                return Err(SetupError::InvalidMethod(m.clone()));
            }
            m.clone()
        },
        None => String::from_str("POST"),
    };
    proof {
        reveal_strlit("POST");
    }
    Ok(PublisherSettings {
        method,
        batch_concurrency: match config.batch_concurrency {
            Some(b) => if b == 0 { 1 } else { b },
            None => 20,
        },
        request_timeout_ms: match config.request_timeout_ms {
            Some(t) => t,
            None => 30000,
        },
        compression: config.publisher_compression(),
        compression_threshold_bytes: match config.compression_threshold_bytes {
            Some(t) => t,
            None => 1024,
        },
        basic_auth_header: basic_auth_header_value(config.basic_auth.as_ref()),
        custom_headers: crate::models::clone_pairs(&config.custom_headers),
        pass_through_status: config.pass_through_status,
    })
}

/// Whether reply metadata is left out of a request's headers: the request line and
/// connection keys, framing headers (the body is framed anew), and source provenance.
pub open spec fn dropped_from_request(k: Seq<char>) -> bool {
    ||| k == HTTP_METHOD@
    ||| k == HTTP_PATH@
    ||| k == HTTP_QUERY@
    ||| k == HTTP_VERSION@
    ||| k == "tls_cipher_suite"@
    ||| k == "tls_protocol_version"@
    ||| same_ignoring_case(k, "content-length"@)
    ||| same_ignoring_case(k, "transfer-encoding"@)
    ||| same_ignoring_case(k, "content-encoding"@)
    ||| is_source_key(k)
}

/// The headers message metadata `s` becomes on a request, in its order.
pub open spec fn metadata_headers(s: Seq<(String, String)>) -> Seq<(Seq<char>, Seq<char>)>
    decreases s.len(),
{
    if s.len() == 0 {
        Seq::empty()
    } else if dropped_from_request(s.last().0@) {
        metadata_headers(s.drop_last())
    } else {
        metadata_headers(s.drop_last()).push((s.last().0@, s.last().1@))
    }
}

/// The method a message is sent with: the one its metadata names where that is a method
/// name, else the publisher's.
pub open spec fn request_method(m: Map<Seq<char>, Seq<char>>, default: Seq<char>) -> Seq<char> {
    if m.contains_key(HTTP_METHOD@) && valid_method(m[HTTP_METHOD@]) {
        m[HTTP_METHOD@]
    } else {
        default
    }
}

/// The path and query a message is sent to, where its metadata names a path: the path, then
/// `?` and the query where there is a non-empty one.
pub open spec fn path_and_query_of(m: Map<Seq<char>, Seq<char>>) -> Option<Seq<char>> {
    if m.contains_key(HTTP_PATH@) {
        if m.contains_key(HTTP_QUERY@) && m[HTTP_QUERY@].len() > 0 {
            Some(m[HTTP_PATH@] + "?"@ + m[HTTP_QUERY@])
        } else {
            Some(m[HTTP_PATH@])
        }
    } else {
        None
    }
}

/// The headers of a request before the body's encoding: the message's own, `Authorization`
/// where credentials are configured, the custom headers, and `Accept-Encoding` naming every
/// codec where the publisher compresses.
pub open spec fn request_head(msg: CanonicalMessage, settings: PublisherSettings) -> Seq<(Seq<char>, Seq<char>)> {
    let own = metadata_headers(msg.metadata.entry_seq());
    let with_auth = match settings.basic_auth_header {
        Some(v) => own.push(("Authorization"@, v@)),
        None => own,
    };
    let with_custom = with_auth + pair_views(settings.custom_headers@);
    if settings.compression != Compression::Identity {
        with_custom.push(("Accept-Encoding"@, "gzip, lz4, zstd"@))
    } else {
        with_custom
    }
}

/// Why a list of headers cannot be sent: the first header with an invalid name or value,
/// the name checked first.
pub open spec fn header_list_error(hs: Seq<(Seq<char>, Seq<char>)>) -> Option<Seq<char>>
    decreases hs.len(),
{
    if hs.len() == 0 {
        None
    } else if !valid_header_name(hs[0].0) {
        Some("invalid HTTP header name"@)
    } else if !valid_header_value(encode_utf8(hs[0].1)) {
        Some("failed to parse header value"@)
    } else {
        header_list_error(hs.drop_first())
    }
}

fn header_list_check(hs: &Vec<(String, String)>) -> (r: Option<&'static str>)
    ensures
        opt_str_view(r) == header_list_error(pair_views(hs@)),
{
    let n = hs.len();
    let mut i: usize = 0;
    let ghost all = pair_views(hs@);
    assert(all.subrange(0, n as int) =~= all);
    proof {
        reveal_strlit("invalid HTTP header name");
        reveal_strlit("failed to parse header value");
    }
    while i < n
        invariant
            n == hs@.len(),
            all == pair_views(hs@),
            i <= n,
            header_list_error(all) == header_list_error(all.subrange(i as int, n as int)),
        decreases n - i,
    {
        let ghost rest = all.subrange(i as int, n as int);
        assert(rest[0] == (hs@[i as int].0@, hs@[i as int].1@));
        if !header_name_is_valid(hs[i].0.as_str()) {
            return Some("invalid HTTP header name");
        }
        if !header_value_is_valid(hs[i].1.as_str()) {
            return Some("failed to parse header value");
        }
        assert(rest.drop_first() =~= all.subrange(i + 1, n as int));
        i = i + 1;
    }
    None
}

/// The request a message is sent as: its method, its path and query where it names a
/// path, its headers in order, and its body.
#[derive(Debug)]
pub struct RequestPlan {
    pub method: String,
    pub path_and_query: Option<String>,
    pub headers: Vec<(String, String)>,
    pub body: Vec<u8>,
}

/// The body a request carries and its `Content-Encoding`, where compressing does not fail.
pub open spec fn request_body(msg: CanonicalMessage, settings: PublisherSettings) -> (Seq<u8>, Option<Seq<char>>) {
    let data = msg.payload@;
    if compresses(settings.compression, data.len(), settings.compression_threshold_bytes)
        && encoding_of(settings.compression, data).len() < data.len() {
        (encoding_of(settings.compression, data), Some(token_of(settings.compression)))
    } else {
        (data, None)
    }
}

/// The headers of a request, with the body's `Content-Encoding` last.
pub open spec fn request_headers(msg: CanonicalMessage, settings: PublisherSettings) -> Seq<(Seq<char>, Seq<char>)> {
    match request_body(msg, settings).1 {
        Some(t) => request_head(msg, settings).push(("Content-Encoding"@, t)),
        None => request_head(msg, settings),
    }
}

/// Whether a request is refused, not to be retried, with this text.
pub open spec fn refused_with(r: Result<RequestPlan, PublisherError>, text: Seq<char>) -> bool {
    r matches Err(PublisherError::NonRetryable(t)) && t@ == text
}

/// The request a message is sent as. It is refused, not to be retried: where its path and
/// query is not a URI's (`Failed to build URI: ...`); where a header cannot be sent
/// (`Failed to build request: ...`).
pub fn request_plan(message: &CanonicalMessage, settings: &PublisherSettings) -> (r: Result<RequestPlan, PublisherError>)
    ensures
        ({
            let m = message.metadata@;
            let pq = path_and_query_of(m);
            if pq matches Some(p) && path_and_query_error(p) is Some {
                refused_with(r, "Failed to build URI: "@ + path_and_query_error(pq->0)->0)
            } else {
                if header_list_error(request_headers(*message, *settings)) is Some {
                    refused_with(r, "Failed to build request: "@ + header_list_error(request_headers(*message, *settings))->0)
                } else {
                    r matches Ok(plan) && {
                        &&& plan.method@ == request_method(m, settings.method@)
                        &&& opt_text(plan.path_and_query) == pq
                        &&& pair_views(plan.headers@) == request_headers(*message, *settings)
                        &&& plan.body@ == request_body(*message, *settings).0
                    }
                }
            }
        }),
{
    proof {
        reveal_strlit("?");
        reveal_strlit("Failed to build URI: ");
        reveal_strlit("Failed to build request: ");
        reveal_strlit("Authorization");
        reveal_strlit("Accept-Encoding");
        reveal_strlit("gzip, lz4, zstd");
        reveal_strlit("Content-Encoding");
        reveal_strlit("tls_cipher_suite");
        reveal_strlit("tls_protocol_version");
        reveal_strlit("content-length");
        reveal_strlit("transfer-encoding");
        reveal_strlit("content-encoding");
    }
    let meta = &message.metadata;
    let method = match meta.get(HTTP_METHOD) {
        Some(m) => if method_is_valid(m.as_str()) {
            m.clone()
        } else {
            settings.method.clone()
        },
        None => settings.method.clone(),
    };
    let path_and_query: Option<String> = match meta.get(HTTP_PATH) {
        Some(path) => {
            let mut pq = path.clone();
            match meta.get(HTTP_QUERY) {
                Some(q) => {
                    if q.unicode_len() > 0 {
                        pq.append("?");
                        pq.append(q.as_str());
                    }
                },
                None => {},
            }
            match check_path_and_query(pq.as_str()) {
                Some(e) => {
                    return Err(PublisherError::NonRetryable(concat2("Failed to build URI: ", e.as_str())));
                },
                None => {},
            }
            Some(pq)
        },
        None => None,
    };
    let entries = meta.entries();
    let ghost s = entries@;
    let mut headers: Vec<(String, String)> = Vec::new();
    let mut i: usize = 0;
    assert(s.subrange(0, 0) =~= Seq::<(String, String)>::empty());
    assert(pair_views(headers@) =~= Seq::<(Seq<char>, Seq<char>)>::empty());
    while i < entries.len()
        invariant
            i <= s.len(),
            s == entries@,
            pair_views(headers@) == metadata_headers(s.subrange(0, i as int)),
        decreases s.len() - i,
    {
        proof {
            reveal_strlit("tls_cipher_suite");
            reveal_strlit("tls_protocol_version");
            reveal_strlit("content-length");
            reveal_strlit("transfer-encoding");
            reveal_strlit("content-encoding");
        }
        let ghost sub = s.subrange(0, i + 1);
        assert(sub.drop_last() =~= s.subrange(0, i as int));
        assert(sub.last() == s[i as int]);
        let key = entries[i].0.as_str();
        let dropped = str_eq(key, HTTP_METHOD) || str_eq(key, HTTP_PATH) || str_eq(key, HTTP_QUERY)
            || str_eq(key, HTTP_VERSION) || str_eq(key, "tls_cipher_suite") || str_eq(key, "tls_protocol_version")
            || eq_ignore_ascii_case(key, "content-length") || eq_ignore_ascii_case(key, "transfer-encoding")
            || eq_ignore_ascii_case(key, "content-encoding") || is_source_metadata_key(key);
        if !dropped {
            headers.push((entries[i].0.clone(), entries[i].1.clone()));
        }
        assert(pair_views(headers@) =~= metadata_headers(sub));
        i = i + 1;
    }
    assert(s.subrange(0, s.len() as int) =~= s);
    match &settings.basic_auth_header {
        Some(v) => {
            headers.push((String::from_str("Authorization"), v.clone()));
        },
        None => {},
    }
    let mut custom = crate::models::clone_pairs(&settings.custom_headers);
    let ghost before_custom = pair_views(headers@);
    headers.append(&mut custom);
    assert(pair_views(headers@) =~= before_custom + pair_views(settings.custom_headers@));
    if settings.compression != Compression::Identity {
        headers.push((String::from_str("Accept-Encoding"), String::from_str("gzip, lz4, zstd")));
    }
    assert(pair_views(headers@) =~= request_head(*message, *settings));
    let (body, token) = match compress_if_needed(message.payload.clone(), settings.compression, settings.compression_threshold_bytes) {
        Ok(pair) => pair,
        Err(e) => {
            return Err(PublisherError::NonRetryable(concat2("Failed to compress payload: ", e.message().as_str())));
        },
    };
    match token {
        Some(t) => {
            headers.push((String::from_str("Content-Encoding"), String::from_str(t)));
        },
        None => {},
    }
    assert(pair_views(headers@) =~= request_headers(*message, *settings));
    match header_list_check(&headers) {
        Some(e) => {
            return Err(PublisherError::NonRetryable(concat2("Failed to build request: ", e)));
        },
        None => {},
    }
    Ok(RequestPlan { method, path_and_query, headers, body })
}

/// The metadata `m` with every text header of `hs` set, a later one replacing an earlier
/// one of the same name.
pub open spec fn with_text_headers(m: Map<Seq<char>, Seq<char>>, hs: Seq<(String, Option<String>)>) -> Map<Seq<char>, Seq<char>>
    decreases hs.len(),
{
    if hs.len() == 0 {
        m
    } else {
        let before = with_text_headers(m, hs.drop_last());
        match hs.last().1 {
            Some(v) => before.insert(hs.last().0@, v@),
            None => before,
        }
    }
}

/// The metadata of a reply: the response's HTTP version, its text headers, and its status
/// code in decimal.
pub open spec fn response_metadata(version: HttpVersion, hs: Seq<(String, Option<String>)>, status: u16) -> Map<Seq<char>, Seq<char>> {
    with_text_headers(Map::<Seq<char>, Seq<char>>::empty().insert(HTTP_VERSION@, version_text(version)), hs).insert(
        HTTP_STATUS_CODE@,
        decimal(status as nat),
    )
}

/// A status as `hyper` writes it: the code, then its reason phrase.
pub open spec fn status_text(status: u16) -> Seq<char> {
    decimal(status as nat) + " "@ + match canonical_reason(status) {
        Some(r) => r,
        None => "<unknown status code>"@,
    }
}

/// Whether a failed status is worth trying again: a request timeout or too many requests,
/// or a server error other than "not implemented" and "version not supported".
pub open spec fn retries_status(status: u16) -> bool {
    if 400 <= status < 500 {
        status == 408 || status == 429
    } else if 500 <= status < 600 {
        status != 501 && status != 505
    } else {
        false
    }
}

/// A publisher tries a failed request again for 408 and 429, and for every server error
/// from 500 to 599 but 501 and 505; for no other status.
pub proof fn lemma_retried_statuses(status: u16)
    ensures
        retries_status(status) <==> (status == 408 || status == 429 || (500 <= status <= 599 && status != 501
            && status != 505)),
{
}

/// The error a failed status gives: the status and the start of the body, quoted.
pub open spec fn status_failure_text(status: u16, body: Seq<u8>) -> Seq<char> {
    "HTTP send request failed with status "@ + status_text(status) + ": "@ + debug_text(body_excerpt(body))
}

/// What a publisher makes of a response it received: the body read back through its
/// declared encoding (a failure there is worth retrying); then, for a status outside 2xx
/// unless failed statuses pass through, an error that retries as [`retries_status`] says;
/// else the reply, with the request's message id, the body, and [`response_metadata`].
pub fn response_outcome(
    status: u16,
    version: HttpVersion,
    headers: &Vec<(String, Option<String>)>,
    body: Vec<u8>,
    pass_through_status: bool,
    message_id: u128,
) -> (r: Result<CanonicalMessage, PublisherError>)
    requires
        100 <= status <= 999,
    ensures
        match decompressed_body(body@, crate::http_server::declared_encoding(headers@)) {
            Err(e) => r matches Err(PublisherError::Retryable(t)) && t@ == "Failed to decompress response: "@ + codec_error_text(e),
            Ok(b) => if !(200 <= status < 300) && !pass_through_status {
                match r {
                    Err(PublisherError::Retryable(t)) => retries_status(status) && t@ == status_failure_text(status, b),
                    Err(PublisherError::NonRetryable(t)) => !retries_status(status) && t@ == status_failure_text(status, b),
                    Ok(_) => false,
                }
            } else {
                r matches Ok(reply) && reply.payload@ == b && reply.message_id == message_id
                    && reply.metadata@ == response_metadata(version, headers@, status)
            },
        },
        decompressed_body(body@, crate::http_server::declared_encoding(headers@)) is Ok && !(200 <= status
            < 300) && !pass_through_status ==> (r is Err && (r matches Err(PublisherError::Retryable(_)) <==> (
        status == 408 || status == 429 || (500 <= status <= 599 && status != 501 && status != 505)))),
{
    proof {
        lemma_retried_statuses(status);
        reveal_strlit("content-encoding");
        reveal_strlit(" ");
        reveal_strlit("<unknown status code>");
        reveal_strlit("HTTP send request failed with status ");
        reveal_strlit(": ");
        reveal_strlit("Failed to decompress response: ");
    }
    let mut metadata = Metadata::new();
    metadata.insert(String::from_str(HTTP_VERSION), String::from_str(http_version_str(version)));
    let ghost start = metadata@;
    let mut encoding: Option<String> = None;
    let mut i: usize = 0;
    assert(headers@.subrange(0, 0) =~= Seq::<(String, Option<String>)>::empty());
    while i < headers.len()
        invariant
            i <= headers@.len(),
            start == Map::<Seq<char>, Seq<char>>::empty().insert(HTTP_VERSION@, version_text(version)),
            metadata@ == with_text_headers(start, headers@.subrange(0, i as int)),
            match encoding {
                Some(e) => crate::http_server::declared_encoding(headers@.subrange(0, i as int)) == Some(e@),
                None => crate::http_server::declared_encoding(headers@.subrange(0, i as int)) is None,
            },
        decreases headers@.len() - i,
    {
        proof {
            reveal_strlit("content-encoding");
        }
        let ghost sub = headers@.subrange(0, i + 1);
        assert(sub.drop_last() =~= headers@.subrange(0, i as int));
        assert(sub.last() == headers@[i as int]);
        match &headers[i].1 {
            Some(v) => {
                if eq_ignore_ascii_case(headers[i].0.as_str(), "content-encoding") {
                    encoding = Some(v.clone());
                }
                metadata.insert(headers[i].0.clone(), v.clone());
            },
            None => {},
        }
        i = i + 1;
    }
    assert(headers@.subrange(0, headers@.len() as int) =~= headers@);
    metadata.insert(String::from_str(HTTP_STATUS_CODE), decimal_u64(status as u64));
    let decoded = match decompress_if_needed(body, match &encoding {
        Some(e) => Some(e.as_str()),
        None => None,
    }) {
        Ok(d) => d,
        Err(e) => {
            return Err(PublisherError::Retryable(concat2("Failed to decompress response: ", e.message().as_str())));
        },
    };
    if !(200 <= status && status < 300) && !pass_through_status {
        let mut text = String::from_str("HTTP send request failed with status ");
        let code = decimal_u64(status as u64);
        text.append(code.as_str());
        text.append(" ");
        match reason_phrase(status) {
            Some(phrase) => text.append(phrase),
            None => text.append("<unknown status code>"),
        }
        text.append(": ");
        let excerpt = error_body_excerpt(decoded.as_slice());
        let quoted = debug_quoted(excerpt.as_str());
        text.append(quoted.as_str());
        let retry = if 400 <= status && status < 500 {
            status == 408 || status == 429
        } else if 500 <= status && status < 600 {
            status != 501 && status != 505
        } else {
            false
        };
        if retry {
            return Err(PublisherError::Retryable(text));
        } else {
            return Err(PublisherError::NonRetryable(text));
        }
    }
    Ok(CanonicalMessage { payload: decoded, metadata, message_id })
}

/// No header a message's metadata becomes on a request names source provenance
/// (`mqb.src.*`), nor the request line, nor a framing header.
pub proof fn lemma_request_headers_drop_provenance(s: Seq<(String, String)>)
    ensures
        forall|i: int| 0 <= i < metadata_headers(s).len() ==> !dropped_from_request(#[trigger] metadata_headers(s)[i].0),
    decreases s.len(),
{
    if s.len() > 0 {
        lemma_request_headers_drop_provenance(s.drop_last());
        let rest = metadata_headers(s.drop_last());
        let all = metadata_headers(s);
        assert forall|i: int| 0 <= i < all.len() implies !dropped_from_request(#[trigger] all[i].0) by {
            if i < rest.len() {
                assert(all[i] == rest[i]);
            }
        }
    }
}

} // verus!
