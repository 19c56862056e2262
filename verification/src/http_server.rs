//! The decisions of the HTTP listener around each request: the message id a request
//! carries, the metadata it becomes, and how listeners share their requests.
use crate::digits::{parse_u128, parse_u128_text};
use crate::http::{
    is_sensitive_header, is_sensitive_request_header, same_ignoring_case, strip_all_prefix,
    trim_start_matches, HTTP_METHOD, HTTP_PATH, HTTP_QUERY, HTTP_VERSION,
    SENSITIVE_HEADER_METADATA_PREFIX,
};
use crate::kafka::{uuid_from_text, uuid_value};
use crate::message::{is_source_key, is_source_metadata_key, Metadata};
use crate::text::{eq_ignore_ascii_case, str_eq};
use vstd::prelude::*;
use vstd::string::*;

verus! {

/// The id a request's message-id header gives, given what it reads as a UUID: the UUID;
/// else hexadecimal after any leading `0x`s; else decimal.
pub open spec fn request_id_from_text(text: Seq<char>, as_uuid: Option<u128>) -> Option<u128> {
    match as_uuid {
        Some(v) => Some(v),
        None => match parse_u128(strip_all_prefix(text, "0x"@), 16) {
            Some(v) => Some(v),
            None => parse_u128(text, 10),
        },
    }
}

/// The id a request's message-id header text gives, given `as_uuid`, what it reads as a
/// UUID.
pub fn message_id_from_header(text: &str, as_uuid: Option<u128>) -> (r: Option<u128>)
    ensures
        r == request_id_from_text(text@, as_uuid),
{
    if let Some(v) = as_uuid {
        return Some(v);
    }
    match parse_u128_text(trim_start_matches(text, "0x"), 16) {
        Some(v) => Some(v),
        None => parse_u128_text(text, 10),
    }
}

/// The id a request's message-id header text gives (see [`request_id_from_text`]).
pub fn parse_message_id_header(text: &str) -> (r: Option<u128>)
    ensures
        r == request_id_from_text(text@, uuid_value(text@)),
{
    message_id_from_header(text, uuid_from_text(text))
}

/// The HTTP version a request was made with.
#[derive(Debug, Clone, Copy, PartialEq, Eq, Structural)]
pub enum HttpVersion {
    Http09,
    Http10,
    Http11,
    Http2,
    Http3,
    /// A version this listener has no name for.
    Other,
}

/// The name a request's HTTP version is recorded under.
pub open spec fn version_text(v: HttpVersion) -> Seq<char> {
    match v {
        HttpVersion::Http09 => "HTTP/0.9"@,
        HttpVersion::Http10 => "HTTP/1.0"@,
        HttpVersion::Http11 => "HTTP/1.1"@,
        HttpVersion::Http2 => "HTTP/2.0"@,
        HttpVersion::Http3 => "HTTP/3.0"@,
        HttpVersion::Other => "HTTP/?"@,
    }
}

/// The name a request's HTTP version is recorded under.
pub fn http_version_str(version: HttpVersion) -> (r: &'static str)
    ensures
        r@ == version_text(version),
{
    match version {
        HttpVersion::Http09 => "HTTP/0.9",
        HttpVersion::Http10 => "HTTP/1.0",
        HttpVersion::Http11 => "HTTP/1.1",
        HttpVersion::Http2 => "HTTP/2.0",
        HttpVersion::Http3 => "HTTP/3.0",
        HttpVersion::Other => "HTTP/?",
    }
}

/// The request line and connection facts that become a request message's metadata.
#[derive(Debug)]
pub struct RequestLine {
    pub method: String,
    pub path: String,
    /// The raw query string, without the leading `?`.
    pub query: Option<String>,
    pub version: HttpVersion,
    pub cipher_suite: Option<String>,
    pub protocol_version: Option<String>,
}

/// Whether a request header name is one a request may not set in metadata: the request-line
/// keys, the connection keys, and source provenance.
pub open spec fn reserved_request_key(k: Seq<char>) -> bool {
    ||| k == HTTP_METHOD@
    ||| k == HTTP_PATH@
    ||| k == HTTP_QUERY@
    ||| k == HTTP_VERSION@
    ||| same_ignoring_case(k, "tls_cipher_suite"@)
    ||| same_ignoring_case(k, "tls_protocol_version"@)
    ||| is_source_key(k)
}

/// The metadata of the request line and connection facts.
pub open spec fn line_metadata(line: RequestLine) -> Map<Seq<char>, Seq<char>> {
    let m = Map::<Seq<char>, Seq<char>>::empty().insert(HTTP_METHOD@, line.method@).insert(
        HTTP_PATH@,
        line.path@,
    ).insert(
        HTTP_QUERY@,
        match line.query {
            Some(q) => q@,
            None => Seq::empty(),
        },
    ).insert(HTTP_VERSION@, version_text(line.version));
    let m = match line.cipher_suite {
        Some(c) => m.insert("tls_cipher_suite"@, c@),
        None => m,
    };
    match line.protocol_version {
        Some(p) => m.insert("tls_protocol_version"@, p@),
        None => m,
    }
}

/// The metadata after the headers `hs` (name and text value, `None` for a value that is
/// not text) are added to `m`: a credential header under the sensitive prefix, a reserved
/// name not at all, any other under its own name; a later header replaces an earlier one.
pub open spec fn headers_into(m: Map<Seq<char>, Seq<char>>, hs: Seq<(String, Option<String>)>) -> Map<
    Seq<char>,
    Seq<char>,
>
    decreases hs.len(),
{
    if hs.len() == 0 {
        m
    } else {
        let before = headers_into(m, hs.drop_last());
        let (k, v) = hs.last();
        match v {
            None => before,
            Some(value) => if reserved_request_key(k@) {
                before
            } else if is_sensitive_header(k@) {
                before.insert(SENSITIVE_HEADER_METADATA_PREFIX@ + k@, value@)
            } else {
                before.insert(k@, value@)
            },
        }
    }
}

/// The `content-encoding` a request declares: the last text value of that header, in any
/// case.
pub open spec fn declared_encoding(hs: Seq<(String, Option<String>)>) -> Option<Seq<char>>
    decreases hs.len(),
{
    if hs.len() == 0 {
        None
    } else {
        let (k, v) = hs.last();
        match v {
            Some(value) => if same_ignoring_case(k@, "content-encoding"@) {
                Some(value@)
            } else {
                declared_encoding(hs.drop_last())
            },
            None => declared_encoding(hs.drop_last()),
        }
    }
}

/// The metadata a request becomes, and the content encoding it declares.
pub fn request_metadata(line: &RequestLine, headers: &Vec<(String, Option<String>)>) -> (r: (
    Metadata,
    Option<String>,
))
    ensures
        r.0@ == headers_into(line_metadata(*line), headers@),
        match r.1 {
            Some(e) => declared_encoding(headers@) == Some(e@),
            None => declared_encoding(headers@) is None,
        },
{
    let mut m = Metadata::new();
    m.insert(String::from_str(HTTP_METHOD), String::from_str(line.method.as_str()));
    m.insert(String::from_str(HTTP_PATH), String::from_str(line.path.as_str()));
    let query = match &line.query {
        Some(q) => String::from_str(q.as_str()),
        None => String::new(),
    };
    m.insert(String::from_str(HTTP_QUERY), query);
    m.insert(String::from_str(HTTP_VERSION), String::from_str(http_version_str(line.version)));
    match &line.cipher_suite {
        Some(c) => {
            m.insert(String::from_str("tls_cipher_suite"), String::from_str(c.as_str()));
        },
        None => {},
    }
    match &line.protocol_version {
        Some(p) => {
            m.insert(String::from_str("tls_protocol_version"), String::from_str(p.as_str()));
        },
        None => {},
    }
    assert(m@ =~= line_metadata(*line));
    let mut encoding: Option<String> = None;
    let mut i: usize = 0;
    while i < headers.len()
        invariant
            i <= headers@.len(),
            m@ == headers_into(line_metadata(*line), headers@.subrange(0, i as int)),
            match encoding {
                Some(e) => declared_encoding(headers@.subrange(0, i as int)) == Some(e@),
                None => declared_encoding(headers@.subrange(0, i as int)) is None,
            },
        decreases headers@.len() - i,
    {
        let ghost pre = headers@.subrange(0, i + 1);
        assert(pre.drop_last() =~= headers@.subrange(0, i as int));
        assert(pre.last() == headers@[i as int]);
        let name = headers[i].0.as_str();
        match &headers[i].1 {
            None => {},
            Some(value) => {
                if eq_ignore_ascii_case(name, "content-encoding") {
                    encoding = Some(String::from_str(value.as_str()));
                }
                let reserved = str_eq(name, HTTP_METHOD) || str_eq(name, HTTP_PATH) || str_eq(
                    name,
                    HTTP_QUERY,
                ) || str_eq(name, HTTP_VERSION) || eq_ignore_ascii_case(name, "tls_cipher_suite")
                    || eq_ignore_ascii_case(name, "tls_protocol_version")
                    || is_source_metadata_key(name);
                if !reserved {
                    if is_sensitive_request_header(name) {
                        let mut key = String::from_str(SENSITIVE_HEADER_METADATA_PREFIX);
                        key.append(name);
                        m.insert(key, String::from_str(value.as_str()));
                    } else {
                        m.insert(String::from_str(name), String::from_str(value.as_str()));
                    }
                }
            },
        }
        i = i + 1;
    }
    assert(headers@.subrange(0, headers@.len() as int) =~= headers@);
    (m, encoding)
}

} // verus!
