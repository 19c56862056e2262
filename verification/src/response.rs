//! The responses an HTTP listener sends: plain-text errors, the answers to a request no
//! route takes or no credentials admit, and the reply a processed message becomes.
use crate::codec::{compress_if_needed, compresses, encoding_of, token_of, CodecError};
use crate::http::{
    basic_auth_challenge_headers, has_content_type_header, same_ignoring_case, AuthRejection,
    HTTP_METHOD, HTTP_PATH, HTTP_QUERY, HTTP_STATUS_CODE, HTTP_VERSION,
};
use crate::http_server::{http_version_str, version_text, RequestLine};
use crate::digits::{decimal, lemma_decimal_reads_back, parse_u128, parse_u128_text};
use crate::message::{is_source_key, is_source_metadata_key, CanonicalMessage, Metadata};
use crate::models::Compression;
use crate::router::{method_views, opt_text, RouteMatch};
use crate::text::{concat2, contains_seq, lower_seq, contains_str, eq_ignore_ascii_case, str_eq, trim, trim_seq};
use vstd::prelude::*;
use vstd::string::*;
use vstd::utf8::encode_utf8;

verus! {

/// A response to send: its status, its headers in order, its body, and whether the body
/// goes out as a stream of one frame rather than as a whole.
#[derive(Debug)]
pub struct ResponsePlan {
    pub status: u16,
    pub headers: Vec<(String, String)>,
    pub body: Vec<u8>,
    pub streaming: bool,
}

/// Headers as pairs of texts.
pub open spec fn pair_views(v: Seq<(String, String)>) -> Seq<(Seq<char>, Seq<char>)> {
    v.map_values(|p: (String, String)| (p.0@, p.1@))
}

pub open spec fn opt_headers(o: Option<&Vec<(String, String)>>) -> Option<Seq<(Seq<char>, Seq<char>)>> {
    match o {
        Some(c) => Some(pair_views(c@)),
        None => None,
    }
}

/// Whether headers set `content-type`, in any case.
pub open spec fn has_content_type(v: Seq<(Seq<char>, Seq<char>)>) -> bool {
    exists|i: int| 0 <= i < v.len() && same_ignoring_case(#[trigger] v[i].0, "content-type"@)
}

pub open spec fn text_content_type() -> (Seq<char>, Seq<char>) {
    ("content-type"@, "text/plain; charset=utf-8"@)
}

/// The headers of a plain-text error: the custom headers, then a text content type where
/// the client takes text and the custom headers set none.
pub open spec fn text_error_headers(
    accepts_text: bool,
    custom: Option<Seq<(Seq<char>, Seq<char>)>>,
) -> Seq<(Seq<char>, Seq<char>)> {
    match custom {
        Some(c) => if accepts_text && !has_content_type(c) {
            c.push(text_content_type())
        } else {
            c
        },
        None => if accepts_text {
            seq![text_content_type()]
        } else {
            Seq::empty()
        },
    }
}

fn copy_headers(headers: &Vec<(String, String)>) -> (r: Vec<(String, String)>)
    ensures
        pair_views(r@) == pair_views(headers@),
{
    let mut out: Vec<(String, String)> = Vec::new();
    let mut i: usize = 0;
    while i < headers.len()
        invariant
            i <= headers@.len(),
            pair_views(out@) == pair_views(headers@.subrange(0, i as int)),
        decreases headers@.len() - i,
    {
        let k = headers[i].0.clone();
        let v = headers[i].1.clone();
        out.push((k, v));
        assert(pair_views(out@) =~= pair_views(headers@.subrange(0, i as int)).push((k@, v@)));
        assert(pair_views(out@) =~= pair_views(headers@.subrange(0, i + 1)));
        i = i + 1;
    }
    assert(headers@.subrange(0, headers@.len() as int) =~= headers@);
    out
}

/// A plain-text error: `status`, `body`, the custom headers, and a text content type where
/// the client takes text and the custom headers set none.
pub fn text_error_response(
    status: u16,
    body: &str,
    accepts_text: bool,
    custom_headers: Option<&Vec<(String, String)>>,
) -> (r: ResponsePlan)
    ensures
        r.status == status,
        pair_views(r.headers@) == text_error_headers(accepts_text, opt_headers(custom_headers)),
        r.body@ == body.spec_bytes(),
        !r.streaming,
{
    let mut headers: Vec<(String, String)> = Vec::new();
    match custom_headers {
        Some(c) => {
            headers = copy_headers(c);
            let has_ct = has_content_type_header(c);
            proof {
                if has_content_type(pair_views(c@)) {
                    let i = choose|i: int|
                        0 <= i < pair_views(c@).len() && same_ignoring_case(
                            #[trigger] pair_views(c@)[i].0,
                            "content-type"@,
                        );
                    assert(pair_views(c@)[i].0 == c@[i].0@);
                }
                if has_ct {
                    let i = choose|i: int|
                        0 <= i < c@.len() && same_ignoring_case(#[trigger] c@[i].0@, "content-type"@);
                    assert(pair_views(c@)[i].0 == c@[i].0@);
                }
            }
            if accepts_text && !has_ct {
                headers.push(
                    (String::from_str("content-type"), String::from_str("text/plain; charset=utf-8")),
                );
            }
        },
        None => {
            if accepts_text {
                headers.push(
                    (String::from_str("content-type"), String::from_str("text/plain; charset=utf-8")),
                );
            }
        },
    }
    proof {
        reveal_strlit("content-type");
        reveal_strlit("text/plain; charset=utf-8");
    }
    assert(pair_views(headers@) =~= text_error_headers(accepts_text, opt_headers(custom_headers)));
    ResponsePlan { status, headers, body: body.as_bytes_vec(), streaming: false }
}

/// The texts of `s` with `sep` between each two.
pub open spec fn joined(s: Seq<Seq<char>>, sep: Seq<char>) -> Seq<char>
    decreases s.len(),
{
    if s.len() == 0 {
        Seq::empty()
    } else if s.len() == 1 {
        s[0]
    } else {
        joined(s.drop_last(), sep) + sep + s.last()
    }
}

/// The texts of `v` joined by `sep`.
pub fn join_texts(v: &Vec<String>, sep: &str) -> (r: String)
    ensures
        r@ == joined(method_views(v@), sep@),
{
    let mut out = String::new();
    let mut i: usize = 0;
    while i < v.len()
        invariant
            i <= v@.len(),
            out@ == joined(method_views(v@.subrange(0, i as int)), sep@),
        decreases v@.len() - i,
    {
        let ghost pre = method_views(v@.subrange(0, i as int));
        assert(method_views(v@.subrange(0, i + 1)) =~= pre.push(v@[i as int]@));
        if i > 0 {
            out.append(sep);
        }
        out.append(v[i].as_str());
        proof {
            let next = pre.push(v@[i as int]@);
            assert(next.drop_last() =~= pre);
        }
        i = i + 1;
    }
    assert(v@.subrange(0, v@.len() as int) =~= v@);
    out
}

/// The body of a 405 answer.
pub open spec fn method_not_allowed_text(method: Seq<char>) -> Seq<char> {
    "Method "@ + method + " not allowed"@
}

/// The headers a 405 answer starts from: `Allow` with the allowed methods, where there are
/// any.
pub open spec fn allow_headers(methods: Seq<Seq<char>>) -> Seq<(Seq<char>, Seq<char>)> {
    if methods.len() == 0 {
        Seq::empty()
    } else {
        seq![("Allow"@, joined(methods, ", "@))]
    }
}

/// The answer to a request no route takes: 404 where no route answers its path; 405 where
/// routes answer the path but none its method, with `Allow` naming the methods they fix;
/// nothing where a route takes it.
pub fn route_miss_response(m: &RouteMatch, method: &str, accepts_text: bool) -> (r: Option<ResponsePlan>)
    ensures
        m is Matched <==> r is None,
        m is NotFound ==> (r matches Some(p) && p.status == 404 && pair_views(p.headers@)
            == text_error_headers(accepts_text, None) && p.body@ == encode_utf8(
            "No HTTP consumer registered for this path"@,
        ) && !p.streaming),
        m matches RouteMatch::MethodNotAllowed(ms) ==> (r matches Some(p) && p.status == 405
            && pair_views(p.headers@) == text_error_headers(
            accepts_text,
            Some(allow_headers(method_views(ms@))),
        ) && p.body@ == encode_utf8(method_not_allowed_text(method@)) && !p.streaming),
{
    match m {
        RouteMatch::Matched(_) => None,
        RouteMatch::NotFound => {
            let p = text_error_response(404, "No HTTP consumer registered for this path", accepts_text, None);
            proof {
                reveal_strlit("No HTTP consumer registered for this path");
            }
            Some(p)
        },
        RouteMatch::MethodNotAllowed(ms) => {
            let mut headers: Vec<(String, String)> = Vec::new();
            if ms.len() > 0 {
                headers.push((String::from_str("Allow"), join_texts(ms, ", ")));
            }
            proof {
                reveal_strlit("Allow");
                reveal_strlit(", ");
                assert(pair_views(headers@) =~= allow_headers(method_views(ms@)));
            }
            let mut body = String::from_str("Method ");
            body.append(method);
            body.append(" not allowed");
            proof {
                reveal_strlit("Method ");
                reveal_strlit(" not allowed");
            }
            Some(text_error_response(405, body.as_str(), accepts_text, Some(&headers)))
        },
    }
}

/// The answer to a request that Basic authentication refuses: the refusal's status and
/// message, with the `WWW-Authenticate` challenge where the refusal asks for credentials.
pub fn auth_failure_response(rejection: AuthRejection, accepts_text: bool) -> (r: ResponsePlan)
    ensures
        r.status == rejection.status_code(),
        r.body@ == encode_utf8(rejection.message_text()),
        pair_views(r.headers@) == text_error_headers(
            accepts_text,
            if rejection.challenges_client() {
                Some(seq![("WWW-Authenticate"@, "Basic realm=\"mq-bridge\""@)])
            } else {
                None
            },
        ),
        !r.streaming,
{
    let status = rejection.status();
    let message = rejection.message();
    if rejection.challenges() {
        let challenge = basic_auth_challenge_headers();
        assert(pair_views(challenge@) =~= seq![("WWW-Authenticate"@, "Basic realm=\"mq-bridge\""@)]);
        text_error_response(status, message, accepts_text, Some(&challenge))
    } else {
        text_error_response(status, message, accepts_text, None)
    }
}

/// Why a request that a route took was not answered by its handler.
#[derive(Debug)]
pub enum RequestFailure {
    /// The body is over `crate::codec::MAX_HTTP_BODY_BYTES`.
    BodyTooLarge,
    /// Reading the body failed, for the reason given.
    BodyReadFailed(String),
    /// The body did not arrive in time.
    BodyReadTimedOut,
    /// The body could not be decompressed.
    DecompressFailed(CodecError),
    /// A streamed request declared a content encoding.
    CompressedStream,
    /// The inline handler did not answer in time.
    InlineTimedOut,
    /// The pipeline that takes requests is closed.
    PipelineClosed,
    /// The pipeline did not take the request in time.
    Overloaded,
    /// The pipeline closed before it settled the request.
    DispositionLost,
    /// The pipeline did not settle the request in time.
    DispositionTimedOut,
}

/// The status of a failure's answer.
pub open spec fn failure_status(f: RequestFailure) -> u16 {
    match f {
        RequestFailure::BodyTooLarge => 413,
        RequestFailure::BodyReadFailed(_) => 400,
        RequestFailure::BodyReadTimedOut => 408,
        RequestFailure::DecompressFailed(_) => 400,
        RequestFailure::CompressedStream => 415,
        RequestFailure::InlineTimedOut => 504,
        RequestFailure::PipelineClosed => 500,
        RequestFailure::Overloaded => 503,
        RequestFailure::DispositionLost => 500,
        RequestFailure::DispositionTimedOut => 504,
    }
}

/// The body of a failure's answer.
pub open spec fn failure_text(f: RequestFailure) -> Seq<char> {
    match f {
        RequestFailure::BodyTooLarge => "Request body exceeds maximum of 268435456 bytes"@,
        RequestFailure::BodyReadFailed(e) => "Failed to read body: "@ + e@,
        RequestFailure::BodyReadTimedOut => "Timed out reading request body"@,
        RequestFailure::DecompressFailed(e) => "Failed to decompress request body: "@ + e.message_text(),
        RequestFailure::CompressedStream => "Compressed streamable HTTP requests are not supported"@,
        RequestFailure::InlineTimedOut => "Request timed out"@,
        RequestFailure::PipelineClosed => "Internal pipeline closed"@,
        RequestFailure::Overloaded => "Server overloaded"@,
        RequestFailure::DispositionLost => "Pipeline closed"@,
        RequestFailure::DispositionTimedOut => "Request timed out"@,
    }
}

/// Whether a failure's answer carries the route's custom headers: those that happen after
/// the request was read carry them, except a closed pipeline at hand-off.
pub open spec fn failure_keeps_custom_headers(f: RequestFailure) -> bool {
    match f {
        RequestFailure::CompressedStream | RequestFailure::InlineTimedOut | RequestFailure::Overloaded
        | RequestFailure::DispositionLost | RequestFailure::DispositionTimedOut => true,
        _ => false,
    }
}

/// The plain-text answer to a failure, with the route's custom headers where the failure
/// keeps them (see [`failure_keeps_custom_headers`]).
pub fn failure_response(failure: RequestFailure, accepts_text: bool, custom_headers: &Vec<(String, String)>) -> (r: ResponsePlan)
    ensures
        r.status == failure_status(failure),
        r.body@ == encode_utf8(failure_text(failure)),
        pair_views(r.headers@) == text_error_headers(
            accepts_text,
            if failure_keeps_custom_headers(failure) {
                Some(pair_views(custom_headers@))
            } else {
                None
            },
        ),
        !r.streaming,
{
    let keep = match &failure {
        RequestFailure::CompressedStream | RequestFailure::InlineTimedOut | RequestFailure::Overloaded
        | RequestFailure::DispositionLost | RequestFailure::DispositionTimedOut => true,
        _ => false,
    };
    let (status, text): (u16, String) = match &failure {
        RequestFailure::BodyTooLarge => (413, String::from_str("Request body exceeds maximum of 268435456 bytes")),
        RequestFailure::BodyReadFailed(e) => (400, concat2("Failed to read body: ", e.as_str())),
        RequestFailure::BodyReadTimedOut => (408, String::from_str("Timed out reading request body")),
        RequestFailure::DecompressFailed(e) => (400, concat2("Failed to decompress request body: ", e.message().as_str())),
        RequestFailure::CompressedStream => (415, String::from_str("Compressed streamable HTTP requests are not supported")),
        RequestFailure::InlineTimedOut => (504, String::from_str("Request timed out")),
        RequestFailure::PipelineClosed => (500, String::from_str("Internal pipeline closed")),
        RequestFailure::Overloaded => (503, String::from_str("Server overloaded")),
        RequestFailure::DispositionLost => (500, String::from_str("Pipeline closed")),
        RequestFailure::DispositionTimedOut => (504, String::from_str("Request timed out")),
    };
    proof {
        reveal_strlit("Request body exceeds maximum of 268435456 bytes");
        reveal_strlit("Failed to read body: ");
        reveal_strlit("Timed out reading request body");
        reveal_strlit("Failed to decompress request body: ");
        reveal_strlit("Compressed streamable HTTP requests are not supported");
        reveal_strlit("Request timed out");
        reveal_strlit("Internal pipeline closed");
        reveal_strlit("Server overloaded");
        reveal_strlit("Pipeline closed");
    }
    if keep {
        text_error_response(status, text.as_str(), accepts_text, Some(custom_headers))
    } else {
        text_error_response(status, text.as_str(), accepts_text, None)
    }
}

/// A 202 answer with the route's custom headers and `body`.
pub fn accepted_response(body: &str, custom_headers: &Vec<(String, String)>) -> (r: ResponsePlan)
    ensures
        r.status == 202,
        pair_views(r.headers@) == pair_views(custom_headers@),
        r.body@ == body.spec_bytes(),
        !r.streaming,
{
    ResponsePlan { status: 202, headers: copy_headers(custom_headers), body: body.as_bytes_vec(), streaming: false }
}

/// Whether `c` may stand in an HTTP token: an ASCII letter or digit, or one of
/// ``!#$%&'*+-.^_`|~``.
pub open spec fn is_token_char(c: char) -> bool {
    ('a' <= c && c <= 'z') || ('A' <= c && c <= 'Z') || ('0' <= c && c <= '9') || c == '!' || c == '#'
        || c == '$' || c == '%' || c == '&' || c == '\'' || c == '*' || c == '+' || c == '-' || c == '.'
        || c == '^' || c == '_' || c == '`' || c == '|' || c == '~'
}

/// Whether every character of `s` may stand in an HTTP token.
pub open spec fn all_token_chars(s: Seq<char>) -> bool {
    forall|i: int| 0 <= i < s.len() ==> is_token_char(#[trigger] s[i])
}

/// Whether `HeaderName::from_bytes` takes a name: one to 65535 token characters (upper
/// case ones are taken and written in lower case).
pub open spec fn valid_header_name(name: Seq<char>) -> bool {
    0 < name.len() <= 65535 && all_token_chars(name)
}

/// Whether a header value's bytes are all allowed: visible ASCII, space, tab, or bytes
/// from 0x80 on.
pub open spec fn valid_header_value(bytes: Seq<u8>) -> bool {
    forall|i: int| 0 <= i < bytes.len() ==> ((#[trigger] bytes[i] >= 32 && bytes[i] != 127) || bytes[i] == 9)
}

/// Calls `hyper::header::HeaderName::from_bytes` on the name's bytes, which, as its source
/// shows, accepts a name exactly when it is [`valid_header_name`]: its table maps every
/// token byte to a byte that is not zero and every other byte to zero, and it refuses an
/// empty name and one longer than 65535 bytes.
#[verifier::external_body]
pub(crate) fn header_name_is_valid(name: &str) -> (r: bool)
    ensures
        r == valid_header_name(name@),
{
    hyper::header::HeaderName::from_bytes(name.as_bytes()).is_ok()
}

/// Calls `hyper::header::HeaderValue::from_str`, which, as its source shows, accepts a
/// value exactly when every byte is allowed (see [`valid_header_value`]).
#[verifier::external_body]
pub(crate) fn header_value_is_valid(value: &str) -> (r: bool)
    ensures
        r == valid_header_value(value.spec_bytes()),
{
    hyper::header::HeaderValue::from_str(value).is_ok()
}

/// Whether every header of a list can be sent.
pub open spec fn headers_valid(hs: Seq<(Seq<char>, Seq<char>)>) -> bool {
    forall|i: int| 0 <= i < hs.len() ==> header_valid(#[trigger] hs[i])
}

/// Whether a header can be sent: its name is one and its value's bytes are allowed.
pub open spec fn header_valid(h: (Seq<char>, Seq<char>)) -> bool {
    valid_header_name(h.0) && valid_header_value(encode_utf8(h.1))
}

fn all_headers_valid(hs: &Vec<(String, String)>) -> (r: bool)
    ensures
        r == headers_valid(pair_views(hs@)),
{
    let mut i: usize = 0;
    while i < hs.len()
        invariant
            i <= hs@.len(),
            forall|k: int| 0 <= k < i ==> header_valid(#[trigger] pair_views(hs@)[k]),
        decreases hs@.len() - i,
    {
        assert(pair_views(hs@)[i as int] == (hs@[i as int].0@, hs@[i as int].1@));
        let name_ok = header_name_is_valid(hs[i].0.as_str());
        let value_ok = header_value_is_valid(hs[i].1.as_str());
        if !name_ok || !value_ok {
            assert(!header_valid(pair_views(hs@)[i as int]));
            return false;
        }
        i = i + 1;
    }
    true
}

/// The request a reply answers, as the reply is checked against it.
pub struct RequestView<'a> {
    pub line: &'a RequestLine,
    pub headers: &'a Vec<(String, Option<String>)>,
}

/// The value of the first of `hs` named `key`, in any case: `None` where there is none,
/// `Some(None)` where its value is not text.
pub open spec fn first_header(hs: Seq<(String, Option<String>)>, key: Seq<char>) -> Option<Option<Seq<char>>>
    decreases hs.len(),
{
    if hs.len() == 0 {
        None
    } else if same_ignoring_case(hs[0].0@, key) {
        Some(opt_text(hs[0].1))
    } else {
        first_header(hs.drop_first(), key)
    }
}

/// Whether reply metadata `key: value` repeats what the request already said under that
/// name: its request line, its connection, or its first header of that name.
pub open spec fn echoes_request(line: RequestLine, hs: Seq<(String, Option<String>)>, key: Seq<char>, value: Seq<char>) -> bool {
    if key == HTTP_METHOD@ {
        line.method@ == value
    } else if key == HTTP_PATH@ {
        line.path@ == value
    } else if key == HTTP_QUERY@ {
        (match line.query {
            Some(q) => q@,
            None => Seq::<char>::empty(),
        }) == value
    } else if key == HTTP_VERSION@ {
        version_text(line.version) == value
    } else if key == "tls_cipher_suite"@ {
        opt_text(line.cipher_suite) == Some(value)
    } else if key == "tls_protocol_version"@ {
        opt_text(line.protocol_version) == Some(value)
    } else {
        first_header(hs, key) == Some(Some(value))
    }
}

pub(crate) fn find_header<'a>(hs: &'a Vec<(String, Option<String>)>, key: &str) -> (r: Option<&'a Option<String>>)
    ensures
        match r {
            Some(v) => first_header(hs@, key@) == Some(opt_text(*v)),
            None => first_header(hs@, key@) is None,
        },
{
    let n = hs.len();
    let mut i: usize = 0;
    assert(hs@.subrange(0, n as int) =~= hs@);
    while i < n
        invariant
            n == hs@.len(),
            i <= n,
            first_header(hs@, key@) == first_header(hs@.subrange(i as int, n as int), key@),
        decreases n - i,
    {
        let ghost rest = hs@.subrange(i as int, n as int);
        assert(rest[0] == hs@[i as int]);
        if eq_ignore_ascii_case(hs[i].0.as_str(), key) {
            return Some(&hs[i].1);
        }
        assert(rest.drop_first() =~= hs@.subrange(i + 1, n as int));
        i = i + 1;
    }
    None
}

fn opt_is(o: &Option<String>, value: &str) -> (r: bool)
    ensures
        r == (opt_text(*o) == Some(value@)),
{
    match o {
        Some(x) => str_eq(x.as_str(), value),
        None => false,
    }
}

/// Whether reply metadata `key: value` repeats the request (see [`echoes_request`]).
pub fn request_metadata_matches(request: &RequestView, key: &str, value: &str) -> (r: bool)
    ensures
        r == echoes_request(*request.line, request.headers@, key@, value@),
{
    let line = request.line;
    proof {
        reveal_strlit("tls_cipher_suite");
        reveal_strlit("tls_protocol_version");
        reveal_strlit("");
    }
    if str_eq(key, HTTP_METHOD) {
        let r = str_eq(line.method.as_str(), value);
        assert(r == echoes_request(*request.line, request.headers@, key@, value@));
        r
    } else if str_eq(key, HTTP_PATH) {
        let r = str_eq(line.path.as_str(), value);
        assert(r == echoes_request(*request.line, request.headers@, key@, value@));
        r
    } else if str_eq(key, HTTP_QUERY) {
        let r = match &line.query {
            Some(q) => str_eq(q.as_str(), value),
            None => {
                proof {
                    assert(""@ =~= Seq::<char>::empty());
                }
                str_eq("", value)
            },
        };
        assert(r == echoes_request(*request.line, request.headers@, key@, value@));
        r
    } else if str_eq(key, HTTP_VERSION) {
        let r = str_eq(http_version_str(line.version), value);
        assert(r == echoes_request(*request.line, request.headers@, key@, value@));
        r
    } else if str_eq(key, "tls_cipher_suite") {
        let r = opt_is(&line.cipher_suite, value);
        assert(r == echoes_request(*request.line, request.headers@, key@, value@));
        r
    } else if str_eq(key, "tls_protocol_version") {
        let r = opt_is(&line.protocol_version, value);
        assert(r == echoes_request(*request.line, request.headers@, key@, value@));
        r
    } else {
        let r = match find_header(request.headers, key) {
            Some(v) => opt_is(v, value),
            None => false,
        };
        assert(r == echoes_request(*request.line, request.headers@, key@, value@));
        r
    }
}

/// What became of a message a handler was given.
#[derive(Debug)]
pub enum MessageDisposition {
    /// The handler answered with a message.
    Reply(CanonicalMessage),
    /// The handler took the message and gave no answer.
    Ack,
    /// The handler failed on the message.
    Nack,
}

/// Why a reply could not be made into a response.
#[derive(Debug, PartialEq, Eq)]
pub enum ResponseError {
    /// Compressing the body failed.
    Codec(CodecError),
    /// A header the reply would carry is not a valid header name or value.
    InvalidHeader,
}

/// The request a reply is checked against, as plain values.
pub open spec fn request_of(request: Option<&RequestView>) -> Option<(RequestLine, Seq<(String, Option<String>)>)> {
    match request {
        Some(v) => Some((*v.line, v.headers@)),
        None => None,
    }
}

pub open spec fn is_content_type(k: Seq<char>) -> bool {
    same_ignoring_case(k, "content-type"@)
}

/// Whether reply metadata `k: value` is looked at: not the status override, not source
/// provenance, and, but for `content-type`, not a repeat of the request.
pub open spec fn considered(k: Seq<char>, v: Seq<char>, req: Option<(RequestLine, Seq<(String, Option<String>)>)>) -> bool {
    &&& k != HTTP_STATUS_CODE@
    &&& !is_source_key(k)
    &&& (is_content_type(k) || !(req matches Some(r) && echoes_request(r.0, r.1, k, v)))
}

/// Whether a header name is sent on as it is: every name but the framing ones.
pub open spec fn passed_on(k: Seq<char>) -> bool {
    &&& !same_ignoring_case(k, "content-encoding"@)
    &&& !same_ignoring_case(k, "transfer-encoding"@)
    &&& !same_ignoring_case(k, "content-length"@)
}

/// The headers reply metadata `s` becomes, in its order.
pub open spec fn reply_headers(s: Seq<(String, String)>, req: Option<(RequestLine, Seq<(String, Option<String>)>)>) -> Seq<(Seq<char>, Seq<char>)>
    decreases s.len(),
{
    if s.len() == 0 {
        Seq::empty()
    } else {
        let rest = reply_headers(s.drop_last(), req);
        let (k, v) = (s.last().0@, s.last().1@);
        if considered(k, v, req) && passed_on(k) {
            rest.push((k, v))
        } else {
            rest
        }
    }
}

/// Whether reply metadata `s` sets a content type.
pub open spec fn sets_content_type(s: Seq<(String, String)>, req: Option<(RequestLine, Seq<(String, Option<String>)>)>) -> bool
    decreases s.len(),
{
    if s.len() == 0 {
        false
    } else {
        sets_content_type(s.drop_last(), req) || (considered(s.last().0@, s.last().1@, req) && is_content_type(s.last().0@))
    }
}

/// Whether reply metadata `k: v` asks for a streamed body: an event-stream content type or
/// chunked transfer.
pub open spec fn asks_stream(k: Seq<char>, v: Seq<char>) -> bool {
    if is_content_type(k) {
        contains_seq(v, "text/event-stream"@)
    } else {
        same_ignoring_case(k, "transfer-encoding"@) && contains_seq(v, "chunked"@)
    }
}

/// Whether reply metadata `s` asks for a streamed body.
pub open spec fn streams(s: Seq<(String, String)>, req: Option<(RequestLine, Seq<(String, Option<String>)>)>) -> bool
    decreases s.len(),
{
    if s.len() == 0 {
        false
    } else {
        streams(s.drop_last(), req) || (considered(s.last().0@, s.last().1@, req) && asks_stream(s.last().0@, s.last().1@))
    }
}

/// The content encoding the reply already has, if its metadata declares one other than the
/// identity: the last such declaration.
pub open spec fn preset_encoding(s: Seq<(String, String)>, req: Option<(RequestLine, Seq<(String, Option<String>)>)>) -> Option<Seq<char>>
    decreases s.len(),
{
    if s.len() == 0 {
        None
    } else {
        let (k, v) = (s.last().0@, s.last().1@);
        if considered(k, v, req) && same_ignoring_case(k, "content-encoding"@) && !same_ignoring_case(trim_seq(v), "identity"@) {
            Some(v)
        } else {
            preset_encoding(s.drop_last(), req)
        }
    }
}

/// The status a reply sets under `http_status_code`: a decimal code from 100 to 999, else
/// 200.
pub open spec fn reply_status(m: Map<Seq<char>, Seq<char>>) -> u16 {
    if m.contains_key(HTTP_STATUS_CODE@) {
        match parse_u128(m[HTTP_STATUS_CODE@], 10) {
            Some(n) => if 100 <= n <= 999 {
                n as u16
            } else {
                200u16
            },
            None => 200u16,
        }
    } else {
        200u16
    }
}

/// A reply that sets `http_status_code` to the decimal text of a code from 100 to 999 is
/// answered with that code, whatever the code; one that sets no status is answered with
/// 200.
pub proof fn lemma_reply_status_is_the_code_set(m: Map<Seq<char>, Seq<char>>, n: nat)
    requires
        100 <= n <= 999,
    ensures
        m.contains_key(HTTP_STATUS_CODE@) && m[HTTP_STATUS_CODE@] == decimal(n) ==> reply_status(m) as int == n,
        !m.contains_key(HTTP_STATUS_CODE@) ==> reply_status(m) == 200,
{
    lemma_decimal_reads_back(n);
}

fn status_of(m: &Metadata) -> (r: u16)
    ensures
        r == reply_status(m@),
{
    match m.get(HTTP_STATUS_CODE) {
        Some(text) => match parse_u128_text(text.as_str(), 10) {
            Some(n) => if 100 <= n && n <= 999 {
                n as u16
            } else {
                200
            },
            None => 200,
        },
        None => 200,
    }
}

/// The headers before those of the body's encoding and the route's: the reply's own, then
/// a default content type for a 200 that sets none.
pub open spec fn reply_head(s: Seq<(String, String)>, req: Option<(RequestLine, Seq<(String, Option<String>)>)>, status: u16) -> Seq<(Seq<char>, Seq<char>)> {
    if !sets_content_type(s, req) && status == 200 {
        reply_headers(s, req).push(("content-type"@, "application/octet-stream"@))
    } else {
        reply_headers(s, req)
    }
}

/// The headers of the response a reply message becomes: its own, a default content type,
/// the `Content-Encoding` of its body where it has one, then the route's custom headers.
pub open spec fn reply_plan(
    msg: CanonicalMessage,
    req: Option<(RequestLine, Seq<(String, Option<String>)>)>,
    custom: Seq<(Seq<char>, Seq<char>)>,
    encoding_header: Option<Seq<char>>,
) -> Seq<(Seq<char>, Seq<char>)> {
    let s = msg.metadata.entry_seq();
    let head = reply_head(s, req, reply_status(msg.metadata@));
    let with_encoding = match encoding_header {
        Some(e) => head.push(("Content-Encoding"@, e)),
        None => head,
    };
    with_encoding + custom
}

/// The body a reply is sent with and its `Content-Encoding`, where compressing does not
/// fail: as it is under an encoding the reply declares itself; else as
/// [`compress_if_needed`] leaves it.
pub open spec fn reply_body(
    msg: CanonicalMessage,
    req: Option<(RequestLine, Seq<(String, Option<String>)>)>,
    method: Compression,
    threshold: usize,
) -> (Seq<u8>, Option<Seq<char>>) {
    let data = msg.payload@;
    match preset_encoding(msg.metadata.entry_seq(), req) {
        Some(e) => (data, Some(e)),
        None => if !compresses(method, data.len(), threshold) {
            (data, None)
        } else if encoding_of(method, data).len() < data.len() {
            (encoding_of(method, data), Some(token_of(method)))
        } else {
            (data, None)
        },
    }
}

/// What a reply message becomes (see [`make_response`]).
pub open spec fn reply_outcome(
    msg: CanonicalMessage,
    req: Option<(RequestLine, Seq<(String, Option<String>)>)>,
    method: Compression,
    threshold: usize,
    custom: Seq<(Seq<char>, Seq<char>)>,
    r: Result<ResponsePlan, ResponseError>,
) -> bool {
    let (body, encoding) = reply_body(msg, req, method, threshold);
    let headers = reply_plan(msg, req, custom, encoding);
    match r {
        Ok(p) => {
            &&& p.status == reply_status(msg.metadata@)
            &&& p.body@ == body
            &&& pair_views(p.headers@) == headers
            &&& p.streaming == streams(msg.metadata.entry_seq(), req)
            &&& headers_valid(headers)
        },
        Err(ResponseError::Codec(_)) => false,
        Err(ResponseError::InvalidHeader) => !headers_valid(headers),
    }
}

fn append_headers(headers: &mut Vec<(String, String)>, more: &Vec<(String, String)>)
    ensures
        pair_views(final(headers)@) == pair_views(old(headers)@) + pair_views(more@),
{
    let mut copy = copy_headers(more);
    let ghost before = headers@;
    headers.append(&mut copy);
    assert(pair_views(headers@) =~= pair_views(before) + pair_views(more@));
}

/// The response to what became of a message: 202 for an acknowledgement, a plain-text 500
/// for a failure, and for a reply its status, headers and body (see [`reply_outcome`]).
pub fn make_response(
    disposition: MessageDisposition,
    response_compression: Compression,
    compression_threshold_bytes: usize,
    custom_headers: &Vec<(String, String)>,
    accepts_text: bool,
    request: Option<&RequestView>,
) -> (r: Result<ResponsePlan, ResponseError>)
    ensures
        disposition is Ack ==> (r matches Ok(p) && p.status == 202 && pair_views(p.headers@)
            == pair_views(custom_headers@) && p.body@ == encode_utf8("Message processed"@)
            && !p.streaming),
        disposition is Nack ==> (r matches Ok(p) && p.status == 500 && pair_views(p.headers@)
            == text_error_headers(accepts_text, Some(pair_views(custom_headers@))) && p.body@
            == encode_utf8("Message processing failed"@) && !p.streaming),
        disposition matches MessageDisposition::Reply(msg) ==> reply_outcome(
            msg,
            request_of(request),
            response_compression,
            compression_threshold_bytes,
            pair_views(custom_headers@),
            r,
        ),
        disposition matches MessageDisposition::Reply(msg) ==> forall|n: nat|
            100 <= n <= 999 && msg.metadata@.contains_key(HTTP_STATUS_CODE@) && msg.metadata@[HTTP_STATUS_CODE@]
                == #[trigger] decimal(n) ==> (r matches Ok(p) ==> p.status as int == n),
{
    proof {
        if disposition is Reply {
            let m = disposition->Reply_0.metadata@;
            assert forall|n: nat|
                100 <= n <= 999 && m.contains_key(HTTP_STATUS_CODE@) && m[HTTP_STATUS_CODE@]
                    == #[trigger] decimal(n) implies reply_status(m) as int == n by {
                lemma_reply_status_is_the_code_set(m, n);
            }
        }
        reveal_strlit("Message processed");
        reveal_strlit("Message processing failed");
    }
    match disposition {
        MessageDisposition::Ack => Ok(accepted_response("Message processed", custom_headers)),
        MessageDisposition::Nack => Ok(
            text_error_response(500, "Message processing failed", accepts_text, Some(custom_headers)),
        ),
        MessageDisposition::Reply(msg) => reply_response(
            msg,
            response_compression,
            compression_threshold_bytes,
            custom_headers,
            request,
        ),
    }
}

fn reply_response(
    msg: CanonicalMessage,
    method: Compression,
    threshold: usize,
    custom_headers: &Vec<(String, String)>,
    request: Option<&RequestView>,
) -> (r: Result<ResponsePlan, ResponseError>)
    ensures
        reply_outcome(msg, request_of(request), method, threshold, pair_views(custom_headers@), r),
{
    let ghost req = request_of(request);
    let ghost m0 = msg;
    let status = status_of(&msg.metadata);
    let entries = msg.metadata.entries();
    let ghost s = entries@;
    let mut headers: Vec<(String, String)> = Vec::new();
    let mut has_ct = false;
    let mut streaming = false;
    let mut preset: Option<String> = None;
    let mut i: usize = 0;
    proof {
        reveal_strlit("content-type");
        reveal_strlit("content-encoding");
        reveal_strlit("transfer-encoding");
        reveal_strlit("content-length");
        assert(s.subrange(0, 0) =~= Seq::<(String, String)>::empty());
        assert(pair_views(headers@) =~= Seq::<(Seq<char>, Seq<char>)>::empty());
    }
    while i < entries.len()
        invariant
            i <= s.len(),
            s == entries@,
            req == request_of(request),
            pair_views(headers@) == reply_headers(s.subrange(0, i as int), req),
            has_ct == sets_content_type(s.subrange(0, i as int), req),
            streaming == streams(s.subrange(0, i as int), req),
            opt_text(preset) == preset_encoding(s.subrange(0, i as int), req),
        decreases s.len() - i,
    {
        let ghost sub = s.subrange(0, i + 1);
        assert(sub.drop_last() =~= s.subrange(0, i as int));
        assert(sub.last() == s[i as int]);
        let key = entries[i].0.as_str();
        let value = entries[i].1.as_str();
        let echoed = match request {
            Some(rq) => request_metadata_matches(rq, key, value),
            None => false,
        };
        let is_ct = eq_ignore_ascii_case(key, "content-type");
        let is_ce = eq_ignore_ascii_case(key, "content-encoding");
        let is_te = eq_ignore_ascii_case(key, "transfer-encoding");
        let is_cl = eq_ignore_ascii_case(key, "content-length");
        proof {
            reveal_strlit("content-type");
            reveal_strlit("content-encoding");
            reveal_strlit("transfer-encoding");
            reveal_strlit("content-length");
            assert(lower_seq("content-type"@).len() == 12);
            assert(lower_seq("content-encoding"@).len() == 16);
            assert(lower_seq("transfer-encoding"@).len() == 17);
        }
        let looked_at = !str_eq(key, HTTP_STATUS_CODE) && !is_source_metadata_key(key) && (is_ct || !echoed);
        assert(looked_at == considered(key@, value@, req));
        if looked_at {
            if is_ct {
                has_ct = true;
                if contains_str(value, "text/event-stream") {
                    streaming = true;
                }
            } else if is_te && contains_str(value, "chunked") {
                streaming = true;
            } else if is_ce && !eq_ignore_ascii_case(trim(value), "identity") {
                preset = Some(entries[i].1.clone());
            }
            if !is_ce && !is_te && !is_cl {
                headers.push((entries[i].0.clone(), entries[i].1.clone()));
            }
        }
        proof {
            assert(pair_views(headers@) =~= reply_headers(sub, req));
        }
        i = i + 1;
    }
    assert(s.subrange(0, s.len() as int) =~= s);
    if !has_ct && status == 200 {
        headers.push((String::from_str("content-type"), String::from_str("application/octet-stream")));
        proof {
            reveal_strlit("application/octet-stream");
        }
    }
    let CanonicalMessage { payload, metadata: _, message_id: _ } = msg;
    let (body, encoding): (Vec<u8>, Option<String>) = match preset {
        Some(p) => (payload, Some(p)),
        None => match compress_if_needed(payload, method, threshold) {
            Err(e) => {
                return Err(ResponseError::Codec(e));
            },
            Ok((b, token)) => (b, match token {
                Some(t) => Some(String::from_str(t)),
                None => None,
            }),
        },
    };
    match &encoding {
        Some(e) => {
            headers.push((String::from_str("Content-Encoding"), e.clone()));
            proof {
                reveal_strlit("Content-Encoding");
            }
        },
        None => {},
    }
    append_headers(&mut headers, custom_headers);
    assert(pair_views(headers@) =~= reply_plan(m0, req, pair_views(custom_headers@), opt_text(encoding)));
    if !all_headers_valid(&headers) {
        return Err(ResponseError::InvalidHeader);
    }
    Ok(ResponsePlan { status, headers, body, streaming })
}

/// Whether the request carries a header named `name`, in any case.
pub open spec fn has_header(hs: Seq<(String, Option<String>)>, name: Seq<char>) -> bool {
    first_header(hs, name) is Some
}

/// Whether a route that only echoes may answer straight from the request's headers: it
/// echoes, does not stream, and the request declares no content or transfer encoding, no
/// status override, and no event-stream content type.
pub open spec fn echo_fast_path(inline_echo: bool, receive_streamable: bool, hs: Seq<(String, Option<String>)>) -> bool {
    &&& inline_echo
    &&& !receive_streamable
    &&& !has_header(hs, "content-encoding"@)
    &&& !has_header(hs, "transfer-encoding"@)
    &&& !has_header(hs, HTTP_STATUS_CODE@)
    &&& !(first_header(hs, "content-type"@) matches Some(Some(v)) && contains_seq(v, "text/event-stream"@))
}

/// Whether the echo fast path applies (see [`echo_fast_path`]).
pub fn inline_echo_fast_path_applies(
    inline_echo: bool,
    receive_streamable: bool,
    headers: &Vec<(String, Option<String>)>,
) -> (r: bool)
    ensures
        r == echo_fast_path(inline_echo, receive_streamable, headers@),
{
    if !inline_echo || receive_streamable {
        return false;
    }
    if find_header(headers, "content-encoding").is_some() || find_header(headers, "transfer-encoding").is_some()
        || find_header(headers, HTTP_STATUS_CODE).is_some() {
        return false;
    }
    match find_header(headers, "content-type") {
        Some(Some(v)) => !contains_str(v.as_str(), "text/event-stream"),
        _ => true,
    }
}

/// The echo answer: 200, the request's content type (or `application/octet-stream`), the
/// body as [`compress_if_needed`] leaves it with its `Content-Encoding`, then the route's
/// custom headers.
pub fn inline_echo_response(
    request_content_type: Option<&str>,
    body: Vec<u8>,
    response_compression: Compression,
    compression_threshold_bytes: usize,
    custom_headers: &Vec<(String, String)>,
) -> (r: Result<ResponsePlan, CodecError>)
    ensures
        !compresses(response_compression, body@.len(), compression_threshold_bytes) ==> r is Ok,
        match r {
            Ok(p) => {
                let (out, token) = if compresses(response_compression, body@.len(), compression_threshold_bytes)
                    && encoding_of(response_compression, body@).len() < body@.len() {
                    (encoding_of(response_compression, body@), Some(token_of(response_compression)))
                } else {
                    (body@, None)
                };
                let ct = match request_content_type {
                    Some(c) => c@,
                    None => "application/octet-stream"@,
                };
                let head = seq![("content-type"@, ct)];
                &&& p.status == 200
                &&& p.body@ == out
                &&& pair_views(p.headers@) == (match token {
                    Some(t) => head.push(("Content-Encoding"@, t)),
                    None => head,
                }) + pair_views(custom_headers@)
                &&& !p.streaming
            },
            Err(_) => false,
        },
{
    let mut headers: Vec<(String, String)> = Vec::new();
    let ct = match request_content_type {
        Some(c) => String::from_str(c),
        None => String::from_str("application/octet-stream"),
    };
    headers.push((String::from_str("content-type"), ct));
    proof {
        reveal_strlit("content-type");
        reveal_strlit("application/octet-stream");
        reveal_strlit("Content-Encoding");
    }
    let (out, token) = compress_if_needed(body, response_compression, compression_threshold_bytes)?;
    match token {
        Some(t) => {
            headers.push((String::from_str("Content-Encoding"), String::from_str(t)));
        },
        None => {},
    }
    append_headers(&mut headers, custom_headers);
    Ok(ResponsePlan { status: 200, headers, body: out, streaming: false })
}

/// The 202 a fire-and-forget route answers once the pipeline has the request.
pub fn fire_and_forget_response(custom_headers: &Vec<(String, String)>) -> (r: ResponsePlan)
    ensures
        r.status == 202,
        pair_views(r.headers@) == pair_views(custom_headers@),
        r.body@ == encode_utf8("Message accepted for processing"@),
        !r.streaming,
{
    proof {
        reveal_strlit("Message accepted for processing");
    }
    accepted_response("Message accepted for processing", custom_headers)
}

/// How long a request may wait to be handed to the pipeline, in nanoseconds: half the
/// request timeout, at most two seconds.
pub fn send_timeout_nanos(request_timeout_ms: u64) -> (r: u128)
    ensures
        r == if request_timeout_ms * 1_000_000 / 2 < 2_000_000_000 {
            request_timeout_ms * 1_000_000 / 2
        } else {
            2_000_000_000
        },
{
    let half: u128 = (request_timeout_ms as u128) * 1_000_000 / 2;
    if half < 2_000_000_000 {
        half
    } else {
        2_000_000_000
    }
}

/// No header a reply's own metadata becomes names source provenance (`mqb.src.*`): what a
/// request carried under that prefix, credentials among it, never leaves in a response.
pub proof fn lemma_reply_headers_drop_provenance(
    s: Seq<(String, String)>,
    req: Option<(RequestLine, Seq<(String, Option<String>)>)>,
)
    ensures
        forall|i: int| 0 <= i < reply_headers(s, req).len() ==> !is_source_key(#[trigger] reply_headers(s, req)[i].0),
    decreases s.len(),
{
    if s.len() > 0 {
        lemma_reply_headers_drop_provenance(s.drop_last(), req);
        let rest = reply_headers(s.drop_last(), req);
        let all = reply_headers(s, req);
        assert forall|i: int| 0 <= i < all.len() implies !is_source_key(#[trigger] all[i].0) by {
            if i < rest.len() {
                assert(all[i] == rest[i]);
            }
        }
    }
}

} // verus!
