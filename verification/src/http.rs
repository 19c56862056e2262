//! The request-side rules of the HTTP endpoint: what a handler reads from a request
//! message, which request headers are credentials, how a listener path is written, and how
//! Basic authentication is configured and checked.
use crate::digits::{decimal, decimal_u64, parse_i64, parse_i64_text};
use crate::message::CanonicalMessage;
use crate::text::{
    bytes_text, lossy_text,
    contains_seq, contains_str, eq_ignore_ascii_case, find_seq, has_prefix, is_ws, lower_seq,
    split_char, split_once, split_seq, starts_with, str_eq, str_views, strip_prefix,
    to_ascii_lowercase, trim, trim_back, trim_front, trim_seq,
};
use base64::Engine;
use vstd::prelude::*;
use vstd::string::*;

verus! {

/// Metadata key holding the request method (e.g. `GET`).
pub const HTTP_METHOD: &'static str = "http_method";

/// Metadata key holding the request path (e.g. `/users`).
pub const HTTP_PATH: &'static str = "http_path";

/// Metadata key holding the raw request query string, without the leading `?`.
pub const HTTP_QUERY: &'static str = "http_query";

/// Metadata key holding the negotiated HTTP version (e.g. `HTTP/1.1`).
pub const HTTP_VERSION: &'static str = "http_version";

/// Metadata key that, when set on a reply, overrides the response status code.
pub const HTTP_STATUS_CODE: &'static str = "http_status_code";

/// Metadata namespace for credential-bearing request headers, e.g.
/// `mqb.src.http_authorization`, keeping the header name verbatim after the prefix. It sits
/// under the source-provenance prefix, which no publisher forwards.
pub const SENSITIVE_HEADER_METADATA_PREFIX: &'static str = "mqb.src.http_";

/// The value `m` holds under `key`, or the empty string.
pub open spec fn text_or_empty(m: Map<Seq<char>, Seq<char>>, key: Seq<char>) -> Seq<char> {
    if m.contains_key(key) {
        m[key]
    } else {
        Seq::empty()
    }
}

/// A `key=value` piece split at its first `=`.
pub open spec fn pair_of(piece: Seq<char>) -> Option<(Seq<char>, Seq<char>)> {
    match find_seq(piece, seq!['=']) {
        Some(i) => Some((piece.subrange(0, i), piece.subrange(i + 1, piece.len() as int))),
        None => None,
    }
}

/// The value of the first of `pieces` whose key is exactly `key`.
pub open spec fn first_param(pieces: Seq<Seq<char>>, key: Seq<char>) -> Option<Seq<char>>
    decreases pieces.len(),
{
    if pieces.len() == 0 {
        None
    } else {
        match pair_of(pieces[0]) {
            Some((k, v)) => if k == key {
                Some(v)
            } else {
                first_param(pieces.drop_first(), key)
            },
            None => first_param(pieces.drop_first(), key),
        }
    }
}

/// The raw value of the query parameter `key` in the query string `q`.
pub open spec fn query_value(q: Seq<char>, key: Seq<char>) -> Option<Seq<char>> {
    first_param(split_seq(q, '&'), key)
}

/// `s` with every leading `p` taken off, as `str::trim_start_matches` leaves it.
pub open spec fn strip_all_prefix(s: Seq<char>, p: Seq<char>) -> Seq<char>
    decreases s.len(),
{
    if p.len() > 0 && has_prefix(s, p) {
        strip_all_prefix(s.subrange(p.len() as int, s.len() as int), p)
    } else {
        s
    }
}

/// `s` with every leading `p` taken off.
pub fn trim_start_matches<'a>(s: &'a str, p: &str) -> (r: &'a str)
    ensures
        r@ == strip_all_prefix(s@, p@),
{
    if p.unicode_len() == 0 {
        return s;
    }
    let mut rest: &'a str = s;
    while starts_with(rest, p)
        invariant
            p@.len() > 0,
            strip_all_prefix(s@, p@) == strip_all_prefix(rest@, p@),
        decreases rest@.len(),
    {
        let n = rest.unicode_len();
        let m = p.unicode_len();
        rest = rest.substring_char(m, n);
    }
    rest
}

/// The view of an optional string slice.
pub open spec fn opt_str_view(s: Option<&str>) -> Option<Seq<char>> {
    match s {
        Some(x) => Some(x@),
        None => None,
    }
}

/// Reads the request line and headers a handler receives from an HTTP consumer, which
/// exposes them as message metadata.
pub trait HttpRequestExt {
    /// The request method, or `""` if absent.
    fn http_method(&self) -> &str;

    /// The request path, or `""` if absent.
    fn http_path(&self) -> &str;

    /// The raw query string (no leading `?`), or `""` if absent.
    fn http_query(&self) -> &str;

    /// The raw, still-percent-encoded value of a query parameter, if present.
    fn query_param(&self, key: &str) -> Option<&str>;

    /// A query parameter parsed as an `i64`, if present and numeric.
    fn query_int(&self, key: &str) -> Option<i64>;

    /// Whether the client advertised `Accept-Encoding: gzip`.
    fn accepts_gzip(&self) -> bool;
}

fn text_under<'a>(m: &'a CanonicalMessage, key: &str) -> (r: &'a str)
    ensures
        r@ == text_or_empty(m.metadata@, key@),
{
    proof {
        reveal_strlit("");
    }
    match m.metadata.get(key) {
        Some(v) => v.as_str(),
        None => "",
    }
}

impl HttpRequestExt for CanonicalMessage {
    fn http_method(&self) -> (r: &str)
        ensures
            r@ == text_or_empty(self.metadata@, HTTP_METHOD@),
    {
        text_under(self, HTTP_METHOD)
    }

    fn http_path(&self) -> (r: &str)
        ensures
            r@ == text_or_empty(self.metadata@, HTTP_PATH@),
    {
        text_under(self, HTTP_PATH)
    }

    fn http_query(&self) -> (r: &str)
        ensures
            r@ == text_or_empty(self.metadata@, HTTP_QUERY@),
    {
        text_under(self, HTTP_QUERY)
    }

    fn query_param(&self, key: &str) -> (r: Option<&str>)
        ensures
            opt_str_view(r) == query_value(text_or_empty(self.metadata@, HTTP_QUERY@), key@),
    {
        let query = text_under(self, HTTP_QUERY);
        let pieces = split_char(query, '&');
        let ghost all = str_views(pieces@);
        let mut i: usize = 0;
        proof {
            reveal_strlit("=");
            assert(all.subrange(0, all.len() as int) =~= all);
        }
        while i < pieces.len()
            invariant
                all == str_views(pieces@),
                all == split_seq(query@, '&'),
                query@ == text_or_empty(self.metadata@, HTTP_QUERY@),
                "="@ == seq!['='],
                i <= pieces@.len(),
                first_param(all, key@) == first_param(all.subrange(i as int, all.len() as int), key@),
            decreases pieces@.len() - i,
        {
            let ghost rest = all.subrange(i as int, all.len() as int);
            assert(rest[0] == pieces@[i as int]@);
            assert(rest.drop_first() =~= all.subrange(i + 1, all.len() as int));
            match split_once(pieces[i], "=") {
                Some((k, v)) => {
                    if str_eq(k, key) {
                        assert(pair_of(rest[0]) == Some((k@, v@)));
                        assert(first_param(rest, key@) == Some(v@));
                        return Some(v);
                    }
                },
                None => {},
            }
            i = i + 1;
        }
        None
    }

    fn query_int(&self, key: &str) -> (r: Option<i64>)
        ensures
            r == match query_value(text_or_empty(self.metadata@, HTTP_QUERY@), key@) {
                Some(v) => parse_i64(v),
                None => None,
            },
    {
        match self.query_param(key) {
            Some(v) => parse_i64_text(v),
            None => None,
        }
    }

    fn accepts_gzip(&self) -> (r: bool)
        ensures
            r == (self.metadata@.contains_key("accept-encoding"@) && contains_seq(
                lower_seq(self.metadata@["accept-encoding"@]),
                "gzip"@,
            )),
    {
        match self.metadata.get("accept-encoding") {
            Some(v) => {
                let lower = to_ascii_lowercase(v.as_str());
                contains_str(lower.as_str(), "gzip")
            },
            None => false,
        }
    }
}

/// A listener path as configured: trimmed, empty meaning none, and rooted at `/`.
pub open spec fn normalized_path(path: Option<Seq<char>>) -> Option<Seq<char>> {
    match path {
        None => None,
        Some(p) => {
            let t = trim_seq(p);
            if t.len() == 0 {
                None
            } else if t[0] == '/' {
                Some(t)
            } else {
                Some(seq!['/'] + t)
            }
        },
    }
}

/// Trims `path`, treats an empty path as none, and roots it at `/`.
pub fn normalize_http_path(path: Option<&str>) -> (r: Option<String>)
    ensures
        match r {
            Some(s) => normalized_path(opt_str_view(path)) == Some(s@),
            None => normalized_path(opt_str_view(path)) is None,
        },
{
    match path {
        None => None,
        Some(p) => {
            let t = trim(p);
            let n = t.unicode_len();
            if n == 0 {
                None
            } else if t.get_char(0) == '/' {
                Some(String::from_str(t))
            } else {
                let mut out = String::from_str("/");
                out.append(t);
                proof {
                    reveal_strlit("/");
                }
                Some(out)
            }
        },
    }
}

proof fn lemma_trim_front_shape(s: Seq<char>)
    ensures
        trim_front(s).len() == 0 || !is_ws(trim_front(s)[0]),
    decreases s.len(),
{
    if s.len() > 0 && is_ws(s[0]) {
        lemma_trim_front_shape(s.drop_first());
    }
}

proof fn lemma_trim_back_shape(s: Seq<char>)
    ensures
        trim_back(s).len() <= s.len(),
        trim_back(s) == s.subrange(0, trim_back(s).len() as int),
        trim_back(s).len() == 0 || !is_ws(trim_back(s).last()),
    decreases s.len(),
{
    if s.len() > 0 && is_ws(s.last()) {
        lemma_trim_back_shape(s.drop_last());
        assert(s.drop_last().subrange(0, trim_back(s).len() as int) =~= s.subrange(
            0,
            trim_back(s).len() as int,
        ));
    } else {
        assert(s.subrange(0, s.len() as int) =~= s);
    }
}

proof fn lemma_trimmed_shape(s: Seq<char>)
    ensures
        trim_seq(s).len() == 0 || (!is_ws(trim_seq(s)[0]) && !is_ws(trim_seq(s).last())),
{
    let u = trim_front(s);
    lemma_trim_front_shape(s);
    lemma_trim_back_shape(u);
    let t = trim_back(u);
    if t.len() > 0 {
        assert(t[0] == u.subrange(0, t.len() as int)[0]);
    }
}

proof fn lemma_trim_keeps_trimmed(x: Seq<char>)
    requires
        x.len() == 0 || (!is_ws(x[0]) && !is_ws(x.last())),
    ensures
        trim_seq(x) == x,
{
}

/// Normalizing a listener path twice is normalizing it once.
pub proof fn lemma_normalize_path_idempotent(path: Option<Seq<char>>)
    ensures
        normalized_path(normalized_path(path)) == normalized_path(path),
{
    if let Some(p) = path {
        let t = trim_seq(p);
        lemma_trimmed_shape(p);
        if t.len() > 0 {
            if t[0] == '/' {
                lemma_trim_keeps_trimmed(t);
            } else {
                let x = seq!['/'] + t;
                assert(x[0] == '/');
                assert(x.last() == t.last());
                lemma_trim_keeps_trimmed(x);
            }
        }
    }
}

/// Whether two names are equal ignoring ASCII case.
pub open spec fn same_ignoring_case(a: Seq<char>, b: Seq<char>) -> bool {
    lower_seq(a) == lower_seq(b)
}

/// Whether a request header carries credentials: such headers reach metadata under
/// [`SENSITIVE_HEADER_METADATA_PREFIX`] rather than under their own name.
pub open spec fn is_sensitive_header(name: Seq<char>) -> bool {
    ||| same_ignoring_case(name, "authorization"@)
    ||| same_ignoring_case(name, "proxy-authorization"@)
    ||| same_ignoring_case(name, "cookie"@)
    ||| same_ignoring_case(name, "set-cookie"@)
    ||| same_ignoring_case(name, "x-api-key"@)
    ||| same_ignoring_case(name, "x-auth-token"@)
}

/// Whether a request header carries credentials (see [`is_sensitive_header`]).
pub fn is_sensitive_request_header(name: &str) -> (r: bool)
    ensures
        r == is_sensitive_header(name@),
{
    eq_ignore_ascii_case(name, "authorization") || eq_ignore_ascii_case(name, "proxy-authorization")
        || eq_ignore_ascii_case(name, "cookie") || eq_ignore_ascii_case(name, "set-cookie")
        || eq_ignore_ascii_case(name, "x-api-key") || eq_ignore_ascii_case(name, "x-auth-token")
}

/// Whether a header list sets `content-type`, in any case.
pub fn has_content_type_header(headers: &Vec<(String, String)>) -> (r: bool)
    ensures
        r == exists|i: int|
            0 <= i < headers@.len() && same_ignoring_case(
                #[trigger] headers@[i].0@,
                "content-type"@,
            ),
{
    let mut i: usize = 0;
    while i < headers.len()
        invariant
            i <= headers@.len(),
            forall|k: int|
                0 <= k < i ==> !same_ignoring_case(#[trigger] headers@[k].0@, "content-type"@),
        decreases headers@.len() - i,
    {
        if eq_ignore_ascii_case(headers[i].0.as_str(), "content-type") {
            return true;
        }
        i = i + 1;
    }
    false
}

/// Byte-slice equality that compares every byte whatever the first mismatch, so its timing
/// does not tell how many leading bytes of a secret matched.
pub fn constant_time_eq(a: &[u8], b: &[u8]) -> (r: bool)
    ensures
        r == (a@ == b@),
{
    if a.len() != b.len() {
        return false;
    }
    let mut diff: u8 = 0;
    let mut i: usize = 0;
    while i < a.len()
        invariant
            a@.len() == b@.len(),
            i <= a@.len(),
            (diff == 0) == (forall|k: int| 0 <= k < i ==> a@[k] == b@[k]),
        decreases a@.len() - i,
    {
        let x = a[i];
        let y = b[i];
        let d = diff;
        assert(((d | (x ^ y)) == 0) == (d == 0 && x == y)) by (bit_vector);
        diff = d | (x ^ y);
        i = i + 1;
    }
    assert((diff == 0) ==> a@ =~= b@);
    diff == 0
}

/// The credentials Basic authentication is configured with, where any is set.
pub open spec fn configured_credentials(basic_auth: Option<&(String, String)>) -> Option<
    (Seq<char>, Seq<char>),
> {
    match basic_auth {
        Some(pair) => if pair.0@.len() == 0 && pair.1@.len() == 0 {
            None
        } else {
            Some((pair.0@, pair.1@))
        },
        None => None,
    }
}

/// The configured Basic credentials; a user and password both empty mean none.
pub fn configured_basic_auth(basic_auth: Option<&(String, String)>) -> (r: Option<(&str, &str)>)
    ensures
        match r {
            Some((u, p)) => configured_credentials(basic_auth)
                == Some((u@, p@)),
            None => configured_credentials(basic_auth) is None,
        },
{
    match basic_auth {
        Some(pair) => {
            let username = pair.0.as_str();
            let password = pair.1.as_str();
            if username.unicode_len() == 0 && password.unicode_len() == 0 {
                None
            } else {
                Some((username, password))
            }
        },
        None => None,
    }
}

/// The standard base64 text of `data`.
pub uninterp spec fn base64_text(data: Seq<u8>) -> Seq<char>;

/// The bytes the standard base64 text `text` decodes to, or `None` where it is not valid.
pub uninterp spec fn base64_bytes(text: Seq<char>) -> Option<Seq<u8>>;

/// Encodes `data` as standard, padded base64.
///
/// Calls `base64::engine::general_purpose::STANDARD.encode`; the text is named by
/// [`base64_text`], a function of the bytes alone.
#[verifier::external_body]
fn base64_encode(data: &[u8]) -> (r: String)
    ensures
        r@ == base64_text(data@),
{
    base64::engine::general_purpose::STANDARD.encode(data)
}

/// Decodes standard, padded base64.
///
/// Calls `base64::engine::general_purpose::STANDARD.decode`; its answer is named by
/// [`base64_bytes`], a function of the text alone.
#[verifier::external_body]
fn base64_decode(text: &str) -> (r: Option<Vec<u8>>)
    ensures
        match r {
            Some(v) => base64_bytes(text@) == Some(v@),
            None => base64_bytes(text@) is None,
        },
{
    base64::engine::general_purpose::STANDARD.decode(text).ok()
}

/// The text of UTF-8 `bytes`, where they are valid UTF-8.
///
/// Calls `String::from_utf8`, which accepts exactly the valid UTF-8 byte sequences and
/// keeps the characters they encode.
#[verifier::external_body]
fn utf8_text(bytes: Vec<u8>) -> (r: Option<String>)
    ensures
        r is Some == vstd::utf8::valid_utf8(bytes@),
        r matches Some(s) ==> s@ == vstd::utf8::decode_utf8(bytes@),
{
    String::from_utf8(bytes).ok()
}

/// The `Authorization` value that carries base64 `encoded_credentials`.
pub fn basic_auth_header(encoded_credentials: &str) -> (r: String)
    ensures
        r@ == "Basic "@ + encoded_credentials@,
{
    let mut out = String::from_str("Basic ");
    out.append(encoded_credentials);
    out
}

/// The `Authorization` header value for configured Basic credentials.
pub fn basic_auth_header_value(basic_auth: Option<&(String, String)>) -> (r: Option<String>)
    ensures
        match configured_credentials(basic_auth) {
            Some((u, p)) => r matches Some(v) && v@ == "Basic "@ + base64_text(
                vstd::utf8::encode_utf8(u + ":"@ + p),
            ),
            None => r is None,
        },
{
    match configured_basic_auth(basic_auth) {
        None => None,
        Some((username, password)) => {
            let mut credentials = String::from_str(username);
            credentials.append(":");
            credentials.append(password);
            let encoded = base64_encode(credentials.as_str().as_bytes());
            Some(basic_auth_header(encoded.as_str()))
        },
    }
}

/// How much of a failed response's body an error message quotes, in bytes.
pub const MAX_ERROR_BODY_EXCERPT_BYTES: usize = 2048;

/// Whether `b` continues a multi-byte UTF-8 character (`0b10xxxxxx`).
pub open spec fn is_continuation_byte(b: u8) -> bool {
    b & 0xC0u8 == 0x80u8
}

/// `end`, moved back past continuation bytes so that a cut there lands between characters.
pub open spec fn cut_back(body: Seq<u8>, end: nat) -> nat
    decreases end,
{
    if end > 0 && is_continuation_byte(body[end as int]) {
        cut_back(body, (end - 1) as nat)
    } else {
        end
    }
}

/// The quote of a response body in an error message: all of it if short, else its leading
/// bytes up to a character boundary and how many bytes were left out.
pub open spec fn body_excerpt(body: Seq<u8>) -> Seq<char> {
    if body.len() <= MAX_ERROR_BODY_EXCERPT_BYTES {
        bytes_text(body)
    } else {
        let end = cut_back(body, MAX_ERROR_BODY_EXCERPT_BYTES as nat);
        bytes_text(body.subrange(0, end as int)) + "... ("@ + decimal((body.len() - end) as nat)
            + " bytes truncated)"@
    }
}

/// Renders the leading bytes of a response body for an error message, truncating on a UTF-8
/// character boundary so a multi-byte character is never split.
pub fn error_body_excerpt(body: &[u8]) -> (r: String)
    ensures
        r@ == body_excerpt(body@),
{
    if body.len() <= MAX_ERROR_BODY_EXCERPT_BYTES {
        return lossy_text(body);
    }
    let mut end: usize = MAX_ERROR_BODY_EXCERPT_BYTES;
    while end > 0 && body[end] & 0xC0u8 == 0x80u8
        invariant
            end <= MAX_ERROR_BODY_EXCERPT_BYTES,
            body@.len() > MAX_ERROR_BODY_EXCERPT_BYTES,
            cut_back(body@, MAX_ERROR_BODY_EXCERPT_BYTES as nat) == cut_back(body@, end as nat),
        decreases end,
    {
        end = end - 1;
    }
    let mut head: Vec<u8> = Vec::new();
    let mut i: usize = 0;
    while i < end
        invariant
            end <= MAX_ERROR_BODY_EXCERPT_BYTES < body@.len(),
            i <= end,
            head@ == body@.subrange(0, i as int),
        decreases end - i,
    {
        head.push(body[i]);
        i = i + 1;
        assert(head@ =~= body@.subrange(0, i as int));
    }
    let mut out = lossy_text(head.as_slice());
    out.append("... (");
    let dropped = decimal_u64((body.len() - end) as u64);
    out.append(dropped.as_str());
    out.append(" bytes truncated)");
    out
}

/// What a request carried under `authorization`.
#[derive(Debug)]
pub enum AuthHeader {
    /// No such header.
    Missing,
    /// A value that is not visible ASCII text.
    NotText,
    /// A text value.
    Text(String),
}

/// Why a request is refused by Basic authentication.
#[derive(Debug, Clone, Copy, PartialEq, Eq, Structural)]
pub enum AuthRejection {
    /// No `authorization` header.
    MissingHeader,
    /// The header, or the credentials it encodes, is not text.
    InvalidHeaderEncoding,
    /// The header does not start with `Basic `.
    MissingBasicScheme,
    /// What follows `Basic ` is not base64.
    InvalidBase64,
    /// The user or the password does not match.
    InvalidCredentials,
}

impl AuthRejection {
    /// The response status: 400 for a malformed header, else 401.
    pub open spec fn status_code(self) -> u16 {
        if self == AuthRejection::InvalidHeaderEncoding || self == AuthRejection::InvalidBase64 {
            400u16
        } else {
            401u16
        }
    }

    /// Whether the response tells the client how to authenticate (`WWW-Authenticate`).
    pub open spec fn challenges_client(self) -> bool {
        self == AuthRejection::MissingHeader || self == AuthRejection::MissingBasicScheme
    }

    /// The response body.
    pub open spec fn message_text(self) -> Seq<char> {
        match self {
            AuthRejection::MissingHeader => "Missing authorization header"@,
            AuthRejection::InvalidHeaderEncoding => "Invalid authorization header encoding"@,
            AuthRejection::MissingBasicScheme => "Missing Basic authentication scheme"@,
            AuthRejection::InvalidBase64 => "Invalid base64 encoding in authorization header"@,
            AuthRejection::InvalidCredentials => "Invalid credentials"@,
        }
    }

    /// The response status (see [`AuthRejection::status_code`]).
    pub fn status(&self) -> (r: u16)
        ensures
            r == self.status_code(),
    {
        match self {
            AuthRejection::InvalidHeaderEncoding | AuthRejection::InvalidBase64 => 400,
            _ => 401,
        }
    }

    /// Whether the response carries the challenge (see [`AuthRejection::challenges_client`]).
    pub fn challenges(&self) -> (r: bool)
        ensures
            r == self.challenges_client(),
    {
        match self {
            AuthRejection::MissingHeader | AuthRejection::MissingBasicScheme => true,
            _ => false,
        }
    }

    /// The response body (see [`AuthRejection::message_text`]).
    pub fn message(&self) -> (r: &'static str)
        ensures
            r@ == self.message_text(),
    {
        match self {
            AuthRejection::MissingHeader => "Missing authorization header",
            AuthRejection::InvalidHeaderEncoding => "Invalid authorization header encoding",
            AuthRejection::MissingBasicScheme => "Missing Basic authentication scheme",
            AuthRejection::InvalidBase64 => "Invalid base64 encoding in authorization header",
            AuthRejection::InvalidCredentials => "Invalid credentials",
        }
    }
}

/// The challenge header a 401 carries: `WWW-Authenticate: Basic realm="mq-bridge"`.
pub fn basic_auth_challenge_headers() -> (r: Vec<(String, String)>)
    ensures
        r@.len() == 1,
        r@[0].0@ == "WWW-Authenticate"@,
        r@[0].1@ == "Basic realm=\"mq-bridge\""@,
{
    let mut headers: Vec<(String, String)> = Vec::new();
    headers.push(
        (String::from_str("WWW-Authenticate"), String::from_str("Basic realm=\"mq-bridge\"")),
    );
    headers
}

/// The user and password in decoded Basic credentials: split at the first `:`, both empty
/// where there is none.
pub open spec fn credentials_of(text: Seq<char>) -> (Seq<char>, Seq<char>) {
    match find_seq(text, seq![':']) {
        Some(i) => (text.subrange(0, i), text.subrange(i + 1, text.len() as int)),
        None => (Seq::empty(), Seq::empty()),
    }
}

/// What decoded credentials get: `decoded` is what the base64 after `Basic ` decoded to.
pub open spec fn credentials_verdict(
    expected: (Seq<char>, Seq<char>),
    decoded: Option<Seq<u8>>,
) -> Result<(), AuthRejection> {
    match decoded {
        None => Err(AuthRejection::InvalidBase64),
        Some(bytes) => if !vstd::utf8::valid_utf8(bytes) {
            Err(AuthRejection::InvalidHeaderEncoding)
        } else {
            let (user, pass) = credentials_of(vstd::utf8::decode_utf8(bytes));
            if user == expected.0 && pass == expected.1 {
                Ok(())
            } else {
                Err(AuthRejection::InvalidCredentials)
            }
        },
    }
}

/// What a request gets from Basic authentication configured as `basic_auth`.
pub open spec fn auth_verdict(basic_auth: Option<&(String, String)>, header: AuthHeader) -> Result<
    (),
    AuthRejection,
> {
    match configured_credentials(basic_auth) {
        None => Ok(()),
        Some(expected) => match header {
            AuthHeader::Missing => Err(AuthRejection::MissingHeader),
            AuthHeader::NotText => Err(AuthRejection::InvalidHeaderEncoding),
            AuthHeader::Text(v) => if has_prefix(v@, "Basic "@) {
                credentials_verdict(
                    expected,
                    base64_bytes(v@.subrange("Basic "@.len() as int, v@.len() as int)),
                )
            } else {
                Err(AuthRejection::MissingBasicScheme)
            },
        },
    }
}

proof fn lemma_utf8_injective(a: Seq<char>, b: Seq<char>)
    ensures
        (vstd::utf8::encode_utf8(a) == vstd::utf8::encode_utf8(b)) == (a == b),
{
    vstd::utf8::encode_utf8_decode_utf8(a);
    vstd::utf8::encode_utf8_decode_utf8(b);
}

/// Judges decoded Basic credentials against the expected user and password, comparing each
/// in constant time. `decoded` is what the base64 after `Basic ` decoded to, if it did.
pub fn judge_credentials(expected_user: &str, expected_pass: &str, decoded: Option<Vec<u8>>) -> (r:
    Result<(), AuthRejection>)
    ensures
        r == credentials_verdict(
            (expected_user@, expected_pass@),
            match decoded {
                Some(v) => Some(v@),
                None => None,
            },
        ),
{
    let bytes = match decoded {
        None => {
            return Err(AuthRejection::InvalidBase64);
        },
        Some(b) => b,
    };
    let ghost raw = bytes@;
    let text = match utf8_text(bytes) {
        None => {
            return Err(AuthRejection::InvalidHeaderEncoding);
        },
        Some(t) => t,
    };
    let (user, pass) = match split_once(text.as_str(), ":") {
        Some((u, p)) => (u, p),
        None => ("", ""),
    };
    proof {
        reveal_strlit(":");
        reveal_strlit("");
        assert(":"@ =~= seq![':']);
        assert(""@ =~= Seq::<char>::empty());
        lemma_utf8_injective(user@, expected_user@);
        lemma_utf8_injective(pass@, expected_pass@);
    }
    assert(text@ == vstd::utf8::decode_utf8(raw));
    assert(credentials_of(text@) == (user@, pass@));
    let user_ok = constant_time_eq(user.as_bytes(), expected_user.as_bytes());
    let pass_ok = constant_time_eq(pass.as_bytes(), expected_pass.as_bytes());
    assert(user_ok == (user@ == expected_user@));
    assert(pass_ok == (pass@ == expected_pass@));
    if user_ok && pass_ok {
        Ok(())
    } else {
        Err(AuthRejection::InvalidCredentials)
    }
}

/// Checks a request's `authorization` header against Basic authentication configured as
/// `basic_auth`; with no credentials configured every request passes.
pub fn check_basic_auth(basic_auth: Option<&(String, String)>, header: &AuthHeader) -> (r: Result<
    (),
    AuthRejection,
>)
    ensures
        r == auth_verdict(basic_auth, *header),
{
    let (user, pass) = match configured_basic_auth(basic_auth) {
        None => {
            return Ok(());
        },
        Some(pair) => pair,
    };
    match header {
        AuthHeader::Missing => Err(AuthRejection::MissingHeader),
        AuthHeader::NotText => Err(AuthRejection::InvalidHeaderEncoding),
        AuthHeader::Text(v) => match strip_prefix(v.as_str(), "Basic ") {
            None => Err(AuthRejection::MissingBasicScheme),
            Some(encoded) => judge_credentials(user, pass, base64_decode(encoded)),
        },
    }
}

} // verus!
