//! What an HTTP consumer's configuration becomes before it listens: its route, its limits
//! and defaults, and the custom headers it answers with, checked once so that no response
//! can fail on them later.
use crate::http::{normalize_http_path, normalized_path};
use crate::models::{Compression, HttpConfig};
use crate::response::{all_token_chars, header_name_is_valid, header_value_is_valid, valid_header_name, valid_header_value};
use crate::router::{opt_text, HttpRoute};
use crate::text::concat2;
use vstd::prelude::*;
use vstd::string::*;
use vstd::utf8::encode_utf8;

verus! {

/// Whether `hyper::Method::from_bytes` takes a method name: one or more token characters,
/// matched with their case kept.
pub open spec fn valid_method(name: Seq<char>) -> bool {
    name.len() > 0 && all_token_chars(name)
}

/// Calls `hyper::Method::from_bytes` on the name's bytes, which, as its source shows,
/// accepts a name exactly when it is [`valid_method`]: it refuses an empty name, and its
/// table maps every byte but a token byte to zero, which it refuses.
#[verifier::external_body]
pub(crate) fn method_is_valid(name: &str) -> (r: bool)
    ensures
        r == valid_method(name@),
{
    hyper::Method::from_bytes(name.as_bytes()).is_ok()
}

/// Why a consumer's configuration cannot be used.
#[derive(Debug, PartialEq, Eq)]
pub enum SetupError {
    /// The method is not an HTTP method name.
    InvalidMethod(String),
    /// A custom header's name is not a header name.
    InvalidHeaderName(String),
    /// A custom header's value, under the name given, is not a header value.
    InvalidHeaderValue(String),
}

impl SetupError {
    /// The sentence an error is reported with.
    pub open spec fn message_text(&self) -> Seq<char> {
        match self {
            SetupError::InvalidMethod(m) => "Invalid config.method: '"@ + m@ + "'"@,
            SetupError::InvalidHeaderName(n) => "Invalid custom_headers name '"@ + n@ + "': invalid HTTP header name"@,
            SetupError::InvalidHeaderValue(n) => "Invalid custom_headers value for '"@ + n@ + "': failed to parse header value"@,
        }
    }

    /// The sentence an error is reported with (see [`SetupError::message_text`]).
    pub fn message(&self) -> (r: String)
        ensures
            r@ == self.message_text(),
    {
        proof {
            reveal_strlit("Invalid config.method: '");
            reveal_strlit("'");
            reveal_strlit("Invalid custom_headers name '");
            reveal_strlit("': invalid HTTP header name");
            reveal_strlit("Invalid custom_headers value for '");
            reveal_strlit("': failed to parse header value");
        }
        match self {
            SetupError::InvalidMethod(m) => {
                let mut s = concat2("Invalid config.method: '", m.as_str());
                s.append("'");
                s
            },
            SetupError::InvalidHeaderName(n) => {
                let mut s = concat2("Invalid custom_headers name '", n.as_str());
                s.append("': invalid HTTP header name");
                s
            },
            SetupError::InvalidHeaderValue(n) => {
                let mut s = concat2("Invalid custom_headers value for '", n.as_str());
                s.append("': failed to parse header value");
                s
            },
        }
    }
}

/// The first custom header that cannot be sent, checking each name before its value: the
/// error it gives.
pub open spec fn first_bad_header(hs: Seq<(String, String)>) -> Option<SetupError>
    decreases hs.len(),
{
    if hs.len() == 0 {
        None
    } else if !valid_header_name(hs[0].0@) {
        Some(SetupError::InvalidHeaderName(hs[0].0))
    } else if !valid_header_value(encode_utf8(hs[0].1@)) {
        Some(SetupError::InvalidHeaderValue(hs[0].0))
    } else {
        first_bad_header(hs.drop_first())
    }
}

/// What a consumer runs with.
#[derive(Debug)]
pub struct ConsumerSettings {
    /// The route it registers: its path, rooted, and its method.
    pub route: HttpRoute,
    /// The header a request's message id is read from.
    pub message_id_header: String,
    /// How long a request may take, in milliseconds.
    pub request_timeout_ms: u64,
    /// The smallest body that is compressed.
    pub compression_threshold_bytes: usize,
    /// How many requests may wait for the pipeline.
    pub buffer_size: usize,
    /// How many requests may be read at once.
    pub concurrency_limit: usize,
    pub fire_and_forget: bool,
    pub receive_streamable: bool,
    pub basic_auth: Option<(String, String)>,
    /// Whether responses are compressed.
    pub compression_enabled: bool,
    pub custom_headers: Vec<(String, String)>,
    /// Whether a codec was configured that only a publisher uses, so that the consumer
    /// ignores it.
    pub ignores_codec: bool,
}

/// The error a configuration gives, if any: an invalid method first, then the first
/// custom header that cannot be sent.
pub open spec fn setup_error(config: HttpConfig) -> Option<SetupError> {
    match config.method {
        Some(m) => if !valid_method(m@) {
            Some(SetupError::InvalidMethod(m))
        } else {
            first_bad_header(config.custom_headers@)
        },
        None => first_bad_header(config.custom_headers@),
    }
}

fn check_custom_headers(hs: &Vec<(String, String)>) -> (r: Result<(), SetupError>)
    ensures
        match r {
            Ok(()) => first_bad_header(hs@) is None,
            Err(e) => first_bad_header(hs@) == Some(e),
        },
{
    let n = hs.len();
    let mut i: usize = 0;
    assert(hs@.subrange(0, n as int) =~= hs@);
    while i < n
        invariant
            n == hs@.len(),
            i <= n,
            first_bad_header(hs@) == first_bad_header(hs@.subrange(i as int, n as int)),
        decreases n - i,
    {
        let ghost rest = hs@.subrange(i as int, n as int);
        assert(rest[0] == hs@[i as int]);
        if !header_name_is_valid(hs[i].0.as_str()) {
            return Err(SetupError::InvalidHeaderName(hs[i].0.clone()));
        }
        if !header_value_is_valid(hs[i].1.as_str()) {
            return Err(SetupError::InvalidHeaderValue(hs[i].0.clone()));
        }
        assert(rest.drop_first() =~= hs@.subrange(i + 1, n as int));
        i = i + 1;
    }
    Ok(())
}

/// What a consumer runs with: its path rooted, its method where it is a method name, a
/// message id header (`message-id` unless set), a request timeout (30 s unless set), a
/// compression threshold (1024 bytes unless set), a queue of at least one request (1024
/// unless set), 100 concurrent requests unless set, and its custom headers where every one
/// can be sent. The error is [`setup_error`].
pub fn consumer_settings(config: &HttpConfig) -> (r: Result<ConsumerSettings, SetupError>)
    ensures
        match r {
            Err(e) => setup_error(*config) == Some(e),
            Ok(s) => {
                &&& setup_error(*config) is None
                &&& opt_text(s.route.path) == normalized_path(opt_text(config.path))
                &&& opt_text(s.route.method) == opt_text(config.method)
                &&& s.message_id_header@ == match config.message_id_header {
                    Some(h) => h@,
                    None => "message-id"@,
                }
                &&& s.request_timeout_ms == match config.request_timeout_ms {
                    Some(t) => t,
                    None => 30000u64,
                }
                &&& s.compression_threshold_bytes == match config.compression_threshold_bytes {
                    Some(t) => t,
                    None => 1024usize,
                }
                &&& s.buffer_size == match config.internal_buffer_size {
                    Some(b) => if b == 0 { 1usize } else { b },
                    None => 1024usize,
                }
                &&& s.concurrency_limit == match config.concurrency_limit {
                    Some(c) => c,
                    None => 100usize,
                }
                &&& s.fire_and_forget == config.fire_and_forget
                &&& s.receive_streamable == config.receive_streamable
                &&& s.basic_auth == config.basic_auth
                &&& s.compression_enabled == (config.compression_enabled == Some(true))
                &&& s.custom_headers@ == config.custom_headers@
                &&& s.ignores_codec == (config.compression != Compression::Identity && config.compression_enabled is None)
            },
        },
{
    let method: Option<String> = match &config.method {
        Some(m) => {
            if !method_is_valid(m.as_str()) {
                return Err(SetupError::InvalidMethod(m.clone()));
            }
            Some(m.clone())
        },
        None => None,
    };
    check_custom_headers(&config.custom_headers)?;
    let path = normalize_http_path(match &config.path {
        Some(p) => Some(p.as_str()),
        None => None,
    });
    let message_id_header = match &config.message_id_header {
        Some(h) => h.clone(),
        None => String::from_str("message-id"),
    };
    proof {
        reveal_strlit("message-id");
    }
    let buffer_size: usize = match config.internal_buffer_size {
        Some(b) => if b == 0 { 1 } else { b },
        None => 1024,
    };
    Ok(ConsumerSettings {
        route: HttpRoute { path, method },
        message_id_header,
        request_timeout_ms: match config.request_timeout_ms {
            Some(t) => t,
            None => 30000,
        },
        compression_threshold_bytes: match config.compression_threshold_bytes {
            Some(t) => t,
            None => 1024,
        },
        buffer_size,
        concurrency_limit: match config.concurrency_limit {
            Some(c) => c,
            None => 100,
        },
        fire_and_forget: config.fire_and_forget,
        receive_streamable: config.receive_streamable,
        basic_auth: match &config.basic_auth {
            Some((u, p)) => Some((u.clone(), p.clone())),
            None => None,
        },
        compression_enabled: config.consumer_compression_enabled(),
        custom_headers: crate::models::clone_pairs(&config.custom_headers),
        ignores_codec: config.compression != Compression::Identity && config.compression_enabled.is_none(),
    })
}

} // verus!
