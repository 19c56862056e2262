//! What a listener does with a request once a route has taken it and a permit is held:
//! authentication first, then the echo shortcut, the streaming path, or reading the body
//! into a message, and the answer for each way the request can end.
use crate::codec::{codec_error_text, decompress_if_needed, decompressed_body, CodecError};
use crate::http::{auth_verdict, check_basic_auth, opt_str_view, AuthHeader, AuthRejection};
use crate::http_server::{
    declared_encoding, headers_into, line_metadata, parse_message_id_header, request_id_from_text,
    request_metadata, RequestLine,
};
use crate::kafka::uuid_value;
use crate::message::{CanonicalMessage, Metadata};
use crate::models::Compression;
use crate::negotiation::{negotiate_response_compression, negotiated, AcceptedCoding};
use crate::response::{
    auth_failure_response, echo_fast_path, failure_response, failure_status, failure_text, find_header,
    first_header, inline_echo_fast_path_applies, pair_views, text_error_headers, text_error_response,
    RequestFailure, ResponsePlan,
};
use crate::router::opt_text;
use crate::text::concat2;
use vstd::prelude::*;
use vstd::string::*;
use vstd::utf8::encode_utf8;

verus! {

/// What a route's listener handles its requests with.
#[derive(Debug)]
pub struct RouteHandling {
    pub basic_auth: Option<(String, String)>,
    /// The header a request's message id is read from.
    pub message_id_header: String,
    pub receive_streamable: bool,
    /// Whether responses are compressed, with the codec the client can best decode.
    pub compression_enabled: bool,
    pub custom_headers: Vec<(String, String)>,
    /// Whether the route only echoes each request back.
    pub inline_echo: bool,
}

/// A request as the listener received it.
#[derive(Debug)]
pub struct IncomingRequest {
    pub line: RequestLine,
    /// Every header, its value where it is text.
    pub headers: Vec<(String, Option<String>)>,
    /// What it carries under `authorization`.
    pub auth: AuthHeader,
    /// The codings its `Accept-Encoding` names.
    pub codings: Vec<AcceptedCoding>,
    /// Whether a plain-text error suits it.
    pub accepts_text: bool,
}

/// What to read the body into.
#[derive(Debug)]
pub struct ReadPlan {
    /// The id the request names for its message, where it names one.
    pub message_id: Option<u128>,
    /// The codec the response is compressed with.
    pub compression: Compression,
    /// The message's metadata.
    pub metadata: Metadata,
    /// The content encoding the request declares.
    pub content_encoding: Option<String>,
}

/// What to do with a request.
#[derive(Debug)]
pub enum Admission {
    /// Answer at once.
    Respond(ResponsePlan),
    /// Echo the body straight back, compressed with this codec.
    Echo(Compression),
    /// Hand the request to the streaming path with this metadata.
    Stream(Metadata),
    /// Read the body into a message.
    Read(ReadPlan),
}

/// The codec a response is compressed with: the best the client can decode where the route
/// compresses, else none.
pub open spec fn response_codec(compression_enabled: bool, codings: Seq<AcceptedCoding>) -> Compression {
    if compression_enabled {
        negotiated(codings)
    } else {
        Compression::Identity
    }
}

/// The message id a request names under `header`: where its first value of that name is
/// text, what it reads as (see [`request_id_from_text`]).
pub open spec fn named_message_id(hs: Seq<(String, Option<String>)>, header: Seq<char>) -> Option<u128> {
    match first_header(hs, header) {
        Some(Some(v)) => request_id_from_text(v, uuid_value(v)),
        _ => None,
    }
}

fn message_id_of(headers: &Vec<(String, Option<String>)>, header: &str) -> (r: Option<u128>)
    ensures
        r == named_message_id(headers@, header@),
{
    match find_header(headers, header) {
        Some(Some(v)) => parse_message_id_header(v.as_str()),
        _ => None,
    }
}

/// What to do with a request a route took: refuse it where Basic authentication does;
/// else echo it where the echo shortcut applies; else, on a streaming route, refuse a
/// compressed request or stream it; else read its body into a message with the id it
/// names, its metadata, and the response codec.
pub fn admission_of(handling: &RouteHandling, request: &IncomingRequest) -> (r: Admission)
    ensures
        ({
            let line = request.line;
            let hs = request.headers@;
            let codec = response_codec(handling.compression_enabled, request.codings@);
            match auth_verdict(
                match handling.basic_auth {
                    Some(ref c) => Some(c),
                    None => None,
                },
                request.auth,
            ) {
                Err(rejection) => r matches Admission::Respond(p) && p.status == rejection.status_code()
                    && p.body@ == encode_utf8(rejection.message_text()) && pair_views(p.headers@)
                    == text_error_headers(
                    request.accepts_text,
                    if rejection.challenges_client() {
                        Some(seq![("WWW-Authenticate"@, "Basic realm=\"mq-bridge\""@)])
                    } else {
                        None
                    },
                ),
                Ok(()) => if echo_fast_path(handling.inline_echo, handling.receive_streamable, hs) {
                    r == Admission::Echo(codec)
                } else if handling.receive_streamable {
                    if declared_encoding(hs) is Some {
                        r matches Admission::Respond(p) && p.status == failure_status(RequestFailure::CompressedStream)
                            && p.body@ == encode_utf8(failure_text(RequestFailure::CompressedStream))
                            && pair_views(p.headers@) == text_error_headers(
                            request.accepts_text,
                            Some(pair_views(handling.custom_headers@)),
                        )
                    } else {
                        r matches Admission::Stream(m) && m@ == headers_into(line_metadata(line), hs)
                    }
                } else {
                    r matches Admission::Read(plan) && plan.message_id == named_message_id(hs, handling.message_id_header@)
                        && plan.compression == codec && plan.metadata@ == headers_into(line_metadata(line), hs)
                        && opt_text(plan.content_encoding) == declared_encoding(hs)
                },
            }
        }),
{
    match check_basic_auth(handling.basic_auth.as_ref(), &request.auth) {
        Err(rejection) => {
            return Admission::Respond(auth_failure_response(rejection, request.accepts_text));
        },
        Ok(()) => {},
    }
    let codec = if handling.compression_enabled {
        negotiate_response_compression(&request.codings)
    } else {
        Compression::Identity
    };
    if inline_echo_fast_path_applies(handling.inline_echo, handling.receive_streamable, &request.headers) {
        return Admission::Echo(codec);
    }
    let message_id = message_id_of(&request.headers, handling.message_id_header.as_str());
    let (metadata, content_encoding) = request_metadata(&request.line, &request.headers);
    if handling.receive_streamable {
        if content_encoding.is_some() {
            return Admission::Respond(
                failure_response(RequestFailure::CompressedStream, request.accepts_text, &handling.custom_headers),
            );
        }
        return Admission::Stream(metadata);
    }
    Admission::Read(ReadPlan { message_id, compression: codec, metadata, content_encoding })
}

/// The message a read body becomes: the body read back through its declared encoding, with
/// the request's metadata and the id it names (a fresh one where it names none); a body
/// that cannot be read back is answered with a 400.
pub fn message_from_body(read: ReadPlan, body: Vec<u8>, accepts_text: bool) -> (r: Result<CanonicalMessage, ResponsePlan>)
    ensures
        match decompressed_body(body@, opt_text(read.content_encoding)) {
            Ok(payload) => r matches Ok(m) && m.payload@ == payload && m.metadata@ == read.metadata@
                && (read.message_id matches Some(id) ==> m.message_id == id),
            Err(e) => r matches Err(p) && p.status == 400
                && p.body@ == encode_utf8("Failed to decompress request body: "@ + codec_error_text(e))
                && pair_views(p.headers@) == text_error_headers(accepts_text, None),
        },
{
    let ReadPlan { message_id, compression: _, metadata, content_encoding } = read;
    let encoding: Option<&str> = match &content_encoding {
        Some(e) => Some(e.as_str()),
        None => None,
    };
    match decompress_if_needed(body, encoding) {
        Ok(payload) => {
            let mut message = CanonicalMessage::new(payload, message_id);
            message.metadata = metadata;
            Ok(message)
        },
        Err(e) => Err(failure_response(RequestFailure::DecompressFailed(e), accepts_text, &Vec::new())),
    }
}

/// The answer to a request whose handling failed inside the listener: a 500 naming the
/// error.
pub fn internal_error_response(error: &str, accepts_text: bool) -> (r: ResponsePlan)
    ensures
        r.status == 500,
        r.body@ == encode_utf8("Internal error: "@ + error@),
        pair_views(r.headers@) == text_error_headers(accepts_text, None),
        !r.streaming,
{
    let text = concat2("Internal error: ", error);
    proof {
        reveal_strlit("Internal error: ");
    }
    text_error_response(500, text.as_str(), accepts_text, None)
}

} // verus!
