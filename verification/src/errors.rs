//! Why a route configuration is refused.
use crate::text::concat2;
use vstd::prelude::*;
use vstd::string::*;

verus! {

/// What is wrong with a route configuration.
#[derive(Debug, Clone, Copy, PartialEq, Eq, Structural)]
pub enum ErrorKind {
    /// A chain of `ref` inputs is deeper than the limit.
    RefDepthExceeded,
    /// Resolving `ref`s visited more endpoints than the limit.
    ReferenceDepthExceeded,
    /// An output tree is deeper than the limit.
    FanoutDepthExceeded,
    /// An output tree walked for its sinks is deeper than the limit.
    OutputDepthExceeded,
    /// A transport type that the policy list does not allow.
    NotAllowedByPolicy,
    /// A `ref` input names nothing registered.
    RefNotFound,
    /// A `ref` output names neither a registered endpoint nor a registered publisher.
    RefNotInAnyRegistry,
    /// A `ref` in an output tree names nothing registered.
    OutputRefNotFound,
    /// Resolving `ref`s came back to an endpoint already visited.
    CircularReference,
    /// An output tree's `ref`s come back to one already on the path.
    CircularOutputReference,
    /// A type that only works as an output was used as an input.
    OutputOnly,
    /// The type cannot be an input.
    UnsupportedConsumer,
    /// The type cannot be an output.
    UnsupportedPublisher,
    /// A NATS input without a stream.
    NatsStreamMissing,
    /// A stream buffer input without a correlation id.
    StreamBufferCorrelationMissing,
    /// A Postgres CDC input without a publication.
    PostgresPublicationMissing,
    /// A MongoDB snapshot input with a stored cursor.
    MongoSnapshotCursor,
    /// A source-position-named output behind an input that has no replay position.
    SourcePositionUnavailable,
    /// `sqlx` CDC on a URL that is not PostgreSQL.
    SqlxCdcNotPostgres,
    /// `sqlx` with both CDC and a polling cursor.
    SqlxCdcWithCursor,
    /// Building an output followed nested endpoints and `ref`s deeper than the limit.
    PublisherDepthExceeded,
    /// An output `ref` and the endpoint it names both carry a handler.
    AmbiguousHandlers,
}

/// A refused route configuration: what is wrong, the route, and what it concerns (an
/// endpoint name, a type, or a URL; empty when nothing more is named).
#[derive(Debug, Clone)]
pub struct EndpointError {
    pub kind: ErrorKind,
    pub route: String,
    pub subject: String,
}

impl View for EndpointError {
    type V = (ErrorKind, Seq<char>, Seq<char>);

    open spec fn view(&self) -> (ErrorKind, Seq<char>, Seq<char>) {
        (self.kind, self.route@, self.subject@)
    }
}

/// The depth limit on nested and referenced endpoints.
pub const MAX_DEPTH: usize = 16;

/// The error `kind` for `route` concerning `subject`.
pub open spec fn err_view(kind: ErrorKind, route: Seq<char>, subject: Seq<char>) -> (
    ErrorKind,
    Seq<char>,
    Seq<char>,
) {
    (kind, route, subject)
}

/// `[route:<route>] `
pub open spec fn route_tag(route: Seq<char>) -> Seq<char> {
    "[route:"@ + route + "] "@
}

/// The text an error reads as.
pub open spec fn error_text(e: (ErrorKind, Seq<char>, Seq<char>)) -> Seq<char> {
    let (kind, r, s) = e;
    match kind {
        ErrorKind::RefDepthExceeded => "Ref recursion depth exceeded limit of 16"@,
        ErrorKind::ReferenceDepthExceeded => "Reference recursion depth exceeded limit of 16"@,
        ErrorKind::FanoutDepthExceeded => "Fanout recursion depth exceeded limit of 16"@,
        ErrorKind::OutputDepthExceeded => route_tag(r)
            + "output recursion depth exceeded limit of 16"@,
        ErrorKind::NotAllowedByPolicy => route_tag(r) + "Endpoint type '"@ + s
            + "' is not allowed by policy"@,
        ErrorKind::RefNotFound => route_tag(r) + "Referenced endpoint '"@ + s + "' not found"@,
        ErrorKind::RefNotInAnyRegistry => route_tag(r) + "Referenced endpoint '"@ + s
            + "' not found in any registry"@,
        ErrorKind::OutputRefNotFound => route_tag(r) + "referenced output endpoint '"@ + s
            + "' not found"@,
        ErrorKind::CircularReference => route_tag(r) + "Circular reference detected for endpoint '"@
            + s + "'"@,
        ErrorKind::CircularOutputReference => route_tag(r)
            + "circular output reference detected for endpoint '"@ + s + "'"@,
        ErrorKind::OutputOnly => route_tag(r) + s + " endpoint is only supported as an output"@,
        ErrorKind::UnsupportedConsumer => route_tag(r) + "Unsupported consumer endpoint type '"@ + s
            + "'"@,
        ErrorKind::UnsupportedPublisher => route_tag(r) + "Unsupported publisher endpoint type '"@
            + s + "'"@,
        ErrorKind::NatsStreamMissing => route_tag(r) + "NATS consumer must specify a 'stream'"@,
        ErrorKind::StreamBufferCorrelationMissing => route_tag(r)
            + "stream_buffer consumer must specify 'correlation_id'"@,
        ErrorKind::PostgresPublicationMissing =>
            "postgres_cdc consumer requires a 'publication' (defines which tables are captured)."@,
        ErrorKind::MongoSnapshotCursor => route_tag(r)
            + "MongoDB 'snapshot' does not support 'cursor_id'. Resuming above a stored `_id` skips anything a concurrent writer commits below it, which is silent data loss. Use 'capture_all' on a replica set to read incrementally."@,
        ErrorKind::SourcePositionUnavailable => route_tag(r)
            + "'name_by: source_position' on a file/object_store output requires an input that carries a replay position: kafka, postgres_cdc, sqlx, mongodb (change stream) or file"@,
        ErrorKind::SqlxCdcNotPostgres => "sqlx `publication` (CDC) is only supported for PostgreSQL URLs; got '"@
            + s
            + "'. Use a postgres:// URL or the dedicated `postgres_cdc` endpoint."@,
        ErrorKind::SqlxCdcWithCursor =>
            "sqlx endpoint sets both `publication` (CDC) and `cursor_column` (polling); pick one."@,
        ErrorKind::PublisherDepthExceeded => "Fanout/Ref recursion depth exceeded limit of 16"@,
        ErrorKind::AmbiguousHandlers => route_tag(r) + "Both ref endpoint and referenced endpoint '"@
            + s + "' have handlers defined. This is ambiguous."@,
    }
}

fn tagged(route: &str, rest: &str) -> (r: String)
    ensures
        r@ == route_tag(route@) + rest@,
{
    let mut out = String::from_str("[route:");
    out.append(route);
    out.append("] ");
    out.append(rest);
    out
}

fn tagged_quote(route: &str, before: &str, subject: &str, after: &str) -> (r: String)
    ensures
        r@ == route_tag(route@) + before@ + subject@ + after@,
{
    let mut out = tagged(route, before);
    out.append(subject);
    out.append(after);
    out
}

impl EndpointError {
    /// The error `kind` for `route` concerning `subject`.
    pub fn new(kind: ErrorKind, route: &str, subject: &str) -> (r: Self)
        ensures
            r@ == err_view(kind, route@, subject@),
    {
        EndpointError { kind, route: String::from_str(route), subject: String::from_str(subject) }
    }

    /// The text this error reads as.
    pub fn message(&self) -> (r: String)
        ensures
            r@ == error_text(self@),
    {
        let r = self.route.as_str();
        let s = self.subject.as_str();
        match self.kind {
            ErrorKind::RefDepthExceeded => String::from_str(
                "Ref recursion depth exceeded limit of 16",
            ),
            ErrorKind::ReferenceDepthExceeded => String::from_str(
                "Reference recursion depth exceeded limit of 16",
            ),
            ErrorKind::FanoutDepthExceeded => String::from_str(
                "Fanout recursion depth exceeded limit of 16",
            ),
            ErrorKind::OutputDepthExceeded => tagged(
                r,
                "output recursion depth exceeded limit of 16",
            ),
            ErrorKind::NotAllowedByPolicy => tagged_quote(
                r,
                "Endpoint type '",
                s,
                "' is not allowed by policy",
            ),
            ErrorKind::RefNotFound => tagged_quote(r, "Referenced endpoint '", s, "' not found"),
            ErrorKind::RefNotInAnyRegistry => tagged_quote(
                r,
                "Referenced endpoint '",
                s,
                "' not found in any registry",
            ),
            ErrorKind::OutputRefNotFound => tagged_quote(
                r,
                "referenced output endpoint '",
                s,
                "' not found",
            ),
            ErrorKind::CircularReference => tagged_quote(
                r,
                "Circular reference detected for endpoint '",
                s,
                "'",
            ),
            ErrorKind::CircularOutputReference => tagged_quote(
                r,
                "circular output reference detected for endpoint '",
                s,
                "'",
            ),
            ErrorKind::OutputOnly => {
                let mut out = tagged(r, s);
                out.append(" endpoint is only supported as an output");
                out
            },
            ErrorKind::UnsupportedConsumer => tagged_quote(
                r,
                "Unsupported consumer endpoint type '",
                s,
                "'",
            ),
            ErrorKind::UnsupportedPublisher => tagged_quote(
                r,
                "Unsupported publisher endpoint type '",
                s,
                "'",
            ),
            ErrorKind::NatsStreamMissing => tagged(r, "NATS consumer must specify a 'stream'"),
            ErrorKind::StreamBufferCorrelationMissing => tagged(
                r,
                "stream_buffer consumer must specify 'correlation_id'",
            ),
            ErrorKind::PostgresPublicationMissing => String::from_str(
                "postgres_cdc consumer requires a 'publication' (defines which tables are captured).",
            ),
            ErrorKind::MongoSnapshotCursor => tagged(
                r,
                "MongoDB 'snapshot' does not support 'cursor_id'. Resuming above a stored `_id` skips anything a concurrent writer commits below it, which is silent data loss. Use 'capture_all' on a replica set to read incrementally.",
            ),
            ErrorKind::SourcePositionUnavailable => tagged(
                r,
                "'name_by: source_position' on a file/object_store output requires an input that carries a replay position: kafka, postgres_cdc, sqlx, mongodb (change stream) or file",
            ),
            ErrorKind::SqlxCdcNotPostgres => {
                let mut out = concat2(
                    "sqlx `publication` (CDC) is only supported for PostgreSQL URLs; got '",
                    s,
                );
                out.append("'. Use a postgres:// URL or the dedicated `postgres_cdc` endpoint.");
                out
            },
            ErrorKind::SqlxCdcWithCursor => String::from_str(
                "sqlx endpoint sets both `publication` (CDC) and `cursor_column` (polling); pick one.",
            ),
            ErrorKind::PublisherDepthExceeded => String::from_str(
                "Fanout/Ref recursion depth exceeded limit of 16",
            ),
            ErrorKind::AmbiguousHandlers => tagged_quote(
                r,
                "Both ref endpoint and referenced endpoint '",
                s,
                "' have handlers defined. This is ambiguous.",
            ),
        }
    }
}

} // verus!
