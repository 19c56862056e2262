//! What building a route's endpoints decides before any connection is made: the names a
//! transport falls back to when its config leaves them unset, which reader an input
//! becomes, and what an output `ref` stands for.
use crate::errors::{err_view, EndpointError, ErrorKind, MAX_DEPTH};
use crate::models::{
    endpoint_type_name, mongo_consume, Endpoint, EndpointType, HandlerRef, Middleware, MongoConsume,
};
use crate::registry::Registry;
use crate::text::concat2;
use vstd::prelude::*;
use vstd::string::*;

verus! {

/// `after` keeps what `before` names, or names `fallback` where `before` names nothing.
pub open spec fn defaulted(before: Option<String>, after: Option<String>, fallback: Seq<char>) -> bool {
    match before {
        Some(_) => after == before,
        None => after matches Some(a) && a@ == fallback,
    }
}

/// The client id an MQTT endpoint falls back to: the application's name, a hyphen and the
/// route's name.
pub open spec fn mqtt_client_id(app_name: Seq<char>, route: Seq<char>) -> Seq<char> {
    app_name + "-"@ + route
}

fn or_route(name: &mut Option<String>, route: &str)
    ensures
        defaulted(*old(name), *final(name), route@),
{
    if name.is_none() {
        *name = Some(String::from_str(route));
    }
}

/// The fallbacks an input takes before it is built: a Kafka or MQTT topic, a NATS subject,
/// an AMQP queue and a MongoDB collection are named after the route where unset; an IBM MQ
/// input with neither queue nor topic reads the queue named after the route; and an MQTT
/// input with a persistent session gets a client id made of `app_name` and the route.
pub fn fill_consumer_defaults(t: &mut EndpointType, route: &str, app_name: &str)
    ensures
        match *old(t) {
            EndpointType::Kafka(c) => *final(t) matches EndpointType::Kafka(d) && defaulted(c.topic, d.topic, route@)
                && d == (crate::models::KafkaConfig { topic: d.topic, ..c }),
            EndpointType::Nats(c) => *final(t) matches EndpointType::Nats(d) && defaulted(c.subject, d.subject, route@)
                && d == (crate::models::NatsConfig { subject: d.subject, ..c }),
            EndpointType::Amqp(c) => *final(t) matches EndpointType::Amqp(d) && defaulted(c.queue, d.queue, route@)
                && d == (crate::models::AmqpConfig { queue: d.queue, ..c }),
            EndpointType::Mqtt(c) => *final(t) matches EndpointType::Mqtt(d) && defaulted(c.topic, d.topic, route@)
                && (if c.client_id is None && !c.clean_session {
                    defaulted(c.client_id, d.client_id, mqtt_client_id(app_name@, route@))
                } else {
                    d.client_id == c.client_id
                }) && d == (crate::models::MqttConfig { topic: d.topic, client_id: d.client_id, ..c }),
            EndpointType::IbmMq(c) => *final(t) matches EndpointType::IbmMq(d) && (if c.queue is None
                && c.topic is None {
                defaulted(c.queue, d.queue, route@)
            } else {
                d.queue == c.queue
            }) && d == (crate::models::IbmMqConfig { queue: d.queue, ..c }),
            EndpointType::MongoDb(c) => *final(t) matches EndpointType::MongoDb(d) && defaulted(
                c.collection,
                d.collection,
                route@,
            ) && d == (crate::models::MongoDbConfig { collection: d.collection, ..c }),
            _ => *final(t) == *old(t),
        },
{
    match t {
        EndpointType::Kafka(c) => or_route(&mut c.topic, route),
        EndpointType::Nats(c) => or_route(&mut c.subject, route),
        EndpointType::Amqp(c) => or_route(&mut c.queue, route),
        EndpointType::Mqtt(c) => {
            or_route(&mut c.topic, route);
            if c.client_id.is_none() && !c.clean_session {
                let mut id = concat2(app_name, "-");
                id.append(route);
                c.client_id = Some(id);
            }
        },
        EndpointType::IbmMq(c) => {
            if c.queue.is_none() && c.topic.is_none() {
                c.queue = Some(String::from_str(route));
            }
        },
        EndpointType::MongoDb(c) => or_route(&mut c.collection, route),
        _ => {},
    }
}

/// The reader an input is built as.
#[derive(Debug, Clone, Copy, PartialEq, Eq, Structural)]
pub enum ConsumerKind {
    Kafka,
    Nats,
    Amqp,
    Mqtt,
    IbmMq,
    File,
    ObjectStore,
    /// `sqlx` with a publication: Postgres change capture.
    SqlxCapture,
    /// `sqlx` with a cursor column: a resumable read that leaves rows in place.
    SqlxCursor,
    /// `sqlx` otherwise: a table drained as a queue.
    SqlxQueue,
    PostgresCdc,
    Http,
    Static,
    Memory,
    StreamBuffer,
    /// A MongoDB collection drained as a queue.
    MongoQueue,
    /// A one-off read of what a MongoDB collection holds.
    MongoSnapshot,
    /// Changes to a MongoDB collection from now on.
    MongoCaptureNew,
    /// What a MongoDB collection holds, then its changes.
    MongoCaptureAll,
    WebSocket,
    /// Built by the factory registered under the endpoint's name.
    Custom,
}

/// The reader an input type is built as, or why it cannot be an input.
pub open spec fn consumer_kind_of(t: EndpointType, route: Seq<char>) -> Result<ConsumerKind, (ErrorKind, Seq<char>, Seq<char>)> {
    match t {
        EndpointType::Kafka(_) => Ok(ConsumerKind::Kafka),
        EndpointType::Nats(_) => Ok(ConsumerKind::Nats),
        EndpointType::Amqp(_) => Ok(ConsumerKind::Amqp),
        EndpointType::Mqtt(_) => Ok(ConsumerKind::Mqtt),
        EndpointType::IbmMq(_) => Ok(ConsumerKind::IbmMq),
        EndpointType::File(_) => Ok(ConsumerKind::File),
        EndpointType::ObjectStore(_) => Ok(ConsumerKind::ObjectStore),
        EndpointType::Sqlx(c) => if c.publication is Some {
            Ok(ConsumerKind::SqlxCapture)
        } else if c.cursor_column is Some {
            Ok(ConsumerKind::SqlxCursor)
        } else {
            Ok(ConsumerKind::SqlxQueue)
        },
        EndpointType::PostgresCdc(_) => Ok(ConsumerKind::PostgresCdc),
        EndpointType::Http(_) => Ok(ConsumerKind::Http),
        EndpointType::Static(_) => Ok(ConsumerKind::Static),
        EndpointType::Memory(_) => Ok(ConsumerKind::Memory),
        EndpointType::StreamBuffer(_) => Ok(ConsumerKind::StreamBuffer),
        EndpointType::MongoDb(c) => Ok(
            match mongo_consume(c) {
                MongoConsume::Consumer => ConsumerKind::MongoQueue,
                MongoConsume::Snapshot => ConsumerKind::MongoSnapshot,
                MongoConsume::CaptureNew => ConsumerKind::MongoCaptureNew,
                MongoConsume::CaptureAll => ConsumerKind::MongoCaptureAll,
            },
        ),
        EndpointType::WebSocket(_) => Ok(ConsumerKind::WebSocket),
        EndpointType::Custom { .. } => Ok(ConsumerKind::Custom),
        EndpointType::Switch(_) => Err(err_view(ErrorKind::OutputOnly, route, "Switch"@)),
        _ => Err(err_view(ErrorKind::UnsupportedConsumer, route, endpoint_type_name(t))),
    }
}

/// The reader an input is built as (see [`consumer_kind_of`]).
pub fn consumer_kind(t: &EndpointType, route: &str) -> (r: Result<ConsumerKind, EndpointError>)
    ensures
        match r {
            Ok(k) => consumer_kind_of(*t, route@) == Ok::<ConsumerKind, (ErrorKind, Seq<char>, Seq<char>)>(k),
            Err(e) => consumer_kind_of(*t, route@) == Err::<ConsumerKind, (ErrorKind, Seq<char>, Seq<char>)>(e@),
        },
{
    match t {
        EndpointType::Kafka(_) => Ok(ConsumerKind::Kafka),
        EndpointType::Nats(_) => Ok(ConsumerKind::Nats),
        EndpointType::Amqp(_) => Ok(ConsumerKind::Amqp),
        EndpointType::Mqtt(_) => Ok(ConsumerKind::Mqtt),
        EndpointType::IbmMq(_) => Ok(ConsumerKind::IbmMq),
        EndpointType::File(_) => Ok(ConsumerKind::File),
        EndpointType::ObjectStore(_) => Ok(ConsumerKind::ObjectStore),
        EndpointType::Sqlx(c) => if c.publication.is_some() {
            Ok(ConsumerKind::SqlxCapture)
        } else if c.cursor_column.is_some() {
            Ok(ConsumerKind::SqlxCursor)
        } else {
            Ok(ConsumerKind::SqlxQueue)
        },
        EndpointType::PostgresCdc(_) => Ok(ConsumerKind::PostgresCdc),
        EndpointType::Http(_) => Ok(ConsumerKind::Http),
        EndpointType::Static(_) => Ok(ConsumerKind::Static),
        EndpointType::Memory(_) => Ok(ConsumerKind::Memory),
        EndpointType::StreamBuffer(_) => Ok(ConsumerKind::StreamBuffer),
        EndpointType::MongoDb(c) => Ok(
            match c.resolved_consume() {
                MongoConsume::Consumer => ConsumerKind::MongoQueue,
                MongoConsume::Snapshot => ConsumerKind::MongoSnapshot,
                MongoConsume::CaptureNew => ConsumerKind::MongoCaptureNew,
                MongoConsume::CaptureAll => ConsumerKind::MongoCaptureAll,
            },
        ),
        EndpointType::WebSocket(_) => Ok(ConsumerKind::WebSocket),
        EndpointType::Custom { .. } => Ok(ConsumerKind::Custom),
        EndpointType::Switch(_) => Err(EndpointError::new(ErrorKind::OutputOnly, route, "Switch")),
        _ => Err(EndpointError::new(ErrorKind::UnsupportedConsumer, route, t.name())),
    }
}

/// The fallbacks an output takes before it is built: a Kafka or MQTT topic, a NATS
/// subject, an AMQP queue and a MongoDB collection are named after the route where unset,
/// and an MQTT output without a client id gets one made of `app_name` and the route.
pub fn fill_publisher_defaults(t: &mut EndpointType, route: &str, app_name: &str)
    ensures
        match *old(t) {
            EndpointType::Kafka(c) => *final(t) matches EndpointType::Kafka(d) && defaulted(c.topic, d.topic, route@)
                && d == (crate::models::KafkaConfig { topic: d.topic, ..c }),
            EndpointType::Nats(c) => *final(t) matches EndpointType::Nats(d) && defaulted(c.subject, d.subject, route@)
                && d == (crate::models::NatsConfig { subject: d.subject, ..c }),
            EndpointType::Amqp(c) => *final(t) matches EndpointType::Amqp(d) && defaulted(c.queue, d.queue, route@)
                && d == (crate::models::AmqpConfig { queue: d.queue, ..c }),
            EndpointType::Mqtt(c) => *final(t) matches EndpointType::Mqtt(d) && defaulted(c.topic, d.topic, route@)
                && defaulted(c.client_id, d.client_id, mqtt_client_id(app_name@, route@))
                && d == (crate::models::MqttConfig { topic: d.topic, client_id: d.client_id, ..c }),
            EndpointType::MongoDb(c) => *final(t) matches EndpointType::MongoDb(d) && defaulted(
                c.collection,
                d.collection,
                route@,
            ) && d == (crate::models::MongoDbConfig { collection: d.collection, ..c }),
            _ => *final(t) == *old(t),
        },
{
    match t {
        EndpointType::Kafka(c) => or_route(&mut c.topic, route),
        EndpointType::Nats(c) => or_route(&mut c.subject, route),
        EndpointType::Amqp(c) => or_route(&mut c.queue, route),
        EndpointType::Mqtt(c) => {
            or_route(&mut c.topic, route);
            if c.client_id.is_none() {
                let mut id = concat2(app_name, "-");
                id.append(route);
                c.client_id = Some(id);
            }
        },
        EndpointType::MongoDb(c) => or_route(&mut c.collection, route),
        _ => {},
    }
}

/// What an output stands for once its `ref`s are followed from nesting depth `depth`: the
/// endpoint type to build, the middlewares to wrap it in (innermost first), its handler,
/// and the depth it is built at. Each `ref` to a registered endpoint goes one level deeper
/// and puts that endpoint's middlewares inside the ones met so far; its handler is taken
/// unless one was met already, in which case the two are ambiguous. A `ref` naming no
/// endpoint but a registered publisher stands for that publisher (the type stays the
/// `ref`).
pub open spec fn output_chain(
    reg: Registry,
    t: EndpointType,
    mids: Seq<Middleware>,
    handler: Option<HandlerRef>,
    depth: int,
    route: Seq<char>,
) -> Result<(EndpointType, Seq<Middleware>, Option<HandlerRef>, int), (ErrorKind, Seq<char>, Seq<char>)>
    decreases 17 - depth,
{
    if depth > MAX_DEPTH {
        Err(err_view(ErrorKind::PublisherDepthExceeded, route, ""@))
    } else {
        match t {
            EndpointType::Ref(name) => match reg.endpoint_named(name@) {
                None => if reg.publisher_named(name@) {
                    Ok((t, mids, handler, depth))
                } else {
                    Err(err_view(ErrorKind::RefNotFound, route, name@))
                },
                Some(target) => if handler is Some && target.handler is Some {
                    Err(err_view(ErrorKind::AmbiguousHandlers, route, name@))
                } else {
                    output_chain(
                        reg,
                        target.endpoint_type,
                        target.middlewares@ + mids,
                        if handler is Some {
                            handler
                        } else {
                            target.handler
                        },
                        depth + 1,
                        route,
                    )
                },
            },
            _ => Ok((t, mids, handler, depth)),
        }
    }
}

/// An output with its `ref`s followed.
pub struct ResolvedOutput<'a> {
    /// What to build: a type that is not a `ref`, or a `ref` to a registered publisher.
    pub endpoint_type: &'a EndpointType,
    /// The middlewares to wrap it in, innermost first.
    pub middlewares: Vec<&'a Middleware>,
    pub handler: Option<&'a HandlerRef>,
    /// The nesting depth it is built at; what it nests is built one level deeper.
    pub depth: usize,
}

/// What a resolution gives, in terms of views.
pub open spec fn resolved_output_view(r: Result<ResolvedOutput, EndpointError>) -> Result<
    (EndpointType, Seq<Middleware>, Option<HandlerRef>, int),
    (ErrorKind, Seq<char>, Seq<char>),
> {
    match r {
        Ok(x) => Ok(
            (
                *x.endpoint_type,
                crate::sources::middleware_targets(x.middlewares@),
                match x.handler {
                    Some(h) => Some(*h),
                    None => None,
                },
                x.depth as int,
            ),
        ),
        Err(e) => Err(e@),
    }
}

fn middleware_refs<'a>(v: &'a Vec<Middleware>) -> (r: Vec<&'a Middleware>)
    ensures
        crate::sources::middleware_targets(r@) == v@,
{
    let mut out: Vec<&'a Middleware> = Vec::new();
    let mut i: usize = 0;
    while i < v.len()
        invariant
            i <= v@.len(),
            out@.len() == i,
            forall|k: int| 0 <= k < i ==> *#[trigger] out@[k] == v@[k],
        decreases v@.len() - i,
    {
        out.push(&v[i]);
        i = i + 1;
    }
    assert(crate::sources::middleware_targets(out@) =~= v@);
    out
}

fn follow_output<'a>(
    t: &'a EndpointType,
    mids: Vec<&'a Middleware>,
    handler: Option<&'a HandlerRef>,
    depth: usize,
    route: &str,
    registry: &'a Registry,
) -> (r: Result<ResolvedOutput<'a>, EndpointError>)
    ensures
        resolved_output_view(r) == output_chain(
            *registry,
            *t,
            crate::sources::middleware_targets(mids@),
            match handler {
                Some(h) => Some(*h),
                None => None,
            },
            depth as int,
            route@,
        ),
    decreases 17 - depth,
{
    if depth > MAX_DEPTH {
        return Err(EndpointError::new(ErrorKind::PublisherDepthExceeded, route, ""));
    }
    match t {
        EndpointType::Ref(name) => match registry.get_endpoint(name.as_str()) {
            None => if registry.has_publisher(name.as_str()) {
                Ok(ResolvedOutput { endpoint_type: t, middlewares: mids, handler, depth })
            } else {
                Err(EndpointError::new(ErrorKind::RefNotFound, route, name.as_str()))
            },
            Some(target) => {
                if handler.is_some() && target.handler.is_some() {
                    return Err(EndpointError::new(ErrorKind::AmbiguousHandlers, route, name.as_str()));
                }
                let mut merged = middleware_refs(&target.middlewares);
                let ghost a = merged@;
                let ghost b = mids@;
                let mut rest = mids;
                merged.append(&mut rest);
                assert(crate::sources::middleware_targets(merged@) =~= crate::sources::middleware_targets(a)
                    + crate::sources::middleware_targets(b));
                let next_handler = match handler {
                    Some(h) => Some(h),
                    None => target.handler.as_ref(),
                };
                follow_output(&target.endpoint_type, merged, next_handler, depth + 1, route, registry)
            },
        },
        _ => Ok(ResolvedOutput { endpoint_type: t, middlewares: mids, handler, depth }),
    }
}

/// Follows an output's `ref`s through `registry` from nesting depth `depth` (see
/// [`output_chain`]).
pub fn resolve_output<'a>(endpoint: &'a Endpoint, route: &str, registry: &'a Registry, depth: usize) -> (r: Result<
    ResolvedOutput<'a>,
    EndpointError,
>)
    ensures
        resolved_output_view(r) == output_chain(
            *registry,
            endpoint.endpoint_type,
            endpoint.middlewares@,
            endpoint.handler,
            depth as int,
            route@,
        ),
{
    let mids = middleware_refs(&endpoint.middlewares);
    follow_output(&endpoint.endpoint_type, mids, endpoint.handler.as_ref(), depth, route, registry)
}

/// What a successful resolution of an output stands for is buildable: it is no `ref`
/// unless it names a registered publisher (and no endpoint), it sits no deeper than the
/// limit and no shallower than where the resolution began, it keeps a handler the output
/// already had, and the middlewares met so far stay outermost.
pub proof fn lemma_resolved_output_is_buildable(
    reg: Registry,
    t: EndpointType,
    mids: Seq<Middleware>,
    handler: Option<HandlerRef>,
    depth: int,
    route: Seq<char>,
)
    ensures
        output_chain(reg, t, mids, handler, depth, route) matches Ok((t2, m2, h2, d2)) ==> {
            &&& depth <= d2 <= MAX_DEPTH
            &&& (t2 matches EndpointType::Ref(name) ==> reg.publisher_named(name@) && reg.endpoint_named(
                name@,
            ) is None)
            &&& (handler is Some ==> h2 == handler)
            &&& m2.len() >= mids.len()
            &&& m2.subrange(m2.len() - mids.len(), m2.len() as int) == mids
        },
    decreases 17 - depth,
{
    if depth <= MAX_DEPTH {
        match t {
            EndpointType::Ref(name) => match reg.endpoint_named(name@) {
                None => {
                    assert(mids.subrange(0, mids.len() as int) =~= mids);
                },
                Some(target) => {
                    if !(handler is Some && target.handler is Some) {
                        let next = target.middlewares@ + mids;
                        let nh = if handler is Some {
                            handler
                        } else {
                            target.handler
                        };
                        lemma_resolved_output_is_buildable(reg, target.endpoint_type, next, nh, depth + 1, route);
                        if let Ok((t2, m2, h2, d2)) = output_chain(reg, t, mids, handler, depth, route) {
                            assert(next.subrange(next.len() - mids.len(), next.len() as int) =~= mids);
                            assert(m2.subrange(m2.len() - mids.len(), m2.len() as int) =~= m2.subrange(
                                m2.len() - next.len(),
                                m2.len() as int,
                            ).subrange(next.len() - mids.len(), next.len() as int));
                        }
                    }
                },
            },
            _ => {
                assert(mids.subrange(0, mids.len() as int) =~= mids);
            },
        }
    }
}

} // verus!
