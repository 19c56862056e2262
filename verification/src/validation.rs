//! Checking an endpoint tree before anything is built from it: as the input of a route
//! (a consumer) or as its output (a publisher).
//!
//! A check either refuses the configuration with an [`EndpointError`] or accepts it with a
//! list of warnings about options that the endpoint's role ignores.
use crate::errors::{err_view, EndpointError, ErrorKind, MAX_DEPTH};
use crate::models::{
    endpoint_type_name, is_core_type, mongo_consume, Endpoint, EndpointType, MongoConsume,
    MongoDbConfig, SwitchConfig, SwitchCase,
};
use crate::registry::Registry;
use crate::text::{lemma_views_add, str_eq, str_views, trim, trim_seq, views};
use vstd::prelude::*;
use vstd::string::*;

verus! {

/// What a check returns, in terms of views: the warnings, or the refusal.
pub open spec fn result_view(r: Result<Vec<String>, EndpointError>) -> Result<
    Seq<Seq<char>>,
    (ErrorKind, Seq<char>, Seq<char>),
> {
    match r {
        Ok(w) => Ok(views(w@)),
        Err(e) => Err(e@),
    }
}

/// The policy list of allowed endpoint type names, by view.
pub open spec fn policy_view(allowed: Option<&[&str]>) -> Option<Seq<Seq<char>>> {
    match allowed {
        Some(a) => Some(str_views(a@)),
        None => None,
    }
}

/// Whether there is a policy list and it names `name`.
pub open spec fn policy_lists(allowed: Option<Seq<Seq<char>>>, name: Seq<char>) -> bool {
    allowed matches Some(a) && a.contains(name)
}

/// Whether the policy list refuses an endpoint type. It governs transports only: the
/// types of the bridge itself are never refused.
pub open spec fn policy_refuses(allowed: Option<Seq<Seq<char>>>, t: EndpointType) -> bool {
    allowed is Some && !is_core_type(t) && !policy_lists(allowed, endpoint_type_name(t))
}

/// The warning for an option that the endpoint's role ignores.
pub open spec fn role_warning(ty: Seq<char>, option: Seq<char>, as_input: bool) -> Seq<char> {
    if as_input {
        "Endpoint '"@ + ty + "' is used as a consumer, but '"@ + option
            + "' is a publisher-only option and will be ignored."@
    } else {
        "Endpoint '"@ + ty + "' is used as a publisher, but '"@ + option
            + "' is a consumer-only option and will be ignored."@
    }
}

/// One warning for each option in `options` that is set, in order.
pub open spec fn role_warnings(ty: Seq<char>, options: Seq<(bool, Seq<char>)>, as_input: bool) -> Seq<
    Seq<char>,
>
    decreases options.len(),
{
    if options.len() == 0 {
        seq![]
    } else {
        let rest = role_warnings(ty, options.drop_last(), as_input);
        if options.last().0 {
            rest.push(role_warning(ty, options.last().1, as_input))
        } else {
            rest
        }
    }
}

/// The options of a type that only an output reads, each with whether it is set.
pub open spec fn publisher_only_options(t: EndpointType) -> Seq<(bool, Seq<char>)> {
    match t {
        EndpointType::Kafka(c) => seq![
            (c.delayed_ack, "delayed_ack"@),
            (c.producer_options is Some, "producer_options"@),
        ],
        EndpointType::Nats(c) => seq![
            (c.request_reply, "request_reply"@),
            (c.request_timeout_ms is Some, "request_timeout_ms"@),
            (c.delayed_ack, "delayed_ack"@),
            (c.stream_max_messages is Some, "stream_max_messages"@),
            (c.stream_max_bytes is Some, "stream_max_bytes"@),
        ],
        EndpointType::Amqp(c) => seq![(c.delayed_ack, "delayed_ack"@)],
        EndpointType::Mqtt(c) => seq![(c.delayed_ack, "delayed_ack"@)],
        EndpointType::MongoDb(c) => seq![
            (c.reply_polling_ms is Some, "reply_polling_ms"@),
            (c.request_reply, "request_reply"@),
            (c.request_timeout_ms is Some, "request_timeout_ms"@),
            (c.ttl_seconds is Some, "ttl_seconds"@),
            (c.capped_size_bytes is Some, "capped_size_bytes"@),
        ],
        EndpointType::Http(c) => seq![
            (c.batch_concurrency is Some, "batch_concurrency"@),
            (c.tcp_keepalive_ms is Some, "tcp_keepalive_ms"@),
            (c.pool_idle_timeout_ms is Some, "pool_idle_timeout_ms"@),
            (c.stream_response_to is Some, "stream_response_to"@),
        ],
        EndpointType::Sqlx(c) => seq![(c.insert_query is Some, "insert_query"@)],
        EndpointType::Memory(c) => seq![
            (c.request_reply, "request_reply"@),
            (c.request_timeout_ms is Some, "request_timeout_ms"@),
        ],
        EndpointType::ObjectStore(c) => seq![
            (c.extension is Some, "extension"@),
            (c.date_partition is Some, "date_partition"@),
        ],
        _ => seq![],
    }
}

/// The options of a type that only an input reads, each with whether it is set.
pub open spec fn consumer_only_options(t: EndpointType) -> Seq<(bool, Seq<char>)> {
    match t {
        EndpointType::Kafka(c) => seq![
            (c.group_id is Some, "group_id"@),
            (c.consumer_options is Some, "consumer_options"@),
        ],
        EndpointType::Nats(c) => seq![
            (c.stream is Some, "stream"@),
            (c.subscriber_mode, "subscriber_mode"@),
            (c.prefetch_count is Some, "prefetch_count"@),
        ],
        EndpointType::Amqp(c) => seq![
            (c.subscribe_mode, "subscribe_mode"@),
            (c.prefetch_count is Some, "prefetch_count"@),
        ],
        EndpointType::Mqtt(c) => seq![(c.clean_session, "clean_session"@)],
        EndpointType::Http(c) => seq![
            (c.path is Some, "path"@),
            (c.workers is Some, "workers"@),
            (c.message_id_header is Some, "message_id_header"@),
            (c.internal_buffer_size is Some, "internal_buffer_size"@),
            (c.fire_and_forget, "fire_and_forget"@),
            (c.receive_streamable, "receive_streamable"@),
        ],
        EndpointType::Sqlx(c) => seq![
            (c.select_query is Some, "select_query"@),
            (c.delete_after_read, "delete_after_read"@),
            (c.polling_interval_ms is Some, "polling_interval_ms"@),
        ],
        EndpointType::IbmMq(c) => seq![(c.wait_timeout_ms != 1000, "wait_timeout_ms"@)],
        EndpointType::MongoDb(c) => seq![
            (c.polling_interval_ms is Some, "polling_interval_ms"@),
            (c.change_stream, "change_stream"@),
            (c.cursor_id is Some, "cursor_id"@),
        ],
        EndpointType::ObjectStore(c) => seq![
            (c.checkpoint_store is Some, "checkpoint_store"@),
            (c.cursor_id is Some, "cursor_id"@),
            (c.polling_interval_ms is Some, "polling_interval_ms"@),
            (c.max_object_bytes is Some, "max_object_bytes"@),
        ],
        EndpointType::Memory(c) => seq![
            (c.subscribe_mode, "subscribe_mode"@),
            (c.enable_nack, "enable_nack"@),
        ],
        EndpointType::StreamBuffer(c) => seq![(c.correlation_id is Some, "correlation_id"@)],
        _ => seq![],
    }
}

/// The warning for a handler on an input endpoint.
pub open spec fn handler_warning() -> Seq<char> {
    "Endpoint 'handler' is set on an input endpoint. Handlers are currently only supported on output endpoints (publishers) and will be ignored here."@
}

/// The warnings about the deprecated `change_stream` flag of a MongoDB input.
pub open spec fn mongo_deprecations(c: MongoDbConfig) -> Seq<Seq<char>> {
    if c.consume is Some && c.change_stream {
        seq![
            "Endpoint 'mongodb' sets 'consume'; the deprecated 'change_stream' boolean is ignored and should be removed."@,
        ]
    } else if c.change_stream {
        seq!["Endpoint 'mongodb' option 'change_stream' is deprecated; use 'consume: capture_new'."@]
    } else {
        seq![]
    }
}

/// The rules for a type used as an input, apart from `ref` and the policy list.
pub open spec fn input_rules(
    t: EndpointType,
    allowed: Option<Seq<Seq<char>>>,
    route: Seq<char>,
) -> Result<Seq<Seq<char>>, (ErrorKind, Seq<char>, Seq<char>)> {
    match t {
        EndpointType::Switch(_) => Err(err_view(ErrorKind::OutputOnly, route, "Switch"@)),
        EndpointType::Reader(_) => Err(err_view(ErrorKind::OutputOnly, route, "Reader"@)),
        EndpointType::Null | EndpointType::Fanout(_) | EndpointType::Request(_)
        | EndpointType::Response(_) => if policy_lists(allowed, endpoint_type_name(t)) {
            Ok(seq![])
        } else {
            Err(err_view(ErrorKind::UnsupportedConsumer, route, endpoint_type_name(t)))
        },
        EndpointType::Nats(c) => if c.stream is None {
            Err(err_view(ErrorKind::NatsStreamMissing, route, ""@))
        } else {
            Ok(role_warnings("nats"@, publisher_only_options(t), true))
        },
        EndpointType::StreamBuffer(c) => if c.correlation_id is None {
            Err(err_view(ErrorKind::StreamBufferCorrelationMissing, route, ""@))
        } else {
            Ok(seq![])
        },
        EndpointType::PostgresCdc(c) => if trim_seq(c.publication@).len() == 0 {
            Err(err_view(ErrorKind::PostgresPublicationMissing, route, ""@))
        } else {
            Ok(seq![])
        },
        EndpointType::MongoDb(c) => if mongo_consume(c) == MongoConsume::Snapshot
            && c.cursor_id is Some {
            Err(err_view(ErrorKind::MongoSnapshotCursor, route, ""@))
        } else {
            Ok(mongo_deprecations(c) + role_warnings("mongodb"@, publisher_only_options(t), true))
        },
        _ => Ok(role_warnings(endpoint_type_name(t), publisher_only_options(t), true)),
    }
}

/// The check of `e` as the input of `route`, `depth` `ref` hops below the route.
pub open spec fn consumer_check(
    reg: Registry,
    e: Endpoint,
    depth: nat,
    allowed: Option<Seq<Seq<char>>>,
    route: Seq<char>,
) -> Result<Seq<Seq<char>>, (ErrorKind, Seq<char>, Seq<char>)>
    decreases 17 - depth,
{
    if depth > MAX_DEPTH {
        Err(err_view(ErrorKind::RefDepthExceeded, route, ""@))
    } else {
        let first = if e.handler is Some {
            seq![handler_warning()]
        } else {
            seq![]
        };
        let t = e.endpoint_type;
        if policy_refuses(allowed, t) {
            Err(err_view(ErrorKind::NotAllowedByPolicy, route, endpoint_type_name(t)))
        } else {
            match t {
                EndpointType::Ref(name) => match reg.endpoint_named(name@) {
                    None => Err(err_view(ErrorKind::RefNotFound, route, name@)),
                    Some(target) => match consumer_check(reg, target, depth + 1, allowed, route) {
                        Ok(w) => Ok(first + w),
                        Err(x) => Err(x),
                    },
                },
                _ => match input_rules(t, allowed, route) {
                    Ok(w) => Ok(first + w),
                    Err(x) => Err(x),
                },
            }
        }
    }
}

/// Every endpoint a switch can send to: its cases, its conditions, then its default.
pub open spec fn switch_targets(c: SwitchConfig) -> Seq<Endpoint> {
    c.cases@.map_values(|p: (String, Endpoint)| p.1) + c.when@.map_values(|w: SwitchCase| w.to)
        + match c.default {
        Some(d) => seq![*d],
        None => seq![],
    }
}

/// The check of `e` as the output of `route`, `depth` levels below the route.
pub open spec fn publisher_check(
    reg: Registry,
    e: Endpoint,
    depth: nat,
    allowed: Option<Seq<Seq<char>>>,
    route: Seq<char>,
) -> Result<Seq<Seq<char>>, (ErrorKind, Seq<char>, Seq<char>)>
    decreases 17 - depth, 0int,
{
    let t = e.endpoint_type;
    if policy_refuses(allowed, t) {
        Err(err_view(ErrorKind::NotAllowedByPolicy, route, endpoint_type_name(t)))
    } else if depth > MAX_DEPTH {
        Err(err_view(ErrorKind::FanoutDepthExceeded, route, ""@))
    } else {
        match t {
            EndpointType::Ref(name) => match reg.endpoint_named(name@) {
                Some(target) => publisher_check(reg, target, depth + 1, allowed, route),
                None => if reg.publisher_named(name@) {
                    Ok(seq![])
                } else {
                    Err(err_view(ErrorKind::RefNotInAnyRegistry, route, name@))
                },
            },
            EndpointType::Fanout(v) => publishers_check(reg, v@, depth + 1, allowed, route, v@.len()),
            EndpointType::Switch(c) => publishers_check(
                reg,
                switch_targets(c),
                depth + 1,
                allowed,
                route,
                switch_targets(c).len(),
            ),
            EndpointType::Request(c) => publishers_check(
                reg,
                seq![*c.to, *c.forward_to],
                depth + 1,
                allowed,
                route,
                2,
            ),
            EndpointType::Reader(inner) => consumer_check(reg, *inner, 0, allowed, route),
            EndpointType::PostgresCdc(_) => if policy_lists(allowed, endpoint_type_name(t)) {
                Ok(seq![])
            } else {
                Err(err_view(ErrorKind::UnsupportedPublisher, route, endpoint_type_name(t)))
            },
            _ => Ok(role_warnings(endpoint_type_name(t), consumer_only_options(t), false)),
        }
    }
}

/// The checks of the first `n` endpoints of `s` as outputs, in order, stopping at the first
/// refusal; the warnings are joined.
pub open spec fn publishers_check(
    reg: Registry,
    s: Seq<Endpoint>,
    depth: nat,
    allowed: Option<Seq<Seq<char>>>,
    route: Seq<char>,
    n: nat,
) -> Result<Seq<Seq<char>>, (ErrorKind, Seq<char>, Seq<char>)>
    decreases 17 - depth, n + 1,
{
    if n == 0 {
        Ok(seq![])
    } else {
        match publishers_check(reg, s, depth, allowed, route, (n - 1) as nat) {
            Err(x) => Err(x),
            Ok(w) => match publisher_check(reg, s[n - 1], depth, allowed, route) {
                Err(x) => Err(x),
                Ok(w2) => Ok(w + w2),
            },
        }
    }
}

/// The option flags of a vector, by view.
pub open spec fn flag_views(s: Seq<(bool, &str)>) -> Seq<(bool, Seq<char>)> {
    s.map_values(|p: (bool, &str)| (p.0, p.1@))
}

fn lists_name(allowed: &[&str], name: &str) -> (r: bool)
    ensures
        r == str_views(allowed@).contains(name@),
{
    let mut i: usize = 0;
    while i < allowed.len()
        invariant
            i <= allowed@.len(),
            forall|j: int| 0 <= j < i ==> (#[trigger] allowed@[j])@ != name@,
        decreases allowed@.len() - i,
    {
        if str_eq(allowed[i], name) {
            assert(str_views(allowed@)[i as int] == name@);
            return true;
        }
        i = i + 1;
    }
    assert forall|j: int| 0 <= j < str_views(allowed@).len() implies str_views(allowed@)[j]
        != name@ by {
        assert(str_views(allowed@)[j] == allowed@[j]@);
    }
    false
}

fn policy_lists_name(allowed: Option<&[&str]>, name: &str) -> (r: bool)
    ensures
        r == policy_lists(policy_view(allowed), name@),
{
    match allowed {
        Some(a) => lists_name(a, name),
        None => false,
    }
}

fn refused_by_policy(allowed: Option<&[&str]>, t: &EndpointType) -> (r: bool)
    ensures
        r == policy_refuses(policy_view(allowed), *t),
{
    match allowed {
        Some(a) => !t.is_core() && !lists_name(a, t.name()),
        None => false,
    }
}

fn role_warning_text(ty: &str, option: &str, as_input: bool) -> (r: String)
    ensures
        r@ == role_warning(ty@, option@, as_input),
{
    let mut out = String::from_str("Endpoint '");
    out.append(ty);
    if as_input {
        out.append("' is used as a consumer, but '");
        out.append(option);
        out.append("' is a publisher-only option and will be ignored.");
    } else {
        out.append("' is used as a publisher, but '");
        out.append(option);
        out.append("' is a consumer-only option and will be ignored.");
    }
    out
}

fn role_warning_list(ty: &str, options: &Vec<(bool, &str)>, as_input: bool) -> (r: Vec<String>)
    ensures
        views(r@) == role_warnings(ty@, flag_views(options@), as_input),
{
    let mut out: Vec<String> = Vec::new();
    let mut i: usize = 0;
    assert(flag_views(options@).subrange(0, 0).len() == 0);
    assert(views(out@) =~= Seq::<Seq<char>>::empty());
    while i < options.len()
        invariant
            i <= options@.len(),
            views(out@) == role_warnings(ty@, flag_views(options@).subrange(0, i as int), as_input),
        decreases options@.len() - i,
    {
        let ghost before = out@;
        let ghost flags = flag_views(options@).subrange(0, i + 1);
        assert(flags.drop_last() =~= flag_views(options@).subrange(0, i as int));
        assert(flags.last() == (options@[i as int].0, options@[i as int].1@));
        let (set, option) = options[i];
        if set {
            out.push(role_warning_text(ty, option, as_input));
            assert(views(out@) =~= views(before).push(role_warning(ty@, option@, as_input)));
        }
        i = i + 1;
    }
    assert(flag_views(options@).subrange(0, options@.len() as int) =~= flag_views(options@));
    out
}

fn publisher_only_flags(t: &EndpointType) -> (r: Vec<(bool, &'static str)>)
    ensures
        flag_views(r@) == publisher_only_options(*t),
{
    let mut v: Vec<(bool, &'static str)> = Vec::new();
    match t {
        EndpointType::Kafka(c) => {
            v.push((c.delayed_ack, "delayed_ack"));
            v.push((c.producer_options.is_some(), "producer_options"));
        },
        EndpointType::Nats(c) => {
            v.push((c.request_reply, "request_reply"));
            v.push((c.request_timeout_ms.is_some(), "request_timeout_ms"));
            v.push((c.delayed_ack, "delayed_ack"));
            v.push((c.stream_max_messages.is_some(), "stream_max_messages"));
            v.push((c.stream_max_bytes.is_some(), "stream_max_bytes"));
        },
        EndpointType::Amqp(c) => {
            v.push((c.delayed_ack, "delayed_ack"));
        },
        EndpointType::Mqtt(c) => {
            v.push((c.delayed_ack, "delayed_ack"));
        },
        EndpointType::MongoDb(c) => {
            v.push((c.reply_polling_ms.is_some(), "reply_polling_ms"));
            v.push((c.request_reply, "request_reply"));
            v.push((c.request_timeout_ms.is_some(), "request_timeout_ms"));
            v.push((c.ttl_seconds.is_some(), "ttl_seconds"));
            v.push((c.capped_size_bytes.is_some(), "capped_size_bytes"));
        },
        EndpointType::Http(c) => {
            v.push((c.batch_concurrency.is_some(), "batch_concurrency"));
            v.push((c.tcp_keepalive_ms.is_some(), "tcp_keepalive_ms"));
            v.push((c.pool_idle_timeout_ms.is_some(), "pool_idle_timeout_ms"));
            v.push((c.stream_response_to.is_some(), "stream_response_to"));
        },
        EndpointType::Sqlx(c) => {
            v.push((c.insert_query.is_some(), "insert_query"));
        },
        EndpointType::Memory(c) => {
            v.push((c.request_reply, "request_reply"));
            v.push((c.request_timeout_ms.is_some(), "request_timeout_ms"));
        },
        EndpointType::ObjectStore(c) => {
            v.push((c.extension.is_some(), "extension"));
            v.push((c.date_partition.is_some(), "date_partition"));
        },
        _ => {},
    }
    assert(flag_views(v@) =~= publisher_only_options(*t));
    v
}

fn consumer_only_flags(t: &EndpointType) -> (r: Vec<(bool, &'static str)>)
    ensures
        flag_views(r@) == consumer_only_options(*t),
{
    let mut v: Vec<(bool, &'static str)> = Vec::new();
    match t {
        EndpointType::Kafka(c) => {
            v.push((c.group_id.is_some(), "group_id"));
            v.push((c.consumer_options.is_some(), "consumer_options"));
        },
        EndpointType::Nats(c) => {
            v.push((c.stream.is_some(), "stream"));
            v.push((c.subscriber_mode, "subscriber_mode"));
            v.push((c.prefetch_count.is_some(), "prefetch_count"));
        },
        EndpointType::Amqp(c) => {
            v.push((c.subscribe_mode, "subscribe_mode"));
            v.push((c.prefetch_count.is_some(), "prefetch_count"));
        },
        EndpointType::Mqtt(c) => {
            v.push((c.clean_session, "clean_session"));
        },
        EndpointType::Http(c) => {
            v.push((c.path.is_some(), "path"));
            v.push((c.workers.is_some(), "workers"));
            v.push((c.message_id_header.is_some(), "message_id_header"));
            v.push((c.internal_buffer_size.is_some(), "internal_buffer_size"));
            v.push((c.fire_and_forget, "fire_and_forget"));
            v.push((c.receive_streamable, "receive_streamable"));
        },
        EndpointType::Sqlx(c) => {
            v.push((c.select_query.is_some(), "select_query"));
            v.push((c.delete_after_read, "delete_after_read"));
            v.push((c.polling_interval_ms.is_some(), "polling_interval_ms"));
        },
        EndpointType::IbmMq(c) => {
            v.push((c.wait_timeout_ms != 1000, "wait_timeout_ms"));
        },
        EndpointType::MongoDb(c) => {
            v.push((c.polling_interval_ms.is_some(), "polling_interval_ms"));
            v.push((c.change_stream, "change_stream"));
            v.push((c.cursor_id.is_some(), "cursor_id"));
        },
        EndpointType::ObjectStore(c) => {
            v.push((c.checkpoint_store.is_some(), "checkpoint_store"));
            v.push((c.cursor_id.is_some(), "cursor_id"));
            v.push((c.polling_interval_ms.is_some(), "polling_interval_ms"));
            v.push((c.max_object_bytes.is_some(), "max_object_bytes"));
        },
        EndpointType::Memory(c) => {
            v.push((c.subscribe_mode, "subscribe_mode"));
            v.push((c.enable_nack, "enable_nack"));
        },
        EndpointType::StreamBuffer(c) => {
            v.push((c.correlation_id.is_some(), "correlation_id"));
        },
        _ => {},
    }
    assert(flag_views(v@) =~= consumer_only_options(*t));
    v
}

fn mongo_deprecation_list(c: &MongoDbConfig) -> (r: Vec<String>)
    ensures
        views(r@) == mongo_deprecations(*c),
{
    let mut out: Vec<String> = Vec::new();
    if c.consume.is_some() && c.change_stream {
        out.push(
            String::from_str(
                "Endpoint 'mongodb' sets 'consume'; the deprecated 'change_stream' boolean is ignored and should be removed.",
            ),
        );
    } else if c.change_stream {
        out.push(
            String::from_str(
                "Endpoint 'mongodb' option 'change_stream' is deprecated; use 'consume: capture_new'.",
            ),
        );
    }
    assert(views(out@) =~= mongo_deprecations(*c));
    out
}

fn input_rules_of(t: &EndpointType, allowed: Option<&[&str]>, route: &str) -> (r: Result<
    Vec<String>,
    EndpointError,
>)
    ensures
        result_view(r) == input_rules(*t, policy_view(allowed), route@),
{
    match t {
        EndpointType::Switch(_) => Err(EndpointError::new(ErrorKind::OutputOnly, route, "Switch")),
        EndpointType::Reader(_) => Err(EndpointError::new(ErrorKind::OutputOnly, route, "Reader")),
        EndpointType::Null | EndpointType::Fanout(_) | EndpointType::Request(_)
        | EndpointType::Response(_) => {
            if policy_lists_name(allowed, t.name()) {
                let w: Vec<String> = Vec::new();
                assert(views(w@) =~= Seq::<Seq<char>>::empty());
                Ok(w)
            } else {
                Err(EndpointError::new(ErrorKind::UnsupportedConsumer, route, t.name()))
            }
        },
        EndpointType::Nats(c) => {
            if c.stream.is_none() {
                Err(EndpointError::new(ErrorKind::NatsStreamMissing, route, ""))
            } else {
                Ok(role_warning_list("nats", &publisher_only_flags(t), true))
            }
        },
        EndpointType::StreamBuffer(c) => {
            if c.correlation_id.is_none() {
                Err(EndpointError::new(ErrorKind::StreamBufferCorrelationMissing, route, ""))
            } else {
                let w: Vec<String> = Vec::new();
                assert(views(w@) =~= Seq::<Seq<char>>::empty());
                Ok(w)
            }
        },
        EndpointType::PostgresCdc(c) => {
            if trim(c.publication.as_str()).unicode_len() == 0 {
                Err(EndpointError::new(ErrorKind::PostgresPublicationMissing, route, ""))
            } else {
                let w: Vec<String> = Vec::new();
                assert(views(w@) =~= Seq::<Seq<char>>::empty());
                Ok(w)
            }
        },
        EndpointType::MongoDb(c) => {
            if matches!(c.resolved_consume(), MongoConsume::Snapshot) && c.cursor_id.is_some() {
                Err(EndpointError::new(ErrorKind::MongoSnapshotCursor, route, ""))
            } else {
                let mut w = mongo_deprecation_list(c);
                let mut more = role_warning_list("mongodb", &publisher_only_flags(t), true);
                let ghost a = w@;
                let ghost b = more@;
                w.append(&mut more);
                proof {
                    lemma_views_add(a, b);
                }
                Ok(w)
            }
        },
        _ => Ok(role_warning_list(t.name(), &publisher_only_flags(t), true)),
    }
}

fn joined(mut first: Vec<String>, rest: Result<Vec<String>, EndpointError>) -> (r: Result<
    Vec<String>,
    EndpointError,
>)
    ensures
        result_view(r) == match result_view(rest) {
            Ok(w) => Ok(views(first@) + w),
            Err(x) => Err(x),
        },
{
    match rest {
        Err(e) => Err(e),
        Ok(mut more) => {
            let ghost a = first@;
            let ghost b = more@;
            first.append(&mut more);
            proof {
                lemma_views_add(a, b);
            }
            Ok(first)
        },
    }
}

fn check_input_at(
    route: &str,
    endpoint: &Endpoint,
    depth: usize,
    allowed: Option<&[&str]>,
    registry: &Registry,
) -> (r: Result<Vec<String>, EndpointError>)
    ensures
        result_view(r) == consumer_check(
            *registry,
            *endpoint,
            depth as nat,
            policy_view(allowed),
            route@,
        ),
    decreases 17 - depth,
{
    if depth > MAX_DEPTH {
        return Err(EndpointError::new(ErrorKind::RefDepthExceeded, route, ""));
    }
    let mut first: Vec<String> = Vec::new();
    if endpoint.handler.is_some() {
        first.push(
            String::from_str(
                "Endpoint 'handler' is set on an input endpoint. Handlers are currently only supported on output endpoints (publishers) and will be ignored here.",
            ),
        );
    }
    assert(views(first@) =~= if endpoint.handler is Some {
        seq![handler_warning()]
    } else {
        seq![]
    });
    if refused_by_policy(allowed, &endpoint.endpoint_type) {
        return Err(
            EndpointError::new(ErrorKind::NotAllowedByPolicy, route, endpoint.endpoint_type.name()),
        );
    }
    match &endpoint.endpoint_type {
        EndpointType::Ref(name) => match registry.get_endpoint(name.as_str()) {
            None => Err(EndpointError::new(ErrorKind::RefNotFound, route, name.as_str())),
            Some(target) => joined(
                first,
                check_input_at(route, target, depth + 1, allowed, registry),
            ),
        },
        _ => joined(first, input_rules_of(&endpoint.endpoint_type, allowed, route)),
    }
}

/// Checks `endpoint` as the input of the route `route_name`. `allowed_types`, where given,
/// lists the transport types the route may use; `registry` resolves `ref` endpoints.
pub fn check_consumer(
    route_name: &str,
    endpoint: &Endpoint,
    allowed_types: Option<&[&str]>,
    registry: &Registry,
) -> (r: Result<Vec<String>, EndpointError>)
    ensures
        result_view(r) == consumer_check(
            *registry,
            *endpoint,
            0,
            policy_view(allowed_types),
            route_name@,
        ),
{
    check_input_at(route_name, endpoint, 0, allowed_types, registry)
}

/// Once a prefix of a list fails its check, every longer prefix fails the same way.
proof fn lemma_refusal_sticks(
    reg: Registry,
    s: Seq<Endpoint>,
    depth: nat,
    allowed: Option<Seq<Seq<char>>>,
    route: Seq<char>,
    n: nat,
    m: nat,
)
    requires
        n <= m,
        publishers_check(reg, s, depth, allowed, route, n) is Err,
    ensures
        publishers_check(reg, s, depth, allowed, route, m) == publishers_check(
            reg,
            s,
            depth,
            allowed,
            route,
            n,
        ),
    decreases m - n,
{
    if n < m {
        lemma_refusal_sticks(reg, s, depth, allowed, route, n, (m - 1) as nat);
    }
}

fn check_output_at(
    route: &str,
    endpoint: &Endpoint,
    depth: usize,
    allowed: Option<&[&str]>,
    registry: &Registry,
) -> (r: Result<Vec<String>, EndpointError>)
    ensures
        result_view(r) == publisher_check(
            *registry,
            *endpoint,
            depth as nat,
            policy_view(allowed),
            route@,
        ),
    decreases 17 - depth, 0int,
{
    if refused_by_policy(allowed, &endpoint.endpoint_type) {
        return Err(
            EndpointError::new(ErrorKind::NotAllowedByPolicy, route, endpoint.endpoint_type.name()),
        );
    }
    if depth > MAX_DEPTH {
        return Err(EndpointError::new(ErrorKind::FanoutDepthExceeded, route, ""));
    }
    let ghost pol = policy_view(allowed);
    let ghost d = (depth + 1) as nat;
    match &endpoint.endpoint_type {
        EndpointType::Ref(name) => match registry.get_endpoint(name.as_str()) {
            Some(target) => check_output_at(route, target, depth + 1, allowed, registry),
            None => {
                if registry.has_publisher(name.as_str()) {
                    let w: Vec<String> = Vec::new();
                    assert(views(w@) =~= Seq::<Seq<char>>::empty());
                    Ok(w)
                } else {
                    Err(EndpointError::new(ErrorKind::RefNotInAnyRegistry, route, name.as_str()))
                }
            },
        },
        EndpointType::Fanout(children) => {
            let mut warnings: Vec<String> = Vec::new();
            let mut i: usize = 0;
            assert(views(warnings@) =~= Seq::<Seq<char>>::empty());
            while i < children.len()
                invariant
                    depth <= MAX_DEPTH,
                    d == depth + 1,
                    pol == policy_view(allowed),
                    endpoint.endpoint_type == EndpointType::Fanout(*children),
                    !policy_refuses(pol, endpoint.endpoint_type),
                    i <= children@.len(),
                    publishers_check(*registry, children@, d, pol, route@, i as nat) == Ok::<
                        Seq<Seq<char>>,
                        (ErrorKind, Seq<char>, Seq<char>),
                    >(views(warnings@)),
                decreases children@.len() - i,
            {
                let r = check_output_at(route, &children[i], depth + 1, allowed, registry);
                match r {
                    Err(e) => {
                        proof {
                            lemma_refusal_sticks(
                                *registry,
                                children@,
                                d,
                                pol,
                                route@,
                                (i + 1) as nat,
                                children@.len(),
                            );
                        }
                        assert(publishers_check(*registry, children@, d, pol, route@, (i + 1) as nat)
                            == Err::<Seq<Seq<char>>, (ErrorKind, Seq<char>, Seq<char>)>(e@));
                        return Err(e);
                    },
                    Ok(mut more) => {
                        let ghost a = warnings@;
                        let ghost b = more@;
                        warnings.append(&mut more);
                        proof {
                            lemma_views_add(a, b);
                        }
                    },
                }
                i = i + 1;
            }
            Ok(warnings)
        },
        EndpointType::Switch(c) => {
            let ghost targets = switch_targets(*c);
            let ghost nc = c.cases@.len();
            let ghost nw = c.when@.len();
            assert(targets.len() == nc + nw + if c.default is Some {
                1int
            } else {
                0int
            });
            let mut warnings: Vec<String> = Vec::new();
            assert(views(warnings@) =~= Seq::<Seq<char>>::empty());
            let mut i: usize = 0;
            while i < c.cases.len()
                invariant
                    depth <= MAX_DEPTH,
                    d == depth + 1,
                    pol == policy_view(allowed),
                    targets == switch_targets(*c),
                    endpoint.endpoint_type == EndpointType::Switch(*c),
                    !policy_refuses(pol, endpoint.endpoint_type),
                    nc == c.cases@.len(),
                    i <= nc,
                    forall|k: int| 0 <= k < nc ==> #[trigger] targets[k] == c.cases@[k].1,
                    publishers_check(*registry, targets, d, pol, route@, i as nat) == Ok::<
                        Seq<Seq<char>>,
                        (ErrorKind, Seq<char>, Seq<char>),
                    >(views(warnings@)),
                decreases nc - i,
            {
                let r = check_output_at(route, &c.cases[i].1, depth + 1, allowed, registry);
                match r {
                    Err(e) => {
                        proof {
                            lemma_refusal_sticks(
                                *registry,
                                targets,
                                d,
                                pol,
                                route@,
                                (i + 1) as nat,
                                targets.len(),
                            );
                        }
                        assert(publishers_check(*registry, targets, d, pol, route@, (i + 1) as nat)
                            == Err::<Seq<Seq<char>>, (ErrorKind, Seq<char>, Seq<char>)>(e@));
                        return Err(e);
                    },
                    Ok(mut more) => {
                        let ghost a = warnings@;
                        let ghost b = more@;
                        warnings.append(&mut more);
                        proof {
                            lemma_views_add(a, b);
                        }
                    },
                }
                i = i + 1;
            }
            let mut j: usize = 0;
            while j < c.when.len()
                invariant
                    depth <= MAX_DEPTH,
                    d == depth + 1,
                    pol == policy_view(allowed),
                    targets == switch_targets(*c),
                    endpoint.endpoint_type == EndpointType::Switch(*c),
                    !policy_refuses(pol, endpoint.endpoint_type),
                    nc == c.cases@.len(),
                    nw == c.when@.len(),
                    j <= nw,
                    forall|k: int| 0 <= k < nw ==> #[trigger] targets[nc + k] == c.when@[k].to,
                    targets.len() >= nc + nw,
                    publishers_check(*registry, targets, d, pol, route@, (nc + j) as nat) == Ok::<
                        Seq<Seq<char>>,
                        (ErrorKind, Seq<char>, Seq<char>),
                    >(views(warnings@)),
                decreases nw - j,
            {
                let r = check_output_at(route, &c.when[j].to, depth + 1, allowed, registry);
                assert(targets[nc + j] == c.when@[j as int].to);
                match r {
                    Err(e) => {
                        proof {
                            lemma_refusal_sticks(
                                *registry,
                                targets,
                                d,
                                pol,
                                route@,
                                (nc + j + 1) as nat,
                                targets.len(),
                            );
                        }
                        assert(publishers_check(*registry, targets, d, pol, route@, (nc + j + 1) as nat)
                            == Err::<Seq<Seq<char>>, (ErrorKind, Seq<char>, Seq<char>)>(e@));
                        return Err(e);
                    },
                    Ok(mut more) => {
                        let ghost a = warnings@;
                        let ghost b = more@;
                        warnings.append(&mut more);
                        proof {
                            lemma_views_add(a, b);
                        }
                    },
                }
                j = j + 1;
            }
            match &c.default {
                None => {
                    assert(targets.len() == nc + nw);
                    Ok(warnings)
                },
                Some(default) => {
                    assert(targets[(nc + nw) as int] == **default);
                    assert(targets.len() == nc + nw + 1);
                    let rest = check_output_at(route, default, depth + 1, allowed, registry);
                    assert(publishers_check(*registry, targets, d, pol, route@, (nc + nw + 1) as nat)
                        == match publisher_check(*registry, **default, d, pol, route@) {
                        Err(x) => Err(x),
                        Ok(w2) => Ok(views(warnings@) + w2),
                    });
                    joined(warnings, rest)
                },
            }
        },
        EndpointType::Request(c) => {
            let ghost pair = seq![*c.to, *c.forward_to];
            assert(publishers_check(*registry, pair, d, pol, route@, 0) == Ok::<
                Seq<Seq<char>>,
                (ErrorKind, Seq<char>, Seq<char>),
            >(seq![]));
            let first = check_output_at(route, &c.to, depth + 1, allowed, registry);
            match first {
                Err(e) => {
                    proof {
                        lemma_refusal_sticks(*registry, pair, d, pol, route@, 1, 2);
                    }
                    Err(e)
                },
                Ok(w) => {
                    assert(Seq::<Seq<char>>::empty() + views(w@) =~= views(w@));
                    assert(publishers_check(*registry, pair, d, pol, route@, 1) == Ok::<
                        Seq<Seq<char>>,
                        (ErrorKind, Seq<char>, Seq<char>),
                    >(views(w@)));
                    let rest = check_output_at(route, &c.forward_to, depth + 1, allowed, registry);
                    assert(pair[1] == *c.forward_to);
                    assert(publishers_check(*registry, pair, d, pol, route@, 2) == match publisher_check(
                        *registry,
                        *c.forward_to,
                        d,
                        pol,
                        route@,
                    ) {
                        Err(x) => Err(x),
                        Ok(w2) => Ok(views(w@) + w2),
                    });
                    joined(w, rest)
                },
            }
        },
        EndpointType::Reader(inner) => check_input_at(route, inner, 0, allowed, registry),
        EndpointType::PostgresCdc(_) => {
            if policy_lists_name(allowed, endpoint.endpoint_type.name()) {
                let w: Vec<String> = Vec::new();
                assert(views(w@) =~= Seq::<Seq<char>>::empty());
                Ok(w)
            } else {
                Err(
                    EndpointError::new(
                        ErrorKind::UnsupportedPublisher,
                        route,
                        endpoint.endpoint_type.name(),
                    ),
                )
            }
        },
        _ => Ok(
            role_warning_list(
                endpoint.endpoint_type.name(),
                &consumer_only_flags(&endpoint.endpoint_type),
                false,
            ),
        ),
    }
}

/// Checks `endpoint` as the output of the route `route_name`. `allowed_types`, where given,
/// lists the transport types the route may use; `registry` resolves `ref` endpoints.
pub fn check_publisher(
    route_name: &str,
    endpoint: &Endpoint,
    allowed_types: Option<&[&str]>,
    registry: &Registry,
) -> (r: Result<Vec<String>, EndpointError>)
    ensures
        result_view(r) == publisher_check(
            *registry,
            *endpoint,
            0,
            policy_view(allowed_types),
            route_name@,
        ),
{
    check_output_at(route_name, endpoint, 0, allowed_types, registry)
}

impl Endpoint {
    /// Checks this endpoint as the input of the route `route_name`.
    pub fn check_consumer(
        &self,
        route_name: &str,
        allowed_endpoints: Option<&[&str]>,
        registry: &Registry,
    ) -> (r: Result<Vec<String>, EndpointError>)
        ensures
            result_view(r) == consumer_check(
                *registry,
                *self,
                0,
                policy_view(allowed_endpoints),
                route_name@,
            ),
    {
        check_consumer(route_name, self, allowed_endpoints, registry)
    }

    /// Checks this endpoint as the output of the route `route_name`.
    pub fn check_publisher(
        &self,
        route_name: &str,
        allowed_endpoints: Option<&[&str]>,
        registry: &Registry,
    ) -> (r: Result<Vec<String>, EndpointError>)
        ensures
            result_view(r) == publisher_check(
                *registry,
                *self,
                0,
                policy_view(allowed_endpoints),
                route_name@,
            ),
    {
        check_publisher(route_name, self, allowed_endpoints, registry)
    }
}

proof fn lemma_input_refusal_route(
    reg: Registry,
    e: Endpoint,
    depth: nat,
    allowed: Option<Seq<Seq<char>>>,
    route: Seq<char>,
)
    ensures
        consumer_check(reg, e, depth, allowed, route) matches Err(x) ==> x.1 == route,
    decreases 17 - depth,
{
    if depth <= MAX_DEPTH {
        if let EndpointType::Ref(name) = e.endpoint_type {
            if let Some(target) = reg.endpoint_named(name@) {
                lemma_input_refusal_route(reg, target, depth + 1, allowed, route);
            }
        }
    }
}

proof fn lemma_output_refusal_route(
    reg: Registry,
    e: Endpoint,
    depth: nat,
    allowed: Option<Seq<Seq<char>>>,
    route: Seq<char>,
)
    ensures
        publisher_check(reg, e, depth, allowed, route) matches Err(x) ==> x.1 == route,
    decreases 17 - depth, 0int,
{
    if !policy_refuses(allowed, e.endpoint_type) && depth <= MAX_DEPTH {
        match e.endpoint_type {
            EndpointType::Ref(name) => {
                if let Some(target) = reg.endpoint_named(name@) {
                    lemma_output_refusal_route(reg, target, depth + 1, allowed, route);
                }
            },
            EndpointType::Fanout(v) => {
                lemma_outputs_refusal_route(reg, v@, depth + 1, allowed, route, v@.len());
            },
            EndpointType::Switch(c) => {
                lemma_outputs_refusal_route(
                    reg,
                    switch_targets(c),
                    depth + 1,
                    allowed,
                    route,
                    switch_targets(c).len(),
                );
            },
            EndpointType::Request(c) => {
                lemma_outputs_refusal_route(
                    reg,
                    seq![*c.to, *c.forward_to],
                    depth + 1,
                    allowed,
                    route,
                    2,
                );
            },
            EndpointType::Reader(inner) => {
                lemma_input_refusal_route(reg, *inner, 0, allowed, route);
            },
            _ => {},
        }
    }
}

proof fn lemma_outputs_refusal_route(
    reg: Registry,
    s: Seq<Endpoint>,
    depth: nat,
    allowed: Option<Seq<Seq<char>>>,
    route: Seq<char>,
    n: nat,
)
    ensures
        publishers_check(reg, s, depth, allowed, route, n) matches Err(x) ==> x.1 == route,
    decreases 17 - depth, n + 1,
{
    if n > 0 {
        lemma_outputs_refusal_route(reg, s, depth, allowed, route, (n - 1) as nat);
        lemma_output_refusal_route(reg, s[n - 1], depth, allowed, route);
    }
}

/// A refused configuration names the route it was checked for, as an input and as an
/// output, however deep in the endpoint tree the refusal arose.
pub proof fn lemma_refusals_name_their_route(
    reg: Registry,
    e: Endpoint,
    allowed: Option<Seq<Seq<char>>>,
    route: Seq<char>,
)
    ensures
        consumer_check(reg, e, 0, allowed, route) matches Err(x) ==> x.1 == route,
        publisher_check(reg, e, 0, allowed, route) matches Err(x) ==> x.1 == route,
{
    lemma_input_refusal_route(reg, e, 0, allowed, route);
    lemma_output_refusal_route(reg, e, 0, allowed, route);
}

/// The endpoints an output sends on to: the members of a fanout, the targets of a switch,
/// and both ends of a request.
pub open spec fn output_branches(t: EndpointType) -> Seq<Endpoint> {
    match t {
        EndpointType::Fanout(v) => v@,
        EndpointType::Switch(c) => switch_targets(c),
        EndpointType::Request(c) => seq![*c.to, *c.forward_to],
        _ => seq![],
    }
}

proof fn lemma_accepted_prefix(
    reg: Registry,
    s: Seq<Endpoint>,
    depth: nat,
    allowed: Option<Seq<Seq<char>>>,
    route: Seq<char>,
    n: nat,
)
    requires
        publishers_check(reg, s, depth, allowed, route, n) is Ok,
    ensures
        forall|i: int|
            0 <= i < n ==> (#[trigger] publisher_check(reg, s[i], depth, allowed, route)) is Ok,
    decreases n,
{
    if n > 0 {
        lemma_accepted_prefix(reg, s, depth, allowed, route, (n - 1) as nat);
    }
}

/// An output tree passes its check only if every branch below it passes: a refusal
/// anywhere in a fanout, a switch or a request refuses the whole tree.
pub proof fn lemma_tree_passes_only_with_its_branches(
    reg: Registry,
    e: Endpoint,
    depth: nat,
    allowed: Option<Seq<Seq<char>>>,
    route: Seq<char>,
)
    requires
        publisher_check(reg, e, depth, allowed, route) is Ok,
    ensures
        forall|i: int|
            0 <= i < output_branches(e.endpoint_type).len() ==> (#[trigger] publisher_check(
                reg,
                output_branches(e.endpoint_type)[i],
                depth + 1,
                allowed,
                route,
            )) is Ok,
{
    let b = output_branches(e.endpoint_type);
    if b.len() > 0 {
        lemma_accepted_prefix(reg, b, depth + 1, allowed, route, b.len());
    }
}

/// Whether `name` is registered as an endpoint that is itself a `ref` to `next`.
pub open spec fn refers_on(reg: Registry, name: Seq<char>, next: Seq<char>) -> bool {
    reg.endpoint_named(name) matches Some(x) && x.endpoint_type matches EndpointType::Ref(n)
        && n@ == next
}

proof fn lemma_input_cycle(
    reg: Registry,
    a: Seq<char>,
    b: Seq<char>,
    e: Endpoint,
    depth: nat,
    allowed: Option<Seq<Seq<char>>>,
    route: Seq<char>,
)
    requires
        refers_on(reg, a, b),
        refers_on(reg, b, a),
        e.endpoint_type matches EndpointType::Ref(n) && (n@ == a || n@ == b),
    ensures
        consumer_check(reg, e, depth, allowed, route) == Err::<
            Seq<Seq<char>>,
            (ErrorKind, Seq<char>, Seq<char>),
        >(err_view(ErrorKind::RefDepthExceeded, route, ""@)),
    decreases 17 - depth,
{
    if depth <= MAX_DEPTH {
        if let EndpointType::Ref(n) = e.endpoint_type {
            let target = reg.endpoint_named(n@).unwrap();
            lemma_input_cycle(reg, a, b, target, depth + 1, allowed, route);
        }
    }
}

proof fn lemma_output_cycle(
    reg: Registry,
    a: Seq<char>,
    b: Seq<char>,
    e: Endpoint,
    depth: nat,
    allowed: Option<Seq<Seq<char>>>,
    route: Seq<char>,
)
    requires
        refers_on(reg, a, b),
        refers_on(reg, b, a),
        e.endpoint_type matches EndpointType::Ref(n) && (n@ == a || n@ == b),
    ensures
        publisher_check(reg, e, depth, allowed, route) == Err::<
            Seq<Seq<char>>,
            (ErrorKind, Seq<char>, Seq<char>),
        >(err_view(ErrorKind::FanoutDepthExceeded, route, ""@)),
    decreases 17 - depth,
{
    if depth <= MAX_DEPTH {
        if let EndpointType::Ref(n) = e.endpoint_type {
            let target = reg.endpoint_named(n@).unwrap();
            lemma_output_cycle(reg, a, b, target, depth + 1, allowed, route);
        }
    }
}

/// A cycle of `ref`s (`a` refers to `b` and `b` back to `a`; `a` and `b` may be one name)
/// ends in the depth refusal, as an input and as an output, instead of running forever.
pub proof fn lemma_ref_cycle_hits_depth_limit(
    reg: Registry,
    a: Seq<char>,
    b: Seq<char>,
    e: Endpoint,
    allowed: Option<Seq<Seq<char>>>,
    route: Seq<char>,
)
    requires
        refers_on(reg, a, b),
        refers_on(reg, b, a),
        e.endpoint_type matches EndpointType::Ref(n) && n@ == a,
    ensures
        consumer_check(reg, e, 0, allowed, route) == Err::<
            Seq<Seq<char>>,
            (ErrorKind, Seq<char>, Seq<char>),
        >(err_view(ErrorKind::RefDepthExceeded, route, ""@)),
        publisher_check(reg, e, 0, allowed, route) == Err::<
            Seq<Seq<char>>,
            (ErrorKind, Seq<char>, Seq<char>),
        >(err_view(ErrorKind::FanoutDepthExceeded, route, ""@)),
{
    lemma_input_cycle(reg, a, b, e, 0, allowed, route);
    lemma_output_cycle(reg, a, b, e, 0, allowed, route);
}

/// A `ref` to a name that nothing is registered under is refused as an input; as an
/// output too, unless a publisher is registered under the name.
pub proof fn lemma_unregistered_ref_refused(
    reg: Registry,
    e: Endpoint,
    depth: nat,
    allowed: Option<Seq<Seq<char>>>,
    route: Seq<char>,
)
    requires
        depth <= MAX_DEPTH,
        e.endpoint_type matches EndpointType::Ref(n) && reg.endpoint_named(n@) is None,
    ensures
        consumer_check(reg, e, depth, allowed, route) matches Err(x) && x.0
            == ErrorKind::RefNotFound,
        e.endpoint_type matches EndpointType::Ref(n) && !reg.publisher_named(n@)
            ==> (publisher_check(reg, e, depth, allowed, route) matches Err(x) && x.0
            == ErrorKind::RefNotInAnyRegistry),
{
}

/// The policy list governs transports only: for an endpoint type of the bridge itself that
/// has no branches, a check gives the same answer under any policy list as under none.
pub proof fn lemma_policy_never_blocks_core_types(
    reg: Registry,
    e: Endpoint,
    depth: nat,
    allowed: Option<Seq<Seq<char>>>,
    route: Seq<char>,
)
    requires
        is_core_type(e.endpoint_type),
        e.endpoint_type is Static || e.endpoint_type is StreamBuffer || e.endpoint_type is Memory
            || e.endpoint_type is File || e.endpoint_type is Null || e.endpoint_type is Response,
    ensures
        publisher_check(reg, e, depth, allowed, route) == publisher_check(
            reg,
            e,
            depth,
            None,
            route,
        ),
        !(e.endpoint_type is Null || e.endpoint_type is Response) ==> consumer_check(
            reg,
            e,
            depth,
            allowed,
            route,
        ) == consumer_check(reg, e, depth, None, route),
{
}

/// Types that only work as outputs are refused as inputs: a switch or a reader under any
/// policy list; `null`, `fanout`, `request` and `response` unless the policy list names
/// them.
pub proof fn lemma_output_only_types_refused_as_inputs(
    reg: Registry,
    e: Endpoint,
    depth: nat,
    allowed: Option<Seq<Seq<char>>>,
    route: Seq<char>,
)
    requires
        depth <= MAX_DEPTH,
        e.endpoint_type is Switch || e.endpoint_type is Reader || ((e.endpoint_type is Null
            || e.endpoint_type is Fanout || e.endpoint_type is Request
            || e.endpoint_type is Response) && !policy_lists(
            allowed,
            endpoint_type_name(e.endpoint_type),
        )),
    ensures
        consumer_check(reg, e, depth, allowed, route) matches Err(x) && (x.0
            == ErrorKind::OutputOnly || x.0 == ErrorKind::UnsupportedConsumer),
{
}

/// An output tree that passes its check some levels below the route passes it the same
/// way one level higher up: only the depth limit depends on the level.
proof fn lemma_shallower_output_check(
    reg: Registry,
    e: Endpoint,
    d: nat,
    allowed: Option<Seq<Seq<char>>>,
    route: Seq<char>,
)
    ensures
        publisher_check(reg, e, d + 1, allowed, route) matches Ok(w) ==> publisher_check(reg, e, d, allowed, route)
            == Ok::<Seq<Seq<char>>, (ErrorKind, Seq<char>, Seq<char>)>(w),
    decreases 17 - d, 0int,
{
    if d + 1 <= MAX_DEPTH {
        match e.endpoint_type {
            EndpointType::Ref(name) => {
                if let Some(target) = reg.endpoint_named(name@) {
                    lemma_shallower_output_check(reg, target, d + 1, allowed, route);
                }
            },
            EndpointType::Fanout(v) => {
                lemma_shallower_outputs(reg, v@, d + 1, allowed, route, v@.len());
            },
            EndpointType::Switch(c) => {
                lemma_shallower_outputs(reg, switch_targets(c), d + 1, allowed, route, switch_targets(c).len());
            },
            EndpointType::Request(c) => {
                lemma_shallower_outputs(reg, seq![*c.to, *c.forward_to], d + 1, allowed, route, 2);
            },
            _ => {},
        }
    }
}

proof fn lemma_shallower_outputs(
    reg: Registry,
    s: Seq<Endpoint>,
    d: nat,
    allowed: Option<Seq<Seq<char>>>,
    route: Seq<char>,
    n: nat,
)
    ensures
        publishers_check(reg, s, d + 1, allowed, route, n) matches Ok(w) ==> publishers_check(
            reg,
            s,
            d,
            allowed,
            route,
            n,
        ) == Ok::<Seq<Seq<char>>, (ErrorKind, Seq<char>, Seq<char>)>(w),
    decreases 17 - d, n + 1,
{
    if n > 0 {
        lemma_shallower_outputs(reg, s, d, allowed, route, (n - 1) as nat);
        lemma_shallower_output_check(reg, s[n - 1], d, allowed, route);
    }
}

/// Whether the checks of the first `n` outputs of `s` at `depth` all pass.
pub open spec fn all_pass(
    reg: Registry,
    s: Seq<Endpoint>,
    depth: nat,
    allowed: Option<Seq<Seq<char>>>,
    route: Seq<char>,
    n: nat,
) -> bool {
    forall|i: int| 0 <= i < n ==> #[trigger] publisher_check(reg, s[i], depth, allowed, route) is Ok
}

proof fn lemma_joined_checks_pass_each(
    reg: Registry,
    s: Seq<Endpoint>,
    depth: nat,
    allowed: Option<Seq<Seq<char>>>,
    route: Seq<char>,
    n: nat,
)
    requires
        n <= s.len(),
    ensures
        publishers_check(reg, s, depth, allowed, route, n) is Ok <==> all_pass(reg, s, depth, allowed, route, n),
    decreases n,
{
    if n > 0 {
        lemma_joined_checks_pass_each(reg, s, depth, allowed, route, (n - 1) as nat);
        let last = publisher_check(reg, s[n - 1], depth, allowed, route);
        if all_pass(reg, s, depth, allowed, route, n) {
            assert(last is Ok);
            assert forall|i: int| 0 <= i < n - 1 implies #[trigger] publisher_check(reg, s[i], depth, allowed, route) is Ok by {
                assert(publisher_check(reg, s[i], depth, allowed, route) is Ok);
            }
        }
        if all_pass(reg, s, depth, allowed, route, (n - 1) as nat) && last is Ok {
            assert forall|i: int| 0 <= i < n implies #[trigger] publisher_check(reg, s[i], depth, allowed, route) is Ok by {
                if i < n - 1 {
                    assert(publisher_check(reg, s[i], depth, allowed, route) is Ok);
                }
            }
        }
    }
}

/// A fanout's check is its members' checks joined: where it passes, every member passes
/// its own check as a route's output and the warnings are theirs, joined in member order;
/// and where a member's own check refuses, so does the fanout's.
pub proof fn lemma_fanout_check_joins_members(
    reg: Registry,
    e: Endpoint,
    allowed: Option<Seq<Seq<char>>>,
    route: Seq<char>,
)
    requires
        e.endpoint_type is Fanout,
    ensures
        ({
            let members = e.endpoint_type->Fanout_0@;
            &&& publisher_check(reg, e, 0, allowed, route) matches Ok(w) ==> all_pass(
                reg,
                members,
                0,
                allowed,
                route,
                members.len(),
            ) && publishers_check(reg, members, 0, allowed, route, members.len())
                == Ok::<Seq<Seq<char>>, (ErrorKind, Seq<char>, Seq<char>)>(w)
            &&& (exists|i: int| 0 <= i < members.len() && #[trigger] publisher_check(reg, members[i], 0, allowed, route) is Err)
                ==> publisher_check(reg, e, 0, allowed, route) is Err
        }),
{
    let members = e.endpoint_type->Fanout_0@;
    lemma_shallower_outputs(reg, members, 0, allowed, route, members.len());
    lemma_joined_checks_pass_each(reg, members, 0, allowed, route, members.len());
    lemma_joined_checks_pass_each(reg, members, 1, allowed, route, members.len());
    if publisher_check(reg, e, 0, allowed, route) is Ok {
        assert(publishers_check(reg, members, 1, allowed, route, members.len()) is Ok);
    }
    if exists|i: int| 0 <= i < members.len() && #[trigger] publisher_check(reg, members[i], 0, allowed, route) is Err {
        let i = choose|i: int| 0 <= i < members.len() && #[trigger] publisher_check(reg, members[i], 0, allowed, route) is Err;
        lemma_shallower_output_check(reg, members[i], 0, allowed, route);
        assert(!all_pass(reg, members, 1, allowed, route, members.len()));
    }
}

/// Whether `e` reaches at most `k` levels below itself: each reference to a registered
/// endpoint, fanout, switch and request takes one level; every other endpoint, and a
/// reference to a publisher registered under its name, takes none.
pub open spec fn nests_within(reg: Registry, e: Endpoint, k: nat) -> bool
    decreases k,
{
    match e.endpoint_type {
        EndpointType::Ref(name) => match reg.endpoint_named(name@) {
            Some(target) => if k == 0 {
                false
            } else {
                nests_within(reg, target, (k - 1) as nat)
            },
            None => true,
        },
        EndpointType::Fanout(v) => if k == 0 {
            false
        } else {
            forall|i: int| 0 <= i < v@.len() ==> nests_within(reg, #[trigger] v@[i], (k - 1) as nat)
        },
        EndpointType::Switch(c) => if k == 0 {
            false
        } else {
            forall|i: int| 0 <= i < switch_targets(c).len() ==> nests_within(
                reg,
                #[trigger] switch_targets(c)[i],
                (k - 1) as nat,
            )
        },
        EndpointType::Request(c) => if k == 0 {
            false
        } else {
            nests_within(reg, *c.to, (k - 1) as nat) && nests_within(reg, *c.forward_to, (k - 1) as nat)
        },
        _ => true,
    }
}

/// An output tree that stays within the depth limit one level further down is checked
/// there exactly as it is where it stands.
proof fn lemma_output_check_one_level_down(
    reg: Registry,
    e: Endpoint,
    d: nat,
    k: nat,
    allowed: Option<Seq<Seq<char>>>,
    route: Seq<char>,
)
    requires
        nests_within(reg, e, k),
        d + 1 + k <= MAX_DEPTH,
    ensures
        publisher_check(reg, e, d + 1, allowed, route) == publisher_check(reg, e, d, allowed, route),
    decreases k, 0int,
{
    match e.endpoint_type {
        EndpointType::Ref(name) => {
            if let Some(target) = reg.endpoint_named(name@) {
                lemma_output_check_one_level_down(reg, target, d + 1, (k - 1) as nat, allowed, route);
            }
        },
        EndpointType::Fanout(v) => {
            lemma_outputs_one_level_down(reg, v@, d + 1, (k - 1) as nat, allowed, route, v@.len());
        },
        EndpointType::Switch(c) => {
            lemma_outputs_one_level_down(
                reg,
                switch_targets(c),
                d + 1,
                (k - 1) as nat,
                allowed,
                route,
                switch_targets(c).len(),
            );
        },
        EndpointType::Request(c) => {
            let s = seq![*c.to, *c.forward_to];
            assert(s[0] == *c.to && s[1] == *c.forward_to);
            lemma_outputs_one_level_down(reg, s, d + 1, (k - 1) as nat, allowed, route, 2);
        },
        _ => {},
    }
}

proof fn lemma_outputs_one_level_down(
    reg: Registry,
    s: Seq<Endpoint>,
    d: nat,
    k: nat,
    allowed: Option<Seq<Seq<char>>>,
    route: Seq<char>,
    n: nat,
)
    requires
        n <= s.len(),
        forall|i: int| 0 <= i < n ==> nests_within(reg, #[trigger] s[i], k),
        d + 1 + k <= MAX_DEPTH,
    ensures
        publishers_check(reg, s, d + 1, allowed, route, n) == publishers_check(reg, s, d, allowed, route, n),
    decreases k, n + 1,
{
    if n > 0 {
        lemma_outputs_one_level_down(reg, s, d, k, allowed, route, (n - 1) as nat);
        lemma_output_check_one_level_down(reg, s[n - 1], d, k, allowed, route);
    }
}

/// Where each of the first `n` outputs of `s` passes with warnings `ws[i]`, their joined
/// check passes with those warnings, joined in order.
proof fn lemma_passing_checks_join(
    reg: Registry,
    s: Seq<Endpoint>,
    depth: nat,
    allowed: Option<Seq<Seq<char>>>,
    route: Seq<char>,
    ws: Seq<Seq<Seq<char>>>,
    n: nat,
)
    requires
        n <= s.len(),
        n <= ws.len(),
        forall|i: int| 0 <= i < n ==> #[trigger] publisher_check(reg, s[i], depth, allowed, route) == Ok::<
            Seq<Seq<char>>,
            (ErrorKind, Seq<char>, Seq<char>),
        >(ws[i]),
    ensures
        publishers_check(reg, s, depth, allowed, route, n) == Ok::<Seq<Seq<char>>, (ErrorKind, Seq<char>, Seq<char>)>(
            ws.take(n as int).flatten(),
        ),
    decreases n,
{
    if n == 0 {
        assert(ws.take(0) =~= Seq::<Seq<Seq<char>>>::empty());
    } else {
        lemma_passing_checks_join(reg, s, depth, allowed, route, ws, (n - 1) as nat);
        assert(publisher_check(reg, s[n - 1], depth, allowed, route) == Ok::<
            Seq<Seq<char>>,
            (ErrorKind, Seq<char>, Seq<char>),
        >(ws[n - 1]));
        assert(ws.take(n as int) =~= ws.take(n - 1).push(ws[n - 1]));
        ws.take(n - 1).lemma_flatten_push(ws[n - 1]);
    }
}

/// A fanout whose members each reach at most `MAX_DEPTH - 1` levels below themselves
/// passes its check as a route's output where every member passes its own check as a
/// route's output, and its warnings are the members' warnings joined in member order.
pub proof fn lemma_fanout_of_passing_members_passes(
    reg: Registry,
    e: Endpoint,
    allowed: Option<Seq<Seq<char>>>,
    route: Seq<char>,
    ws: Seq<Seq<Seq<char>>>,
)
    requires
        e.endpoint_type is Fanout,
        ws.len() == e.endpoint_type->Fanout_0@.len(),
        forall|i: int|
            0 <= i < ws.len() ==> nests_within(reg, #[trigger] e.endpoint_type->Fanout_0@[i], (MAX_DEPTH - 1) as nat),
        forall|i: int|
            0 <= i < ws.len() ==> #[trigger] publisher_check(reg, e.endpoint_type->Fanout_0@[i], 0, allowed, route)
                == Ok::<Seq<Seq<char>>, (ErrorKind, Seq<char>, Seq<char>)>(ws[i]),
    ensures
        publisher_check(reg, e, 0, allowed, route) == Ok::<Seq<Seq<char>>, (ErrorKind, Seq<char>, Seq<char>)>(
            ws.flatten(),
        ),
{
    let members = e.endpoint_type->Fanout_0@;
    lemma_outputs_one_level_down(reg, members, 0, (MAX_DEPTH - 1) as nat, allowed, route, members.len());
    lemma_passing_checks_join(reg, members, 0, allowed, route, ws, members.len());
    assert(ws.take(ws.len() as int) =~= ws);
}

} // verus!
