//! The input side of a route: following `ref`s to the endpoint that is read, and whether
//! what it reads carries a replay position.
use crate::errors::{err_view, EndpointError, ErrorKind, MAX_DEPTH};
use crate::models::{
    Endpoint, EndpointType, Middleware, MongoConsume, PostgresCdcConfig, SqlxConfig,
};
use crate::registry::Registry;
use crate::text::{has_prefix, starts_with, trim, trim_seq, views};
use vstd::prelude::*;
use vstd::string::*;

verus! {

/// The middlewares a sequence of references points at.
pub open spec fn middleware_targets(s: Seq<&Middleware>) -> Seq<Middleware> {
    s.map_values(|m: &Middleware| *m)
}

/// Follows `ref`s from `e` to the endpoint they name: that endpoint, and the middlewares
/// met on the way, outermost first and the endpoint's own last. `visited` holds the names
/// already followed.
pub open spec fn resolve_chain(
    reg: Registry,
    e: Endpoint,
    visited: Seq<Seq<char>>,
    route: Seq<char>,
) -> Result<(Endpoint, Seq<Middleware>), (ErrorKind, Seq<char>, Seq<char>)>
    decreases 17 - visited.len(),
{
    if visited.len() > MAX_DEPTH {
        Err(err_view(ErrorKind::ReferenceDepthExceeded, route, ""@))
    } else {
        match e.endpoint_type {
            EndpointType::Ref(name) => if visited.contains(name@) {
                Err(err_view(ErrorKind::CircularReference, route, name@))
            } else {
                match reg.endpoint_named(name@) {
                    None => Err(err_view(ErrorKind::RefNotFound, route, name@)),
                    Some(t) => match resolve_chain(reg, t, visited.push(name@), route) {
                        Err(x) => Err(x),
                        Ok((end, ms)) => Ok((end, e.middlewares@ + ms)),
                    },
                }
            },
            _ => Ok((e, e.middlewares@)),
        }
    }
}

/// The endpoint a route reads from once its `ref`s are followed, with every middleware met
/// on the way.
pub struct ResolvedEndpoint<'a> {
    /// The endpoint that is read; never a `ref`.
    pub endpoint: &'a Endpoint,
    /// The middlewares of the `ref`s followed, outermost first, then the endpoint's own.
    pub middlewares: Vec<&'a Middleware>,
}

/// What a resolution gives, in terms of views.
pub open spec fn resolved_view(r: Result<ResolvedEndpoint, EndpointError>) -> Result<
    (Endpoint, Seq<Middleware>),
    (ErrorKind, Seq<char>, Seq<char>),
> {
    match r {
        Ok(x) => Ok((*x.endpoint, middleware_targets(x.middlewares@))),
        Err(e) => Err(e@),
    }
}

fn refs_to_middlewares<'a>(v: &'a Vec<Middleware>) -> (r: Vec<&'a Middleware>)
    ensures
        middleware_targets(r@) == v@,
{
    let mut out: Vec<&'a Middleware> = Vec::new();
    let mut i: usize = 0;
    while i < v.len()
        invariant
            i <= v@.len(),
            out@.len() == i,
            forall|k: int| 0 <= k < i ==> *#[trigger] out@[k] == v@[k],
        decreases v@.len() - i,
    {
        out.push(&v[i]);
        i = i + 1;
    }
    assert(middleware_targets(out@) =~= v@);
    out
}

fn name_followed(v: &Vec<String>, name: &str) -> (r: bool)
    ensures
        r == views(v@).contains(name@),
{
    let mut i: usize = 0;
    while i < v.len()
        invariant
            i <= v@.len(),
            forall|k: int| 0 <= k < i ==> (#[trigger] v@[k])@ != name@,
        decreases v@.len() - i,
    {
        if crate::text::str_eq(v[i].as_str(), name) {
            assert(views(v@)[i as int] == name@);
            return true;
        }
        i = i + 1;
    }
    assert forall|k: int| 0 <= k < views(v@).len() implies views(v@)[k] != name@ by {
        assert(views(v@)[k] == v@[k]@);
    }
    false
}

fn resolve_from<'a>(
    endpoint: &'a Endpoint,
    route_name: &str,
    visited: &mut Vec<String>,
    registry: &'a Registry,
) -> (r: Result<ResolvedEndpoint<'a>, EndpointError>)
    ensures
        resolved_view(r) == resolve_chain(*registry, *endpoint, views(old(visited)@), route_name@),
    decreases 17 - old(visited)@.len(),
{
    if visited.len() > MAX_DEPTH {
        return Err(EndpointError::new(ErrorKind::ReferenceDepthExceeded, route_name, ""));
    }
    match &endpoint.endpoint_type {
        EndpointType::Ref(name) => {
            if name_followed(visited, name.as_str()) {
                return Err(
                    EndpointError::new(ErrorKind::CircularReference, route_name, name.as_str()),
                );
            }
            match registry.get_endpoint(name.as_str()) {
                None => Err(EndpointError::new(ErrorKind::RefNotFound, route_name, name.as_str())),
                Some(target) => {
                    let ghost before = views(visited@);
                    visited.push(String::from_str(name.as_str()));
                    assert(views(visited@) =~= before.push(name@));
                    match resolve_from(target, route_name, visited, registry) {
                        Err(x) => Err(x),
                        Ok(inner) => {
                            let mut merged = refs_to_middlewares(&endpoint.middlewares);
                            let ghost a = merged@;
                            let ghost b = inner.middlewares@;
                            let mut rest = inner.middlewares;
                            merged.append(&mut rest);
                            assert(middleware_targets(merged@) =~= middleware_targets(a)
                                + middleware_targets(b));
                            Ok(ResolvedEndpoint { endpoint: inner.endpoint, middlewares: merged })
                        },
                    }
                },
            }
        },
        _ => Ok(
            ResolvedEndpoint {
                endpoint,
                middlewares: refs_to_middlewares(&endpoint.middlewares),
            },
        ),
    }
}

/// Follows `endpoint`'s `ref`s through `registry` to the endpoint that is read.
pub fn resolve_endpoint<'a>(
    endpoint: &'a Endpoint,
    route_name: &str,
    registry: &'a Registry,
) -> (r: Result<ResolvedEndpoint<'a>, EndpointError>)
    ensures
        resolved_view(r) == resolve_chain(*registry, *endpoint, seq![], route_name@),
{
    let mut visited: Vec<String> = Vec::new();
    assert(views(visited@) =~= Seq::<Seq<char>>::empty());
    resolve_from(endpoint, route_name, &mut visited, registry)
}

/// Whether an input type stamps a replay position that a sink can name what it writes
/// after. NATS and AMQP stamp provenance too, but a routing key is no replayable offset.
pub open spec fn stamps_position(t: EndpointType) -> bool {
    match t {
        EndpointType::Kafka(_) | EndpointType::PostgresCdc(_) | EndpointType::File(_) => true,
        EndpointType::Sqlx(c) => c.publication is Some || c.cursor_column is Some,
        EndpointType::MongoDb(c) => c.consume is None || c.consume == Some(MongoConsume::CaptureNew)
            || c.consume == Some(MongoConsume::CaptureAll),
        _ => false,
    }
}

/// Whether an input type stamps a replay position (see [`stamps_position`]).
pub fn supports_source_metadata(endpoint_type: &EndpointType) -> (r: bool)
    ensures
        r == stamps_position(*endpoint_type),
{
    match endpoint_type {
        EndpointType::Kafka(_) | EndpointType::PostgresCdc(_) | EndpointType::File(_) => true,
        EndpointType::Sqlx(c) => c.publication.is_some() || c.cursor_column.is_some(),
        EndpointType::MongoDb(c) => match c.consume {
            None => true,
            Some(MongoConsume::CaptureNew) | Some(MongoConsume::CaptureAll) => true,
            _ => false,
        },
        _ => false,
    }
}

/// Whether an input's config asks it to stamp its source metadata.
pub open spec fn asks_for_source_metadata(t: EndpointType) -> bool {
    match t {
        EndpointType::Kafka(c) => c.source_metadata,
        EndpointType::Nats(c) => c.source_metadata,
        EndpointType::Amqp(c) => c.source_metadata,
        EndpointType::PostgresCdc(c) => c.source_metadata,
        EndpointType::MongoDb(c) => c.source_metadata,
        EndpointType::File(c) => c.source_metadata,
        EndpointType::Sqlx(c) => c.source_metadata,
        _ => false,
    }
}

/// Whether an input's config asks it to stamp its source metadata.
pub fn source_metadata_requested(endpoint_type: &EndpointType) -> (r: bool)
    ensures
        r == asks_for_source_metadata(*endpoint_type),
{
    match endpoint_type {
        EndpointType::Kafka(c) => c.source_metadata,
        EndpointType::Nats(c) => c.source_metadata,
        EndpointType::Amqp(c) => c.source_metadata,
        EndpointType::PostgresCdc(c) => c.source_metadata,
        EndpointType::MongoDb(c) => c.source_metadata,
        EndpointType::File(c) => c.source_metadata,
        EndpointType::Sqlx(c) => c.source_metadata,
        _ => false,
    }
}

/// The refusal of a source-position-named output behind an input without replay positions.
pub fn source_position_unavailable(route_name: &str) -> (r: EndpointError)
    ensures
        r@ == err_view(ErrorKind::SourcePositionUnavailable, route_name@, ""@),
{
    EndpointError::new(ErrorKind::SourcePositionUnavailable, route_name, "")
}

/// Refuses a route whose output needs source positions (`source_metadata_required`) when
/// the endpoint its input resolves to stamps none.
pub fn check_source_position_available(
    route_name: &str,
    input: &Endpoint,
    source_metadata_required: bool,
    registry: &Registry,
) -> (r: Result<(), EndpointError>)
    ensures
        !source_metadata_required ==> r is Ok,
        source_metadata_required ==> match resolve_chain(*registry, *input, seq![], route_name@) {
            Err(x) => r matches Err(e) && e@ == x,
            Ok((end, _)) => if stamps_position(end.endpoint_type) {
                r is Ok
            } else {
                r matches Err(e) && e@ == err_view(
                    ErrorKind::SourcePositionUnavailable,
                    route_name@,
                    ""@,
                )
            },
        },
{
    if !source_metadata_required {
        return Ok(());
    }
    match resolve_endpoint(input, route_name, registry) {
        Err(x) => Err(x),
        Ok(resolved) => {
            if !supports_source_metadata(&resolved.endpoint.endpoint_type) {
                Err(source_position_unavailable(route_name))
            } else {
                Ok(())
            }
        },
    }
}

/// Whether `url`, trimmed, is a PostgreSQL URL.
pub open spec fn is_postgres_url(url: Seq<char>) -> bool {
    has_prefix(trim_seq(url), "postgres://"@) || has_prefix(trim_seq(url), "postgresql://"@)
}

/// The CDC config a PostgreSQL `sqlx` input with a `publication` reads through.
pub open spec fn cdc_of(c: SqlxConfig, r: PostgresCdcConfig) -> bool {
    &&& r.url@ == c.url@
    &&& r.publication@ == match c.publication {
        Some(p) => p@,
        None => Seq::<char>::empty(),
    }
    &&& !r.source_metadata
    &&& r.slot_name@ == match c.slot_name {
        Some(s) => s@,
        None => "mq_bridge_slot"@,
    }
    &&& r.create_slot
    &&& r.create_publication == c.create_publication
    &&& views(r.publication_tables@) == if c.create_publication {
        seq![c.table@]
    } else {
        seq![]
    }
    &&& !r.temporary_slot
    &&& r.cursor_id == c.cursor_id
    &&& r.checkpoint_store == c.checkpoint_store
    &&& r.status_interval_ms == 10_000
}

/// Maps a `sqlx` input that asks for CDC (through `publication`) onto the PostgreSQL CDC
/// config it reads through. Refused for a URL that is not PostgreSQL, and for a config that
/// also sets a polling `cursor_column`.
pub fn sqlx_cfg_to_cdc(cfg: &SqlxConfig) -> (r: Result<PostgresCdcConfig, EndpointError>)
    ensures
        !is_postgres_url(cfg.url@) ==> (r matches Err(e) && e@ == err_view(
            ErrorKind::SqlxCdcNotPostgres,
            ""@,
            cfg.url@,
        )),
        is_postgres_url(cfg.url@) && cfg.cursor_column is Some ==> (r matches Err(e) && e@
            == err_view(ErrorKind::SqlxCdcWithCursor, ""@, ""@)),
        is_postgres_url(cfg.url@) && cfg.cursor_column is None ==> (r matches Ok(c) && cdc_of(
            *cfg,
            c,
        )),
{
    let url = trim(cfg.url.as_str());
    if !(starts_with(url, "postgres://") || starts_with(url, "postgresql://")) {
        return Err(EndpointError::new(ErrorKind::SqlxCdcNotPostgres, "", cfg.url.as_str()));
    }
    if cfg.cursor_column.is_some() {
        return Err(EndpointError::new(ErrorKind::SqlxCdcWithCursor, "", ""));
    }
    let publication = match &cfg.publication {
        Some(p) => p.clone(),
        None => String::new(),
    };
    let slot_name = match &cfg.slot_name {
        Some(s) => s.clone(),
        None => String::from_str("mq_bridge_slot"),
    };
    let mut publication_tables: Vec<String> = Vec::new();
    if cfg.create_publication {
        publication_tables.push(cfg.table.clone());
    }
    assert(views(publication_tables@) =~= if cfg.create_publication {
        seq![cfg.table@]
    } else {
        seq![]
    });
    Ok(
        PostgresCdcConfig {
            url: cfg.url.clone(),
            publication,
            source_metadata: false,
            slot_name,
            create_slot: true,
            create_publication: cfg.create_publication,
            publication_tables,
            temporary_slot: false,
            cursor_id: cfg.cursor_id.clone(),
            checkpoint_store: cfg.checkpoint_store.clone(),
            status_interval_ms: 10_000,
        },
    )
}

} // verus!
