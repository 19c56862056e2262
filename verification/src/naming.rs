//! How object-store sinks name what they write when the route drops messages.
//!
//! `name_by: auto` on an object store names each object after the contiguous source range
//! it covers when the input stamps positions. A route that removes messages from its
//! batches would then split every batch into many small objects, so such a route's
//! auto-named object stores are moved to write-time naming, and the operator is told why.
use crate::errors::{err_view, EndpointError, ErrorKind, MAX_DEPTH};
use crate::models::{
    Endpoint, EndpointType, Middleware, NameBy, ObjectStoreConfig, SwitchConfig,
    TransformErrorPolicy,
};
use crate::registry::Registry;
use crate::validation::switch_targets;
use vstd::prelude::*;
use vstd::string::*;

verus! {

/// The view of an optional string.
pub open spec fn opt_view(s: Option<&str>) -> Option<Seq<char>> {
    match s {
        Some(x) => Some(x@),
        None => None,
    }
}

/// `a`, or `b` where `a` is empty.
pub open spec fn or_else(a: Option<Seq<char>>, b: Option<Seq<char>>) -> Option<Seq<char>> {
    if a is Some {
        a
    } else {
        b
    }
}

/// What a middleware is called where it removes messages from a batch. Only one that drops
/// a message outright counts; one that delays, retries or rewrites leaves the batch dense.
pub open spec fn drops_rows(m: Middleware) -> Option<Seq<char>> {
    match m {
        Middleware::Filter(_) => Some("the `filter` middleware"@),
        Middleware::Deduplication(_) => Some("the `deduplication` middleware"@),
        Middleware::WeakJoin(_) => Some("the `weak_join` middleware"@),
        Middleware::Transform(c) => if c.on_error == TransformErrorPolicy::Reject && !(
        c.mapping@.len() == 0 && c.expression is None && c.schema is None
            && c.schema_file is None) {
            Some("`transform` with `on_error: reject`"@)
        } else {
            None
        },
        _ => None,
    }
}

/// The first middleware of `ms` that removes messages, by name.
pub open spec fn dropper_of(ms: Seq<Middleware>) -> Option<Seq<char>>
    decreases ms.len(),
{
    if ms.len() == 0 {
        None
    } else {
        or_else(drops_rows(ms[0]), dropper_of(ms.drop_first()))
    }
}

/// What a switch that drops the messages matching none of its arms is called.
pub open spec fn switch_dropper(c: SwitchConfig) -> Option<Seq<char>> {
    if (c.when@.len() > 0 || c.cases@.len() > 0) && c.default is None {
        Some("a `switch` with no `default`"@)
    } else {
        None
    }
}

/// The endpoints an output passes its messages on to, in order.
pub open spec fn naming_branches(t: EndpointType) -> Seq<Endpoint> {
    match t {
        EndpointType::Fanout(v) => v@,
        EndpointType::Switch(c) => switch_targets(c),
        EndpointType::Reader(inner) => seq![*inner],
        EndpointType::Request(c) => seq![*c.to, *c.forward_to],
        _ => seq![],
    }
}

/// Whether the output tree below `e`, `depth` levels down, stays within the depth limit.
pub open spec fn fits_depth(e: Endpoint, depth: nat) -> bool
    decreases 17 - depth,
{
    depth <= MAX_DEPTH && forall|i: int|
        0 <= i < naming_branches(e.endpoint_type).len() ==> fits_depth(
            #[trigger] naming_branches(e.endpoint_type)[i],
            depth + 1,
        )
}

/// Whether an object store is moved to write-time naming when `dropped` names what drops
/// messages above it: only `auto`, and not the deprecated `idempotency` spelling.
pub open spec fn relaxable(c: ObjectStoreConfig, dropped: Option<Seq<char>>) -> bool {
    dropped is Some && c.name_by == NameBy::Auto && c.idempotency is None
}

/// An object store's config after relaxation.
pub open spec fn relaxed_config(c: ObjectStoreConfig, dropped: Option<Seq<char>>) -> ObjectStoreConfig {
    if relaxable(c, dropped) {
        ObjectStoreConfig { name_by: NameBy::WriteTime, ..c }
    } else {
        c
    }
}

/// The dropper in force below `e`, given the one in force above it.
pub open spec fn dropper_below(e: Endpoint, dropped: Option<Seq<char>>) -> Option<Seq<char>> {
    let d = or_else(dropped, dropper_of(e.middlewares@));
    match e.endpoint_type {
        EndpointType::Switch(c) => or_else(d, switch_dropper(c)),
        _ => d,
    }
}

/// The dropper behind the first object store, in walk order, that relaxation moves to
/// write-time naming; `None` if there is none.
pub open spec fn first_relaxed(e: Endpoint, dropped: Option<Seq<char>>, depth: nat) -> Option<
    Seq<char>,
>
    decreases 17 - depth, 0int,
{
    if depth > MAX_DEPTH {
        None
    } else {
        let d = or_else(dropped, dropper_of(e.middlewares@));
        match e.endpoint_type {
            EndpointType::ObjectStore(c) => if relaxable(c, d) {
                d
            } else {
                None
            },
            _ => first_relaxed_in(
                naming_branches(e.endpoint_type),
                dropper_below(e, dropped),
                depth + 1,
                0,
            ),
        }
    }
}

/// `first_relaxed` over the endpoints of `s` from position `i` on.
pub open spec fn first_relaxed_in(
    s: Seq<Endpoint>,
    dropped: Option<Seq<char>>,
    depth: nat,
    i: nat,
) -> Option<Seq<char>>
    decreases 17 - depth, s.len() - i,
{
    if i >= s.len() {
        None
    } else {
        or_else(first_relaxed(s[i as int], dropped, depth), first_relaxed_in(s, dropped, depth, i + 1))
    }
}

/// Follows `ref` inputs through the registry, at most `hops` times.
pub open spec fn resolve_input(reg: Registry, e: Endpoint, hops: nat) -> Endpoint
    decreases hops,
{
    if hops == 0 {
        e
    } else {
        match e.endpoint_type {
            EndpointType::Ref(name) => match reg.endpoint_named(name@) {
                Some(t) => resolve_input(reg, t, (hops - 1) as nat),
                None => e,
            },
            _ => e,
        }
    }
}

/// What drops messages at a route's input: its own middlewares, else those of the
/// endpoint its `ref`s lead to.
pub open spec fn input_dropper(reg: Registry, input: Endpoint) -> Option<Seq<char>> {
    or_else(
        dropper_of(input.middlewares@),
        dropper_of(resolve_input(reg, input, 16).middlewares@),
    )
}

/// The line that tells the operator why the naming changed.
pub open spec fn relax_reason(dropped: Seq<char>) -> Seq<char> {
    dropped
        + " removes messages from each batch, which would leave every object covering one contiguous source range and split each batch into many small objects. Naming objects by write time instead; set name_by: source_position to keep replay-safe names at that cost."@
}

/// `new` is `old` with every object store that relaxation moves switched to write-time
/// naming, and nothing else changed.
pub open spec fn relaxes_to(old: Endpoint, new: Endpoint, dropped: Option<Seq<char>>, depth: nat) -> bool
    decreases 17 - depth,
{
    &&& depth <= MAX_DEPTH
    &&& new.middlewares == old.middlewares
    &&& new.handler == old.handler
    &&& {
        let d = or_else(dropped, dropper_of(old.middlewares@));
        let below = dropper_below(old, dropped);
        match old.endpoint_type {
            EndpointType::ObjectStore(c) => new.endpoint_type == EndpointType::ObjectStore(
                relaxed_config(c, d),
            ),
            EndpointType::Fanout(v) => new.endpoint_type matches EndpointType::Fanout(v2) && v2@.len()
                == v@.len() && forall|i: int|
                0 <= i < v@.len() ==> relaxes_to(#[trigger] v@[i], v2@[i], below, depth + 1),
            EndpointType::Switch(c) => new.endpoint_type matches EndpointType::Switch(c2)
                && c2.metadata_key == c.metadata_key && c2.cases@.len() == c.cases@.len() && (
            forall|i: int|
                0 <= i < c.cases@.len() ==> (#[trigger] c2.cases@[i]).0 == c.cases@[i].0
                    && relaxes_to(c.cases@[i].1, c2.cases@[i].1, below, depth + 1))
                && c2.when@.len() == c.when@.len() && (forall|i: int|
                0 <= i < c.when@.len() ==> (#[trigger] c2.when@[i]).condition
                    == c.when@[i].condition && relaxes_to(
                    c.when@[i].to,
                    c2.when@[i].to,
                    below,
                    depth + 1,
                )) && match (c.default, c2.default) {
                (Some(a), Some(b)) => relaxes_to(*a, *b, below, depth + 1),
                (None, None) => true,
                _ => false,
            },
            EndpointType::Reader(inner) => new.endpoint_type matches EndpointType::Reader(inner2)
                && relaxes_to(*inner, *inner2, below, depth + 1),
            EndpointType::Request(c) => new.endpoint_type matches EndpointType::Request(c2)
                && relaxes_to(*c.to, *c2.to, below, depth + 1) && relaxes_to(
                *c.forward_to,
                *c2.forward_to,
                below,
                depth + 1,
            ),
            _ => new.endpoint_type == old.endpoint_type,
        }
    }
}

fn drops_rows_exec(m: &Middleware) -> (r: Option<&'static str>)
    ensures
        opt_view(r) == drops_rows(*m),
{
    match m {
        Middleware::Filter(_) => Some("the `filter` middleware"),
        Middleware::Deduplication(_) => Some("the `deduplication` middleware"),
        Middleware::WeakJoin(_) => Some("the `weak_join` middleware"),
        Middleware::Transform(c) => {
            if matches!(c.on_error, TransformErrorPolicy::Reject) && !(c.mapping.len() == 0
                && c.expression.is_none() && c.schema.is_none() && c.schema_file.is_none()) {
                Some("`transform` with `on_error: reject`")
            } else {
                None
            }
        },
        _ => None,
    }
}

/// Names the middleware on `endpoint` that removes messages from a batch, if any.
pub fn row_dropping_middleware(endpoint: &Endpoint) -> (r: Option<&'static str>)
    ensures
        opt_view(r) == dropper_of(endpoint.middlewares@),
{
    let ms = &endpoint.middlewares;
    let mut i: usize = 0;
    assert(ms@.subrange(0, ms@.len() as int) =~= ms@);
    while i < ms.len()
        invariant
            ms@ == endpoint.middlewares@,
            i <= ms@.len(),
            dropper_of(ms@) == dropper_of(ms@.subrange(i as int, ms@.len() as int)),
        decreases ms@.len() - i,
    {
        let ghost rest = ms@.subrange(i as int, ms@.len() as int);
        assert(rest[0] == ms@[i as int]);
        assert(rest.drop_first() =~= ms@.subrange(i + 1, ms@.len() as int));
        let found = drops_rows_exec(&ms[i]);
        if found.is_some() {
            return found;
        }
        i = i + 1;
    }
    assert(ms@.subrange(i as int, ms@.len() as int).len() == 0);
    None
}

fn or_else_exec(a: Option<&'static str>, b: Option<&'static str>) -> (r: Option<&'static str>)
    ensures
        opt_view(r) == or_else(opt_view(a), opt_view(b)),
{
    match a {
        Some(x) => Some(x),
        None => b,
    }
}

fn switch_dropper_exec(c: &SwitchConfig) -> (r: Option<&'static str>)
    ensures
        opt_view(r) == switch_dropper(*c),
{
    if (c.when.len() > 0 || c.cases.len() > 0) && c.default.is_none() {
        Some("a `switch` with no `default`")
    } else {
        None
    }
}

fn dropper_below_exec(e: &Endpoint, dropped: Option<&'static str>) -> (r: Option<&'static str>)
    ensures
        opt_view(r) == dropper_below(*e, opt_view(dropped)),
{
    let d = or_else_exec(dropped, row_dropping_middleware(e));
    match &e.endpoint_type {
        EndpointType::Switch(c) => or_else_exec(d, switch_dropper_exec(c)),
        _ => d,
    }
}

fn fits_depth_exec(e: &Endpoint, depth: usize) -> (r: bool)
    ensures
        r == fits_depth(*e, depth as nat),
    decreases 17 - depth,
{
    if depth > MAX_DEPTH {
        return false;
    }
    let ghost b = naming_branches(e.endpoint_type);
    match &e.endpoint_type {
        EndpointType::Fanout(v) => {
            let mut i: usize = 0;
            while i < v.len()
                invariant
                    depth <= MAX_DEPTH,
                    b == naming_branches(e.endpoint_type),
                    b == v@,
                    i <= v@.len(),
                    forall|k: int| 0 <= k < i ==> fits_depth(#[trigger] b[k], (depth + 1) as nat),
                decreases v@.len() - i,
            {
                if !fits_depth_exec(&v[i], depth + 1) {
                    assert(!fits_depth(b[i as int], (depth + 1) as nat));
                    return false;
                }
                i = i + 1;
            }
            true
        },
        EndpointType::Switch(c) => {
            let ghost nc = c.cases@.len();
            let ghost nw = c.when@.len();
            let mut i: usize = 0;
            while i < c.cases.len()
                invariant
                    depth <= MAX_DEPTH,
                    b == naming_branches(e.endpoint_type),
                    b == switch_targets(*c),
                    nc == c.cases@.len(),
                    i <= nc,
                    forall|k: int| 0 <= k < nc ==> #[trigger] b[k] == c.cases@[k].1,
                    forall|k: int| 0 <= k < i ==> fits_depth(#[trigger] b[k], (depth + 1) as nat),
                decreases nc - i,
            {
                if !fits_depth_exec(&c.cases[i].1, depth + 1) {
                    assert(b[i as int] == c.cases@[i as int].1);
                    assert(!fits_depth(b[i as int], (depth + 1) as nat));
                    return false;
                }
                i = i + 1;
            }
            let mut j: usize = 0;
            while j < c.when.len()
                invariant
                    depth <= MAX_DEPTH,
                    b == naming_branches(e.endpoint_type),
                    b == switch_targets(*c),
                    nc == c.cases@.len(),
                    nw == c.when@.len(),
                    j <= nw,
                    b.len() >= nc + nw,
                    forall|k: int| 0 <= k < nw ==> #[trigger] b[nc + k] == c.when@[k].to,
                    forall|k: int| 0 <= k < nc + j ==> fits_depth(#[trigger] b[k], (depth + 1) as nat),
                decreases nw - j,
            {
                assert(b[nc + j] == c.when@[j as int].to);
                if !fits_depth_exec(&c.when[j].to, depth + 1) {
                    assert(!fits_depth(b[nc + j], (depth + 1) as nat));
                    return false;
                }
                j = j + 1;
            }
            match &c.default {
                None => {
                    assert(b.len() == nc + nw);
                    true
                },
                Some(d) => {
                    assert(b.len() == nc + nw + 1);
                    assert(b[(nc + nw) as int] == **d);
                    fits_depth_exec(d, depth + 1)
                },
            }
        },
        EndpointType::Reader(inner) => {
            assert(b[0] == **inner);
            fits_depth_exec(inner, depth + 1)
        },
        EndpointType::Request(c) => {
            assert(b[0] == *c.to && b[1] == *c.forward_to);
            fits_depth_exec(&c.to, depth + 1) && fits_depth_exec(&c.forward_to, depth + 1)
        },
        _ => true,
    }
}

/// The endpoints an output passes its messages on to, in order.
pub fn branches_of<'a>(t: &'a EndpointType) -> (r: Vec<&'a Endpoint>)
    ensures
        r@.len() == naming_branches(*t).len(),
        forall|i: int| 0 <= i < r@.len() ==> *#[trigger] r@[i] == naming_branches(*t)[i],
{
    let mut out: Vec<&'a Endpoint> = Vec::new();
    match t {
        EndpointType::Fanout(v) => {
            let mut i: usize = 0;
            while i < v.len()
                invariant
                    i <= v@.len(),
                    out@.len() == i,
                    forall|k: int| 0 <= k < i ==> *#[trigger] out@[k] == v@[k],
                decreases v@.len() - i,
            {
                out.push(&v[i]);
                i = i + 1;
            }
        },
        EndpointType::Switch(c) => {
            let ghost b = switch_targets(*c);
            let ghost nc = c.cases@.len();
            let ghost nw = c.when@.len();
            assert(b.len() == nc + nw + if c.default is Some {
                1int
            } else {
                0int
            });
            let mut i: usize = 0;
            while i < c.cases.len()
                invariant
                    b == switch_targets(*c),
                    nc == c.cases@.len(),
                    i <= nc,
                    out@.len() == i,
                    forall|k: int| 0 <= k < nc ==> #[trigger] b[k] == c.cases@[k].1,
                    forall|k: int| 0 <= k < i ==> *#[trigger] out@[k] == b[k],
                decreases nc - i,
            {
                out.push(&c.cases[i].1);
                i = i + 1;
            }
            let mut j: usize = 0;
            while j < c.when.len()
                invariant
                    b == switch_targets(*c),
                    nc == c.cases@.len(),
                    nw == c.when@.len(),
                    j <= nw,
                    b.len() >= nc + nw,
                    out@.len() == nc + j,
                    forall|k: int| 0 <= k < nw ==> #[trigger] b[nc + k] == c.when@[k].to,
                    forall|k: int| 0 <= k < nc + j ==> *#[trigger] out@[k] == b[k],
                decreases nw - j,
            {
                assert(b[nc + j] == c.when@[j as int].to);
                out.push(&c.when[j].to);
                j = j + 1;
            }
            match &c.default {
                Some(d) => {
                    assert(b[(nc + nw) as int] == **d);
                    out.push(&**d);
                },
                None => {},
            }
        },
        EndpointType::Reader(inner) => {
            out.push(&**inner);
        },
        EndpointType::Request(c) => {
            out.push(&*c.to);
            out.push(&*c.forward_to);
        },
        _ => {},
    }
    out
}

fn first_relaxed_exec(e: &Endpoint, dropped: Option<&'static str>, depth: usize) -> (r: Option<
    &'static str,
>)
    ensures
        opt_view(r) == first_relaxed(*e, opt_view(dropped), depth as nat),
    decreases 17 - depth, 0int,
{
    if depth > MAX_DEPTH {
        return None;
    }
    let d = or_else_exec(dropped, row_dropping_middleware(e));
    match &e.endpoint_type {
        EndpointType::ObjectStore(c) => {
            if d.is_some() && c.name_by == NameBy::Auto && c.idempotency.is_none() {
                d
            } else {
                None
            }
        },
        _ => {
            let below = dropper_below_exec(e, dropped);
            let bs = branches_of(&e.endpoint_type);
            let ghost b = naming_branches(e.endpoint_type);
            assert(first_relaxed(*e, opt_view(dropped), depth as nat) == first_relaxed_in(
                b,
                opt_view(below),
                (depth + 1) as nat,
                0,
            ));
            let mut i: usize = 0;
            while i < bs.len()
                invariant
                    depth <= MAX_DEPTH,
                    first_relaxed(*e, opt_view(dropped), depth as nat) == first_relaxed_in(
                        b,
                        opt_view(below),
                        (depth + 1) as nat,
                        0,
                    ),
                    b == naming_branches(e.endpoint_type),
                    bs@.len() == b.len(),
                    forall|k: int| 0 <= k < bs@.len() ==> *#[trigger] bs@[k] == b[k],
                    i <= b.len(),
                    first_relaxed_in(b, opt_view(below), (depth + 1) as nat, 0) == first_relaxed_in(
                        b,
                        opt_view(below),
                        (depth + 1) as nat,
                        i as nat,
                    ),
                decreases b.len() - i,
            {
                let found = first_relaxed_exec(bs[i], below, depth + 1);
                assert(*bs@[i as int] == b[i as int]);
                if found.is_some() {
                    return found;
                }
                i = i + 1;
            }
            None
        },
    }
}

fn relax_in_place(e: &mut Endpoint, dropped: Option<&'static str>, depth: usize)
    requires
        fits_depth(*old(e), depth as nat),
    ensures
        relaxes_to(*old(e), *final(e), opt_view(dropped), depth as nat),
    decreases 17 - depth,
{
    let ghost before = *e;
    let d = or_else_exec(dropped, row_dropping_middleware(e));
    let below = dropper_below_exec(e, dropped);
    assert(naming_branches(before.endpoint_type).len() >= 0);
    match &mut e.endpoint_type {
        EndpointType::ObjectStore(config) => {
            if d.is_some() && config.name_by == NameBy::Auto && config.idempotency.is_none() {
                config.name_by = NameBy::WriteTime;
            }
        },
        EndpointType::Fanout(outputs) => {
            let ghost old_outputs = outputs@;
            let mut i: usize = 0;
            while i < outputs.len()
                invariant
                    depth < MAX_DEPTH + 1,
                    before.endpoint_type matches EndpointType::Fanout(v) && v@ == old_outputs,
                    fits_depth(before, depth as nat),
                    outputs@.len() == old_outputs.len(),
                    i <= outputs@.len(),
                    forall|k: int|
                        0 <= k < i ==> relaxes_to(
                            #[trigger] old_outputs[k],
                            outputs@[k],
                            opt_view(below),
                            (depth + 1) as nat,
                        ),
                    forall|k: int| i <= k < outputs@.len() ==> #[trigger] outputs@[k] == old_outputs[k],
                decreases old_outputs.len() - i,
            {
                assert(naming_branches(before.endpoint_type)[i as int] == old_outputs[i as int]);
                relax_in_place(&mut outputs[i], below, depth + 1);
                i = i + 1;
            }
        },
        EndpointType::Switch(config) => {
            let ghost c0 = *config;
            let ghost b = switch_targets(c0);
            let ghost nc = c0.cases@.len();
            let ghost nw = c0.when@.len();
            assert(b.len() == nc + nw + if c0.default is Some {
                1int
            } else {
                0int
            });
            assert(forall|k: int| 0 <= k < nc ==> #[trigger] b[k] == c0.cases@[k].1);
            assert(forall|k: int| 0 <= k < nw ==> #[trigger] b[nc + k] == c0.when@[k].to);
            assert(forall|k: int| 0 <= k < b.len() ==> fits_depth(#[trigger] b[k], (depth + 1) as nat));
            assert forall|k: int| 0 <= k < nc implies fits_depth(
                #[trigger] c0.cases@[k].1,
                (depth + 1) as nat,
            ) by {
                assert(b[k] == c0.cases@[k].1);
            }
            assert forall|k: int| 0 <= k < nw implies fits_depth(
                #[trigger] c0.when@[k].to,
                (depth + 1) as nat,
            ) by {
                assert(b[nc + k] == c0.when@[k].to);
            }
            let mut i: usize = 0;
            while i < config.cases.len()
                invariant
                    depth <= MAX_DEPTH,
                    nc == c0.cases@.len(),
                    config.cases@.len() == nc,
                    config.metadata_key == c0.metadata_key,
                    config.when == c0.when,
                    config.default == c0.default,
                    i <= nc,
                    forall|k: int| 0 <= k < nc ==> fits_depth(#[trigger] c0.cases@[k].1, (depth + 1) as nat),
                    forall|k: int|
                        0 <= k < i ==> (#[trigger] config.cases@[k]).0 == c0.cases@[k].0
                            && relaxes_to(
                            c0.cases@[k].1,
                            config.cases@[k].1,
                            opt_view(below),
                            (depth + 1) as nat,
                        ),
                    forall|k: int| i <= k < nc ==> #[trigger] config.cases@[k] == c0.cases@[k],
                decreases nc - i,
            {
                relax_in_place(&mut config.cases[i].1, below, depth + 1);
                i = i + 1;
            }
            let mut j: usize = 0;
            while j < config.when.len()
                invariant
                    depth <= MAX_DEPTH,
                    nw == c0.when@.len(),
                    config.when@.len() == nw,
                    config.metadata_key == c0.metadata_key,
                    config.default == c0.default,
                    config.cases@.len() == c0.cases@.len(),
                    forall|k: int|
                        0 <= k < c0.cases@.len() ==> (#[trigger] config.cases@[k]).0 == c0.cases@[k].0
                            && relaxes_to(
                            c0.cases@[k].1,
                            config.cases@[k].1,
                            opt_view(below),
                            (depth + 1) as nat,
                        ),
                    j <= nw,
                    forall|k: int| 0 <= k < nw ==> fits_depth(#[trigger] c0.when@[k].to, (depth + 1) as nat),
                    forall|k: int|
                        0 <= k < j ==> (#[trigger] config.when@[k]).condition == c0.when@[k].condition
                            && relaxes_to(
                            c0.when@[k].to,
                            config.when@[k].to,
                            opt_view(below),
                            (depth + 1) as nat,
                        ),
                    forall|k: int| j <= k < nw ==> #[trigger] config.when@[k] == c0.when@[k],
                decreases nw - j,
            {
                relax_in_place(&mut config.when[j].to, below, depth + 1);
                j = j + 1;
            }
            match &mut config.default {
                Some(d) => {
                    assert(b[(nc + nw) as int] == **d);
                    relax_in_place(&mut **d, below, depth + 1);
                },
                None => {},
            }
        },
        EndpointType::Reader(inner) => {
            assert(naming_branches(before.endpoint_type)[0] == **inner);
            relax_in_place(&mut **inner, below, depth + 1);
        },
        EndpointType::Request(config) => {
            assert(naming_branches(before.endpoint_type)[0] == *config.to);
            assert(naming_branches(before.endpoint_type)[1] == *config.forward_to);
            relax_in_place(&mut *config.to, below, depth + 1);
            relax_in_place(&mut *config.forward_to, below, depth + 1);
        },
        _ => {},
    }
}

fn resolve_input_exec<'a>(registry: &'a Registry, input: &'a Endpoint) -> (r: &'a Endpoint)
    ensures
        *r == resolve_input(*registry, *input, 16),
{
    let mut current: &'a Endpoint = input;
    let mut hops: usize = 16;
    while hops > 0
        invariant
            hops <= 16,
            resolve_input(*registry, *input, 16) == resolve_input(*registry, *current, hops as nat),
        decreases hops,
    {
        match &current.endpoint_type {
            EndpointType::Ref(name) => match registry.get_endpoint(name.as_str()) {
                Some(target) => {
                    current = target;
                },
                None => {
                    return current;
                },
            },
            _ => {
                return current;
            },
        }
        hops = hops - 1;
    }
    current
}

fn relax_reason_text(dropped: &str) -> (r: String)
    ensures
        r@ == relax_reason(dropped@),
{
    let mut out = String::from_str(dropped);
    out.append(
        " removes messages from each batch, which would leave every object covering one contiguous source range and split each batch into many small objects. Naming objects by write time instead; set name_by: source_position to keep replay-safe names at that cost.",
    );
    out
}

/// Takes a row-dropping route's auto-named object-store sinks off source-position naming.
///
/// Nothing changes unless the input stamps source positions. Otherwise every object store
/// beneath a middleware that drops messages (on the input, on the endpoint its `ref`s lead
/// to, or anywhere above the sink), or beneath a switch with no `default`, whose `name_by`
/// is `auto` and that does not use the deprecated `idempotency` flag, is moved to write-time
/// naming in `output`. The answer is the line that tells the operator why, or `None` when
/// nothing needed relaxing. A tree deeper than the depth limit is refused and left as it was.
pub fn relax_object_naming(
    route_name: &str,
    source_has_position: bool,
    input: &Endpoint,
    output: &mut Endpoint,
    registry: &Registry,
) -> (r: Result<Option<String>, EndpointError>)
    ensures
        !source_has_position ==> (r matches Ok(None) && *final(output) == *old(output)),
        source_has_position && !fits_depth(*old(output), 0) ==> (r matches Err(e) && e@
            == err_view(ErrorKind::OutputDepthExceeded, route_name@, ""@) && *final(output)
            == *old(output)),
        source_has_position && fits_depth(*old(output), 0) ==> match first_relaxed(
            *old(output),
            input_dropper(*registry, *input),
            0,
        ) {
            None => r matches Ok(None) && *final(output) == *old(output),
            Some(d) => r matches Ok(Some(reason)) && reason@ == relax_reason(d) && relaxes_to(
                *old(output),
                *final(output),
                input_dropper(*registry, *input),
                0,
            ),
        },
{
    if !source_has_position {
        return Ok(None);
    }
    if !fits_depth_exec(output, 0) {
        return Err(EndpointError::new(ErrorKind::OutputDepthExceeded, route_name, ""));
    }
    let resolved = resolve_input_exec(registry, input);
    let dropped = or_else_exec(row_dropping_middleware(input), row_dropping_middleware(resolved));
    match first_relaxed_exec(output, dropped, 0) {
        None => Ok(None),
        Some(d) => {
            relax_in_place(output, dropped, 0);
            Ok(Some(relax_reason_text(d)))
        },
    }
}

proof fn lemma_none_from(s: Seq<Endpoint>, dropped: Option<Seq<char>>, depth: nat, i: nat)
    requires
        forall|k: int| i <= k < s.len() ==> (#[trigger] first_relaxed(s[k], dropped, depth)) is None,
    ensures
        first_relaxed_in(s, dropped, depth, i) is None,
    decreases s.len() - i,
{
    if i < s.len() {
        assert(first_relaxed(s[i as int], dropped, depth) is None);
        lemma_none_from(s, dropped, depth, i + 1);
    }
}

/// Relaxing an output that has been relaxed finds nothing more to relax: a second call on
/// the same route answers `None` and leaves the output as it is.
pub proof fn lemma_relaxation_settles(
    old: Endpoint,
    new: Endpoint,
    dropped: Option<Seq<char>>,
    depth: nat,
)
    requires
        relaxes_to(old, new, dropped, depth),
    ensures
        fits_depth(new, depth),
        first_relaxed(new, dropped, depth) is None,
    decreases 17 - depth,
{
    let below = dropper_below(old, dropped);
    let bn = naming_branches(new.endpoint_type);
    let d1 = (depth + 1) as nat;
    match old.endpoint_type {
        EndpointType::ObjectStore(c) => {
        },
        EndpointType::Fanout(v) => {
            let v2 = new.endpoint_type->Fanout_0;
            assert forall|k: int| 0 <= k < bn.len() implies fits_depth(#[trigger] bn[k], d1)
                && first_relaxed(bn[k], below, d1) is None by {
                lemma_relaxation_settles(v@[k], v2@[k], below, d1);
            }
            lemma_none_from(bn, below, d1, 0);
        },
        EndpointType::Switch(c) => {
            let c2 = new.endpoint_type->Switch_0;
            let nc = c.cases@.len();
            let nw = c.when@.len();
            assert(bn == switch_targets(c2));
            assert(dropper_below(new, dropped) == below);
            assert forall|k: int| 0 <= k < bn.len() implies fits_depth(#[trigger] bn[k], d1)
                && first_relaxed(bn[k], below, d1) is None by {
                if k < nc {
                    assert(bn[k] == c2.cases@[k].1);
                    lemma_relaxation_settles(c.cases@[k].1, c2.cases@[k].1, below, d1);
                } else if k < nc + nw {
                    assert(bn[k] == c2.when@[k - nc].to);
                    lemma_relaxation_settles(c.when@[k - nc].to, c2.when@[k - nc].to, below, d1);
                } else {
                    let a = c.default->Some_0;
                    let b = c2.default->Some_0;
                    assert(bn[k] == *b);
                    lemma_relaxation_settles(*a, *b, below, d1);
                }
            }
            lemma_none_from(bn, below, d1, 0);
        },
        EndpointType::Reader(inner) => {
            let inner2 = new.endpoint_type->Reader_0;
            lemma_relaxation_settles(*inner, *inner2, below, d1);
            assert(bn[0] == *inner2);
            lemma_none_from(bn, below, d1, 0);
        },
        EndpointType::Request(c) => {
            let c2 = new.endpoint_type->Request_0;
            lemma_relaxation_settles(*c.to, *c2.to, below, d1);
            lemma_relaxation_settles(*c.forward_to, *c2.forward_to, below, d1);
            assert(bn[0] == *c2.to && bn[1] == *c2.forward_to);
            lemma_none_from(bn, below, d1, 0);
        },
        _ => {
            lemma_none_from(bn, below, d1, 0);
        },
    }
}

} // verus!
