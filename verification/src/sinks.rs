//! Questions about the sinks of an output tree, answered by walking it through `fanout`,
//! `switch`, `reader`, `request` and `ref`.
use crate::errors::{err_view, EndpointError, ErrorKind, MAX_DEPTH};
use crate::models::{
    file_name_by, object_store_name_by, Endpoint, EndpointType, Middleware, NameBy, SwitchCase,
    SwitchConfig,
};
use crate::registry::Registry;
use crate::text::{str_eq, views};
use vstd::prelude::*;
use vstd::string::*;

verus! {

/// What a walk looks for in the leaves of an output tree.
#[derive(Debug, Clone, Copy, PartialEq, Eq, Structural)]
pub enum SinkTest {
    /// A file or object store named after the source position, given whether the input
    /// stamps one.
    SourcePositionNamed(bool),
    /// An object store named by write time, given whether the input stamps positions.
    WriteTimeObjectStore(bool),
    /// A sink other than an HTTP output that passes the response status through.
    NotPassingStatus,
}

/// Whether the leaf type `t` is what `test` looks for.
pub open spec fn leaf_matches(test: SinkTest, t: EndpointType) -> bool {
    match test {
        SinkTest::SourcePositionNamed(p) => match t {
            EndpointType::File(c) => file_name_by(c, p) == NameBy::SourcePosition,
            EndpointType::ObjectStore(c) => object_store_name_by(c, p) == NameBy::SourcePosition,
            _ => false,
        },
        SinkTest::WriteTimeObjectStore(p) => t matches EndpointType::ObjectStore(c)
            && object_store_name_by(c, p) == NameBy::WriteTime,
        SinkTest::NotPassingStatus => !(t matches EndpointType::Http(c) && c.pass_through_status),
    }
}

impl SinkTest {
    /// Whether the leaf type `t` is what this test looks for.
    pub fn matches(&self, t: &EndpointType) -> (r: bool)
        ensures
            r == leaf_matches(*self, *t),
    {
        match self {
            SinkTest::SourcePositionNamed(p) => match t {
                EndpointType::File(c) => c.resolved_name_by(*p) == NameBy::SourcePosition,
                EndpointType::ObjectStore(c) => c.resolved_name_by(*p) == NameBy::SourcePosition,
                _ => false,
            },
            SinkTest::WriteTimeObjectStore(p) => match t {
                EndpointType::ObjectStore(c) => c.resolved_name_by(*p) == NameBy::WriteTime,
                _ => false,
            },
            SinkTest::NotPassingStatus => match t {
                EndpointType::Http(c) => !c.pass_through_status,
                _ => true,
            },
        }
    }
}

/// The arms of a switch other than its default: its cases, then its conditions.
pub open spec fn switch_arms(c: SwitchConfig) -> Seq<Endpoint> {
    c.cases@.map_values(|p: (String, Endpoint)| p.1) + c.when@.map_values(|w: SwitchCase| w.to)
}

/// The answer of a walk, in terms of views.
pub open spec fn walk_view(r: Result<bool, EndpointError>) -> Result<
    bool,
    (ErrorKind, Seq<char>, Seq<char>),
> {
    match r {
        Ok(b) => Ok(b),
        Err(e) => Err(e@),
    }
}

/// Whether a leaf below `e`, `depth` levels down, is what `test` looks for; `visited` holds
/// the `ref` names on the path from the root.
pub open spec fn sink_search(
    reg: Registry,
    e: Endpoint,
    depth: nat,
    visited: Seq<Seq<char>>,
    test: SinkTest,
    route: Seq<char>,
) -> Result<bool, (ErrorKind, Seq<char>, Seq<char>)>
    decreases 17 - depth, 0int,
{
    if depth > MAX_DEPTH {
        Err(err_view(ErrorKind::OutputDepthExceeded, route, ""@))
    } else {
        match e.endpoint_type {
            EndpointType::Fanout(v) => sinks_search(
                reg,
                v@,
                depth + 1,
                visited,
                test,
                route,
                v@.len(),
            ),
            EndpointType::Switch(c) => match sinks_search(
                reg,
                switch_arms(c),
                depth + 1,
                visited,
                test,
                route,
                switch_arms(c).len(),
            ) {
                Err(x) => Err(x),
                Ok(true) => Ok(true),
                Ok(false) => match c.default {
                    None => Ok(false),
                    Some(d) => sink_search(reg, *d, depth + 1, visited, test, route),
                },
            },
            EndpointType::Reader(inner) => sink_search(reg, *inner, depth + 1, visited, test, route),
            EndpointType::Request(c) => match sink_search(
                reg,
                *c.to,
                depth + 1,
                visited,
                test,
                route,
            ) {
                Err(x) => Err(x),
                Ok(true) => Ok(true),
                Ok(false) => sink_search(reg, *c.forward_to, depth + 1, visited, test, route),
            },
            EndpointType::Ref(name) => if visited.contains(name@) {
                Err(err_view(ErrorKind::CircularOutputReference, route, name@))
            } else {
                match reg.endpoint_named(name@) {
                    None => Err(err_view(ErrorKind::OutputRefNotFound, route, name@)),
                    Some(t) => sink_search(reg, t, depth + 1, visited.push(name@), test, route),
                }
            },
            _ => Ok(leaf_matches(test, e.endpoint_type)),
        }
    }
}

/// The walks of the first `n` endpoints of `s`, in order, stopping at the first refusal:
/// whether any found what it looks for.
pub open spec fn sinks_search(
    reg: Registry,
    s: Seq<Endpoint>,
    depth: nat,
    visited: Seq<Seq<char>>,
    test: SinkTest,
    route: Seq<char>,
    n: nat,
) -> Result<bool, (ErrorKind, Seq<char>, Seq<char>)>
    decreases 17 - depth, n + 1,
{
    if n == 0 {
        Ok(false)
    } else {
        match sinks_search(reg, s, depth, visited, test, route, (n - 1) as nat) {
            Err(x) => Err(x),
            Ok(b) => match sink_search(reg, s[n - 1], depth, visited, test, route) {
                Err(x) => Err(x),
                Ok(b2) => Ok(b || b2),
            },
        }
    }
}

/// The endpoints a sequence of references points at.
pub open spec fn targets(s: Seq<&Endpoint>) -> Seq<Endpoint> {
    s.map_values(|e: &Endpoint| *e)
}

fn refs_of(v: &Vec<Endpoint>) -> (r: Vec<&Endpoint>)
    ensures
        targets(r@) == v@,
{
    let mut out: Vec<&Endpoint> = Vec::new();
    let mut i: usize = 0;
    while i < v.len()
        invariant
            i <= v@.len(),
            out@.len() == i,
            forall|k: int| 0 <= k < i ==> *#[trigger] out@[k] == v@[k],
        decreases v@.len() - i,
    {
        out.push(&v[i]);
        i = i + 1;
    }
    assert(targets(out@) =~= v@);
    out
}

fn arms_of(c: &SwitchConfig) -> (r: Vec<&Endpoint>)
    ensures
        targets(r@) == switch_arms(*c),
{
    let ghost a = switch_arms(*c);
    let ghost nc = c.cases@.len();
    let mut out: Vec<&Endpoint> = Vec::new();
    let mut i: usize = 0;
    while i < c.cases.len()
        invariant
            a == switch_arms(*c),
            nc == c.cases@.len(),
            i <= nc,
            out@.len() == i,
            forall|k: int| 0 <= k < nc ==> #[trigger] a[k] == c.cases@[k].1,
            forall|k: int| 0 <= k < i ==> *#[trigger] out@[k] == a[k],
        decreases nc - i,
    {
        out.push(&c.cases[i].1);
        i = i + 1;
    }
    let mut j: usize = 0;
    while j < c.when.len()
        invariant
            a == switch_arms(*c),
            nc == c.cases@.len(),
            a.len() == nc + c.when@.len(),
            j <= c.when@.len(),
            out@.len() == nc + j,
            forall|k: int| 0 <= k < c.when@.len() ==> #[trigger] a[nc + k] == c.when@[k].to,
            forall|k: int| 0 <= k < nc + j ==> *#[trigger] out@[k] == a[k],
        decreases c.when@.len() - j,
    {
        assert(a[nc + j] == c.when@[j as int].to);
        out.push(&c.when[j].to);
        j = j + 1;
    }
    assert(targets(out@) =~= a);
    out
}

fn contains_name(v: &Vec<String>, name: &str) -> (r: bool)
    ensures
        r == views(v@).contains(name@),
{
    let mut i: usize = 0;
    while i < v.len()
        invariant
            i <= v@.len(),
            forall|k: int| 0 <= k < i ==> (#[trigger] v@[k])@ != name@,
        decreases v@.len() - i,
    {
        if str_eq(v[i].as_str(), name) {
            assert(views(v@)[i as int] == name@);
            return true;
        }
        i = i + 1;
    }
    assert forall|k: int| 0 <= k < views(v@).len() implies views(v@)[k] != name@ by {
        assert(views(v@)[k] == v@[k]@);
    }
    false
}

fn walk(
    route: &str,
    e: &Endpoint,
    depth: usize,
    visited: &mut Vec<String>,
    test: SinkTest,
    registry: &Registry,
) -> (r: Result<bool, EndpointError>)
    ensures
        walk_view(r) == sink_search(
            *registry,
            *e,
            depth as nat,
            views(old(visited)@),
            test,
            route@,
        ),
        final(visited)@ == old(visited)@,
    decreases 17 - depth, 0int,
{
    if depth > MAX_DEPTH {
        return Err(EndpointError::new(ErrorKind::OutputDepthExceeded, route, ""));
    }
    match &e.endpoint_type {
        EndpointType::Fanout(v) => {
            let list = refs_of(v);
            walk_list(route, &list, depth + 1, visited, test, registry)
        },
        EndpointType::Switch(c) => {
            let list = arms_of(c);
            let arms = walk_list(route, &list, depth + 1, visited, test, registry);
            match arms {
                Err(x) => Err(x),
                Ok(true) => Ok(true),
                Ok(false) => match &c.default {
                    None => Ok(false),
                    Some(d) => walk(route, d, depth + 1, visited, test, registry),
                },
            }
        },
        EndpointType::Reader(inner) => walk(route, inner, depth + 1, visited, test, registry),
        EndpointType::Request(c) => {
            let first = walk(route, &c.to, depth + 1, visited, test, registry);
            match first {
                Err(x) => Err(x),
                Ok(true) => Ok(true),
                Ok(false) => walk(route, &c.forward_to, depth + 1, visited, test, registry),
            }
        },
        EndpointType::Ref(name) => {
            if contains_name(visited, name.as_str()) {
                return Err(
                    EndpointError::new(ErrorKind::CircularOutputReference, route, name.as_str()),
                );
            }
            match registry.get_endpoint(name.as_str()) {
                None => Err(EndpointError::new(ErrorKind::OutputRefNotFound, route, name.as_str())),
                Some(target) => {
                    let ghost before = visited@;
                    visited.push(String::from_str(name.as_str()));
                    assert(views(visited@) =~= views(before).push(name@));
                    let found = walk(route, target, depth + 1, visited, test, registry);
                    let _ = visited.pop();
                    assert(visited@ =~= before);
                    found
                },
            }
        },
        _ => Ok(test.matches(&e.endpoint_type)),
    }
}

fn walk_list(
    route: &str,
    list: &Vec<&Endpoint>,
    depth: usize,
    visited: &mut Vec<String>,
    test: SinkTest,
    registry: &Registry,
) -> (r: Result<bool, EndpointError>)
    ensures
        walk_view(r) == sinks_search(
            *registry,
            targets(list@),
            depth as nat,
            views(old(visited)@),
            test,
            route@,
            list@.len(),
        ),
        final(visited)@ == old(visited)@,
    decreases 17 - depth, 1int,
{
    let ghost s = targets(list@);
    let ghost seen = views(visited@);
    let mut found = false;
    let mut i: usize = 0;
    while i < list.len()
        invariant
            s == targets(list@),
            seen == views(old(visited)@),
            visited@ == old(visited)@,
            i <= list@.len(),
            sinks_search(*registry, s, depth as nat, seen, test, route@, i as nat) == Ok::<
                bool,
                (ErrorKind, Seq<char>, Seq<char>),
            >(found),
        decreases list@.len() - i,
    {
        assert(s[i as int] == *list@[i as int]);
        let one = walk(route, list[i], depth, visited, test, registry);
        match one {
            Err(x) => {
                proof {
                    lemma_walk_refusal_sticks(
                        *registry,
                        s,
                        depth as nat,
                        seen,
                        test,
                        route@,
                        (i + 1) as nat,
                        list@.len(),
                    );
                }
                return Err(x);
            },
            Ok(b) => {
                found = found || b;
            },
        }
        i = i + 1;
    }
    Ok(found)
}

proof fn lemma_walk_refusal_sticks(
    reg: Registry,
    s: Seq<Endpoint>,
    depth: nat,
    visited: Seq<Seq<char>>,
    test: SinkTest,
    route: Seq<char>,
    n: nat,
    m: nat,
)
    requires
        n <= m,
        sinks_search(reg, s, depth, visited, test, route, n) is Err,
    ensures
        sinks_search(reg, s, depth, visited, test, route, m) == sinks_search(
            reg,
            s,
            depth,
            visited,
            test,
            route,
            n,
        ),
    decreases m - n,
{
    if n < m {
        lemma_walk_refusal_sticks(reg, s, depth, visited, test, route, n, (m - 1) as nat);
    }
}

fn output_has_sink(
    route_name: &str,
    endpoint: &Endpoint,
    test: SinkTest,
    registry: &Registry,
) -> (r: Result<bool, EndpointError>)
    ensures
        walk_view(r) == sink_search(*registry, *endpoint, 0, seq![], test, route_name@),
{
    let mut visited: Vec<String> = Vec::new();
    assert(views(visited@) =~= Seq::<Seq<char>>::empty());
    walk(route_name, endpoint, 0, &mut visited, test, registry)
}

/// Whether a route's output contains a sink that names what it writes after the source
/// position, and therefore needs the input to stamp one.
pub fn output_requires_source_metadata(
    route_name: &str,
    endpoint: &Endpoint,
    source_has_position: bool,
    registry: &Registry,
) -> (r: Result<bool, EndpointError>)
    ensures
        walk_view(r) == sink_search(
            *registry,
            *endpoint,
            0,
            seq![],
            SinkTest::SourcePositionNamed(source_has_position),
            route_name@,
        ),
{
    output_has_sink(
        route_name,
        endpoint,
        SinkTest::SourcePositionNamed(source_has_position),
        registry,
    )
}

/// Whether a route's output contains an object-store sink that names objects by write time.
pub fn output_has_write_time_named_object_store(
    route_name: &str,
    endpoint: &Endpoint,
    source_has_position: bool,
    registry: &Registry,
) -> (r: Result<bool, EndpointError>)
    ensures
        walk_view(r) == sink_search(
            *registry,
            *endpoint,
            0,
            seq![],
            SinkTest::WriteTimeObjectStore(source_has_position),
            route_name@,
        ),
{
    output_has_sink(
        route_name,
        endpoint,
        SinkTest::WriteTimeObjectStore(source_has_position),
        registry,
    )
}

/// Whether every sink of a route's output is an HTTP output that passes the response status
/// through.
pub fn output_passes_through_http_status(
    route_name: &str,
    endpoint: &Endpoint,
    registry: &Registry,
) -> (r: Result<bool, EndpointError>)
    ensures
        walk_view(r) == match sink_search(
            *registry,
            *endpoint,
            0,
            seq![],
            SinkTest::NotPassingStatus,
            route_name@,
        ) {
            Ok(b) => Ok(!b),
            Err(x) => Err(x),
        },
{
    match output_has_sink(route_name, endpoint, SinkTest::NotPassingStatus, registry) {
        Ok(other) => Ok(!other),
        Err(x) => Err(x),
    }
}

/// Whether an output's middlewares leave the HTTP inline reply path open: only buffering,
/// delays, rate limits and metrics.
pub fn output_middlewares_allow_http_inline_fast_path(middlewares: &[Middleware]) -> (r: bool)
    ensures
        r == forall|i: int|
            0 <= i < middlewares@.len() ==> (#[trigger] middlewares@[i] is Buffer
                || middlewares@[i] is Delay || middlewares@[i] is Limiter
                || middlewares@[i] is Metrics),
{
    let mut i: usize = 0;
    while i < middlewares.len()
        invariant
            i <= middlewares@.len(),
            forall|k: int|
                0 <= k < i ==> (#[trigger] middlewares@[k] is Buffer || middlewares@[k] is Delay
                    || middlewares@[k] is Limiter || middlewares@[k] is Metrics),
        decreases middlewares@.len() - i,
    {
        if !matches!(
            middlewares[i],
            Middleware::Buffer(_) | Middleware::Delay(_) | Middleware::Limiter(_) | Middleware::Metrics(_)
        ) {
            return false;
        }
        i = i + 1;
    }
    true
}

/// Whether an HTTP route answers its requests inline, without the route's worker: its
/// output replies straight away (`response` or `static`), its input is HTTP with the inline
/// path left on and not fire-and-forget, its input has no middlewares, and its output only
/// ones that leave the path open.
pub open spec fn inline_fast_path(input: Endpoint, output: Endpoint) -> bool {
    &&& (output.endpoint_type is Response || output.endpoint_type is Static)
    &&& input.endpoint_type matches EndpointType::Http(cfg) && cfg.inline_response_fast_path != Some(false) && !cfg.fire_and_forget
    &&& input.middlewares@.len() == 0
    &&& forall|i: int| 0 <= i < output.middlewares@.len() ==> (#[trigger] output.middlewares@[i] is Buffer
            || output.middlewares@[i] is Delay || output.middlewares@[i] is Limiter
            || output.middlewares@[i] is Metrics)
}

/// Whether an HTTP route answers its requests inline (see [`inline_fast_path`]).
pub fn http_inline_fast_path_applies(input: &Endpoint, output: &Endpoint) -> (r: bool)
    ensures
        r == inline_fast_path(*input, *output),
{
    let output_is_inline = matches!(output.endpoint_type, EndpointType::Response(_) | EndpointType::Static(_));
    match &input.endpoint_type {
        EndpointType::Http(cfg) => output_is_inline && cfg.inline_response_fast_path_enabled()
            && input.middlewares.len() == 0 && output_middlewares_allow_http_inline_fast_path(
            output.middlewares.as_slice(),
        ) && !cfg.fire_and_forget,
        _ => false,
    }
}

} // verus!
