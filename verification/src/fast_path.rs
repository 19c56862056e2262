//! Which routes skip the route pipeline: an HTTP route answered inline by its listener, and
//! a WebSocket route answered directly, where the route asks for nothing the pipeline does.
use crate::models::{Endpoint, EndpointType, WebSocketExecutionMode};
use crate::sinks::{http_inline_fast_path_applies, inline_fast_path};
use crate::text::concat2;
use vstd::prelude::*;
use vstd::string::*;

verus! {

/// How a route runs, apart from its endpoints.
#[derive(Debug, PartialEq, Eq)]
pub struct RouteOptions {
    /// What the route is for; it changes nothing of how it runs.
    pub description: Option<String>,
    /// How many messages the route moves at a time.
    pub batch_size: usize,
}

/// The batch size a route moves when none is configured.
pub const DEFAULT_BATCH_SIZE: usize = 1;

impl RouteOptions {
    /// The options a route runs with when none are configured.
    pub fn defaults() -> (r: Self)
        ensures
            r.description is None,
            r.batch_size == DEFAULT_BATCH_SIZE,
    {
        RouteOptions { description: None, batch_size: DEFAULT_BATCH_SIZE }
    }
}

/// A route: where messages come from, where they go, and how it runs.
#[derive(Debug)]
pub struct Route {
    pub input: Endpoint,
    pub output: Endpoint,
    pub options: RouteOptions,
}

impl Route {
    /// A route from `input` to `output` with the default options.
    pub fn new(input: Endpoint, output: Endpoint) -> (r: Self)
        ensures
            r.input == input,
            r.output == output,
            r.options.description is None,
            r.options.batch_size == DEFAULT_BATCH_SIZE,
    {
        Route { input, output, options: RouteOptions::defaults() }
    }
}

/// Whether a route's options leave a WebSocket route free to run direct: they are the
/// defaults, whatever the description says.
pub fn websocket_direct_route_options_allowed(options: &RouteOptions) -> (r: bool)
    ensures
        r == (options.batch_size == DEFAULT_BATCH_SIZE),
{
    options.batch_size == DEFAULT_BATCH_SIZE
}

/// Whether a WebSocket route can be answered directly, and if not, why not.
#[derive(Debug, PartialEq, Eq)]
pub enum WebSocketDirectRouteSupport {
    Supported,
    Unsupported(&'static str),
}

/// Why a route cannot run as a direct WebSocket route, where it cannot: the first of its
/// input not being a WebSocket, being set to run routed, an output that is not `response`,
/// options other than the defaults, and middlewares on either side.
pub open spec fn websocket_direct_refusal(route: Route) -> Option<Seq<char>> {
    match route.input.endpoint_type {
        EndpointType::WebSocket(cfg) => if cfg.execution_mode == WebSocketExecutionMode::Routed {
            Some("execution_mode is routed"@)
        } else if !(route.output.endpoint_type is Response) {
            Some("output is not response"@)
        } else if route.options.batch_size != DEFAULT_BATCH_SIZE {
            Some("custom route options require routed mode"@)
        } else if route.input.middlewares@.len() > 0 || route.output.middlewares@.len() > 0 {
            Some("middleware requires routed mode"@)
        } else {
            None
        },
        _ => Some("input is not websocket"@),
    }
}

/// Whether a WebSocket route can be answered directly (see [`websocket_direct_refusal`]).
pub fn websocket_direct_route_support(route: &Route) -> (r: WebSocketDirectRouteSupport)
    ensures
        match websocket_direct_refusal(*route) {
            None => r == WebSocketDirectRouteSupport::Supported,
            Some(why) => r matches WebSocketDirectRouteSupport::Unsupported(w) && w@ == why,
        },
{
    match &route.input.endpoint_type {
        EndpointType::WebSocket(cfg) => {
            if cfg.execution_mode == WebSocketExecutionMode::Routed {
                return WebSocketDirectRouteSupport::Unsupported("execution_mode is routed");
            }
        },
        _ => {
            return WebSocketDirectRouteSupport::Unsupported("input is not websocket");
        },
    }
    if !matches!(route.output.endpoint_type, EndpointType::Response(_)) {
        return WebSocketDirectRouteSupport::Unsupported("output is not response");
    }
    if !websocket_direct_route_options_allowed(&route.options) {
        return WebSocketDirectRouteSupport::Unsupported("custom route options require routed mode");
    }
    if route.input.middlewares.len() > 0 || route.output.middlewares.len() > 0 {
        return WebSocketDirectRouteSupport::Unsupported("middleware requires routed mode");
    }
    WebSocketDirectRouteSupport::Supported
}

/// How a route runs.
#[derive(Debug, PartialEq, Eq)]
pub enum RouteRunner {
    /// The HTTP listener answers each request with the output's reply.
    HttpInline,
    /// The WebSocket listener answers each message directly.
    WebSocketDirect,
    /// Through the route pipeline.
    Pipeline,
}

/// How a route named `name` runs: inline where the HTTP fast path applies; direct where a
/// WebSocket route allows it; a WebSocket route set to run only direct that does not allow
/// it is refused; every other route runs through the pipeline.
pub fn route_runner(route: &Route, name: &str) -> (r: Result<RouteRunner, String>)
    ensures
        inline_fast_path(route.input, route.output) ==> r == Ok::<RouteRunner, String>(RouteRunner::HttpInline),
        !inline_fast_path(route.input, route.output) ==> match route.input.endpoint_type {
            EndpointType::WebSocket(cfg) => match websocket_direct_refusal(*route) {
                None => r == Ok::<RouteRunner, String>(RouteRunner::WebSocketDirect),
                Some(why) => if cfg.execution_mode == WebSocketExecutionMode::DirectOnly {
                    r matches Err(e) && e@ == "WebSocket route '"@ + name@
                        + "' is configured for direct_only, but direct mode is unsupported: "@ + why
                } else {
                    r == Ok::<RouteRunner, String>(RouteRunner::Pipeline)
                },
            },
            _ => r == Ok::<RouteRunner, String>(RouteRunner::Pipeline),
        },
{
    if http_inline_fast_path_applies(&route.input, &route.output) {
        return Ok(RouteRunner::HttpInline);
    }
    match &route.input.endpoint_type {
        EndpointType::WebSocket(cfg) => match websocket_direct_route_support(route) {
            WebSocketDirectRouteSupport::Supported => Ok(RouteRunner::WebSocketDirect),
            WebSocketDirectRouteSupport::Unsupported(reason) => match cfg.execution_mode {
                WebSocketExecutionMode::DirectOnly => {
                    let mut e = concat2("WebSocket route '", name);
                    e.append("' is configured for direct_only, but direct mode is unsupported: ");
                    e.append(reason);
                    Err(e)
                },
                _ => Ok(RouteRunner::Pipeline),
            },
        },
        _ => Ok(RouteRunner::Pipeline),
    }
}

} // verus!
