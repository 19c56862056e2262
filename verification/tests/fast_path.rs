use mq_bridge::fast_path::{
    route_runner, websocket_direct_route_options_allowed, websocket_direct_route_support, Route, RouteOptions,
    RouteRunner, WebSocketDirectRouteSupport,
};
use mq_bridge::models::{
    Endpoint, EndpointType, HttpConfig, MetricsMiddleware, Middleware, WebSocketConfig, WebSocketExecutionMode,
};

fn websocket(mode: WebSocketExecutionMode) -> Endpoint {
    Endpoint::new(EndpointType::WebSocket(WebSocketConfig::new("127.0.0.1:0").with_execution_mode(mode)))
}

#[test]
fn websocket_direct_route_support_requires_default_route_options() {
    let mut options = RouteOptions::defaults();
    assert!(websocket_direct_route_options_allowed(&options));

    options.batch_size = 128;
    assert!(!websocket_direct_route_options_allowed(&options));
}

#[test]
fn websocket_direct_route_support_respects_execution_mode_and_output() {
    let input = Endpoint::new(EndpointType::WebSocket(WebSocketConfig::new("127.0.0.1:0")));
    let response_route = Route::new(input.clone(), Endpoint::new_response());
    assert!(matches!(
        websocket_direct_route_support(&response_route),
        WebSocketDirectRouteSupport::Supported
    ));

    let memory_route = Route::new(input.clone(), Endpoint::new_memory("ws", 1));
    assert!(matches!(
        websocket_direct_route_support(&memory_route),
        WebSocketDirectRouteSupport::Unsupported("output is not response")
    ));

    let routed_input = Endpoint::new(EndpointType::WebSocket(
        WebSocketConfig::new("127.0.0.1:0").with_execution_mode(WebSocketExecutionMode::Routed),
    ));
    let routed_route = Route::new(routed_input, Endpoint::new_response());
    assert!(matches!(
        websocket_direct_route_support(&routed_route),
        WebSocketDirectRouteSupport::Unsupported("execution_mode is routed")
    ));
}

#[test]
fn a_described_route_may_still_run_direct_but_middlewares_may_not() {
    let mut route = Route::new(websocket(WebSocketExecutionMode::Auto), Endpoint::new_response());
    route.options.description = Some("echo".to_string());
    assert_eq!(websocket_direct_route_support(&route), WebSocketDirectRouteSupport::Supported);
    route.output.middlewares.push(Middleware::Metrics(MetricsMiddleware {}));
    assert_eq!(
        websocket_direct_route_support(&route),
        WebSocketDirectRouteSupport::Unsupported("middleware requires routed mode")
    );
    let other = Route::new(Endpoint::new_memory("in", 1), Endpoint::new_response());
    assert_eq!(
        websocket_direct_route_support(&other),
        WebSocketDirectRouteSupport::Unsupported("input is not websocket")
    );
}

#[test]
fn routes_run_inline_direct_or_through_the_pipeline() {
    let http = Endpoint::new(EndpointType::Http(HttpConfig::new("0.0.0.0:8080")));
    assert_eq!(route_runner(&Route::new(http, Endpoint::new_response()), "r"), Ok(RouteRunner::HttpInline));

    let direct = Route::new(websocket(WebSocketExecutionMode::Auto), Endpoint::new_response());
    assert_eq!(route_runner(&direct, "r"), Ok(RouteRunner::WebSocketDirect));

    let auto = Route::new(websocket(WebSocketExecutionMode::Auto), Endpoint::new_memory("out", 1));
    assert_eq!(route_runner(&auto, "r"), Ok(RouteRunner::Pipeline));

    let only = Route::new(websocket(WebSocketExecutionMode::DirectOnly), Endpoint::new_memory("out", 1));
    assert_eq!(
        route_runner(&only, "chat"),
        Err("WebSocket route 'chat' is configured for direct_only, but direct mode is unsupported: output is not response"
            .to_string())
    );

    let plain = Route::new(Endpoint::new_memory("in", 1), Endpoint::new_memory("out", 1));
    assert_eq!(route_runner(&plain, "r"), Ok(RouteRunner::Pipeline));
}
