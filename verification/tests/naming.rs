use mq_bridge::errors::ErrorKind;
use mq_bridge::models::{
    DeduplicationMiddleware, Endpoint, EndpointType, FileConfig, LimiterMiddleware, Middleware,
    NameBy, ObjectStoreConfig, SwitchCase, SwitchConfig, TransformErrorPolicy,
    TransformMiddleware, WeakJoinMiddleware,
};
use mq_bridge::naming::{relax_object_naming, row_dropping_middleware};
use mq_bridge::registry::Registry;

fn bucket(name_by: NameBy) -> Endpoint {
    Endpoint::new(EndpointType::ObjectStore(ObjectStoreConfig {
        url: "s3://bucket/orders".to_string(),
        name_by,
        ..Default::default()
    }))
}

fn file_named_by(name_by: NameBy) -> Endpoint {
    let mut config = FileConfig::new("/tmp/parts");
    config.name_by = name_by;
    Endpoint::new(EndpointType::File(config))
}

fn with_middleware(mut endpoint: Endpoint, middleware: Middleware) -> Endpoint {
    endpoint.middlewares.push(middleware);
    endpoint
}

fn filtered_source() -> Endpoint {
    with_middleware(Endpoint::new_memory("orders", 1), Middleware::Filter("amount > 100".to_string()))
}

fn deduplication() -> Middleware {
    Middleware::Deduplication(DeduplicationMiddleware {
        store: None,
        sled_path: None,
        ttl_seconds: 60,
        key: None,
    })
}

fn rejecting_transform() -> Middleware {
    Middleware::Transform(TransformMiddleware {
        schema: Some("{\"type\": \"object\"}".to_string()),
        on_error: TransformErrorPolicy::Reject,
        ..Default::default()
    })
}

fn resolved_name_by(endpoint: &Endpoint) -> NameBy {
    match &endpoint.endpoint_type {
        EndpointType::ObjectStore(config) => config.name_by,
        other => panic!("not an object-store sink: {other:?}"),
    }
}

fn relax(input: &Endpoint, output: &Endpoint, source_has_position: bool) -> Option<(Endpoint, String)> {
    let registry = Registry::new();
    let mut candidate = output.clone();
    relax_object_naming("test", source_has_position, input, &mut candidate, &registry)
        .unwrap()
        .map(|reason| (candidate, reason))
}

#[test]
fn a_filter_takes_an_auto_named_object_store_off_source_position() {
    let (relaxed, reason) = relax(&filtered_source(), &bucket(NameBy::Auto), true).expect("naming relaxed");
    assert!(reason.contains("`filter`"), "names the cause: {reason}");
    assert_eq!(
        reason,
        "the `filter` middleware removes messages from each batch, which would leave every object covering one contiguous source range and split each batch into many small objects. Naming objects by write time instead; set name_by: source_position to keep replay-safe names at that cost."
    );
    assert_eq!(resolved_name_by(&relaxed), NameBy::WriteTime);
}

#[test]
fn a_filter_on_a_referenced_input_relaxes_object_naming() {
    let mut registry = Registry::new();
    registry.register_endpoint("filtered-reference", filtered_source());
    let input = Endpoint::new(EndpointType::Ref("filtered-reference".to_string()));
    let mut sink = bucket(NameBy::Auto);
    let reason = relax_object_naming("test", true, &input, &mut sink, &registry).unwrap();
    assert!(reason.is_some());
    assert_eq!(resolved_name_by(&sink), NameBy::WriteTime);
}

#[test]
fn an_expression_transform_relaxes_object_naming() {
    let input = with_middleware(
        Endpoint::new_memory("orders", 1),
        Middleware::Transform(TransformMiddleware {
            expression: Some("{ id: id }".to_string()),
            on_error: TransformErrorPolicy::Reject,
            ..Default::default()
        }),
    );
    let (relaxed, _) = relax(&input, &bucket(NameBy::Auto), true).expect("naming relaxed");
    assert_eq!(resolved_name_by(&relaxed), NameBy::WriteTime);
}

#[test]
fn an_explicitly_named_sink_keeps_source_position_under_a_filter() {
    assert!(relax(&filtered_source(), &bucket(NameBy::SourcePosition), true).is_none());
}

#[test]
fn the_deprecated_idempotency_alias_counts_as_explicit() {
    let sink = Endpoint::new(EndpointType::ObjectStore(ObjectStoreConfig {
        url: "s3://bucket/orders".to_string(),
        idempotency: Some(true),
        ..Default::default()
    }));
    assert!(relax(&filtered_source(), &sink, true).is_none());
}

#[test]
fn deduplication_weak_join_and_a_rejecting_transform_relax_the_naming_too() {
    let weak_join = Middleware::WeakJoin(WeakJoinMiddleware {
        group_by: "correlation_id".to_string(),
        expected_count: 4,
        timeout_ms: 1000,
        branch_by: None,
        required: Vec::new(),
    });
    for middleware in [deduplication(), weak_join, rejecting_transform()] {
        let input = with_middleware(Endpoint::new_memory("orders", 1), middleware);
        let (relaxed, _) = relax(&input, &bucket(NameBy::Auto), true).expect("naming relaxed");
        assert_eq!(resolved_name_by(&relaxed), NameBy::WriteTime);
    }
}

#[test]
fn a_dropping_middleware_on_the_sink_counts_too() {
    let sink = with_middleware(bucket(NameBy::Auto), rejecting_transform());
    let (relaxed, _) = relax(&Endpoint::new_memory("orders", 1), &sink, true).expect("naming relaxed");
    assert_eq!(resolved_name_by(&relaxed), NameBy::WriteTime);
}

#[test]
fn a_transform_that_cannot_drop_a_message_leaves_the_naming_alone() {
    for transform in [
        TransformMiddleware { on_error: TransformErrorPolicy::Reject, ..Default::default() },
        TransformMiddleware {
            schema: Some("{\"type\": \"object\"}".to_string()),
            on_error: TransformErrorPolicy::PassThrough,
            ..Default::default()
        },
    ] {
        let input = with_middleware(Endpoint::new_memory("orders", 1), Middleware::Transform(transform));
        assert!(relax(&input, &bucket(NameBy::Auto), true).is_none());
    }
}

#[test]
fn middlewares_that_keep_every_message_leave_source_position_naming_in_place() {
    let input = with_middleware(
        Endpoint::new_memory("orders", 1),
        Middleware::Limiter(LimiterMiddleware { messages_per_second: 100 }),
    );
    assert!(relax(&input, &bucket(NameBy::Auto), true).is_none());
}

#[test]
fn a_nested_dropper_relaxes_only_the_sinks_beneath_it() {
    let filtered_leg = with_middleware(bucket(NameBy::Auto), Middleware::Filter("amount > 100".to_string()));
    let fanout = Endpoint::new(EndpointType::Fanout(vec![filtered_leg, bucket(NameBy::Auto)]));
    let (relaxed, _) = relax(&Endpoint::new_memory("orders", 1), &fanout, true).expect("naming relaxed");
    let EndpointType::Fanout(legs) = &relaxed.endpoint_type else {
        panic!("not a fanout");
    };
    assert_eq!(resolved_name_by(&legs[0]), NameBy::WriteTime);
    assert_eq!(resolved_name_by(&legs[1]), NameBy::Auto);
}

#[test]
fn a_file_sink_is_left_untouched() {
    assert!(relax(&filtered_source(), &file_named_by(NameBy::Auto), true).is_none());
}

#[test]
fn a_when_switch_without_a_default_relaxes_its_cases() {
    fn switch_to(bucket: Endpoint, default: Option<Endpoint>) -> Endpoint {
        Endpoint::new(EndpointType::Switch(SwitchConfig {
            metadata_key: String::new(),
            cases: Vec::new(),
            when: vec![SwitchCase { condition: "amount > 100".to_string(), to: bucket }],
            default: default.map(Box::new),
        }))
    }

    let ordinary = Endpoint::new_memory("ordinary", 1);
    assert!(relax(&filtered_source(), &bucket(NameBy::Auto), false).is_none());

    let (relaxed, reason) = relax(&ordinary, &switch_to(bucket(NameBy::Auto), None), true)
        .expect("naming relaxed");
    assert!(reason.starts_with("a `switch` with no `default`"));
    let EndpointType::Switch(config) = &relaxed.endpoint_type else {
        panic!("not a switch");
    };
    assert_eq!(resolved_name_by(&config.when[0].to), NameBy::WriteTime);

    let metadata_switch = Endpoint::new(EndpointType::Switch(SwitchConfig {
        metadata_key: "status".to_string(),
        cases: vec![("paid".to_string(), bucket(NameBy::Auto))],
        when: Vec::new(),
        default: None,
    }));
    let (relaxed, _) = relax(&ordinary, &metadata_switch, true).expect("metadata switch naming relaxed");
    let EndpointType::Switch(config) = &relaxed.endpoint_type else {
        panic!("not a switch");
    };
    assert_eq!(resolved_name_by(&config.cases[0].1), NameBy::WriteTime);

    assert!(relax(&ordinary, &switch_to(bucket(NameBy::Auto), Some(ordinary.clone())), true).is_none());
}

#[test]
fn relaxing_a_relaxed_output_finds_nothing_more() {
    let registry = Registry::new();
    let mut sink = Endpoint::new(EndpointType::Fanout(vec![bucket(NameBy::Auto), bucket(NameBy::Auto)]));
    let first = relax_object_naming("test", true, &filtered_source(), &mut sink, &registry).unwrap();
    assert!(first.is_some());
    let second = relax_object_naming("test", true, &filtered_source(), &mut sink, &registry).unwrap();
    assert!(second.is_none());
}

#[test]
fn an_output_tree_beyond_the_depth_limit_is_refused_unchanged() {
    let registry = Registry::new();
    let mut deep = bucket(NameBy::Auto);
    for _ in 0..20 {
        deep = Endpoint::new(EndpointType::Fanout(vec![deep]));
    }
    let err = relax_object_naming("deep", true, &filtered_source(), &mut deep, &registry).unwrap_err();
    assert_eq!(err.kind, ErrorKind::OutputDepthExceeded);
    assert_eq!(err.message(), "[route:deep] output recursion depth exceeded limit of 16");
    let mut node = &deep;
    while let EndpointType::Fanout(legs) = &node.endpoint_type {
        node = &legs[0];
    }
    assert_eq!(resolved_name_by(node), NameBy::Auto);
}

#[test]
fn row_dropping_middleware_names_the_first_dropper() {
    let endpoint = with_middleware(
        with_middleware(Endpoint::new_memory("orders", 1), Middleware::Limiter(LimiterMiddleware { messages_per_second: 5 })),
        deduplication(),
    );
    assert_eq!(row_dropping_middleware(&endpoint), Some("the `deduplication` middleware"));
    assert_eq!(row_dropping_middleware(&Endpoint::new_memory("orders", 1)), None);
}
