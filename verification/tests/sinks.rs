use mq_bridge::errors::ErrorKind;
use mq_bridge::models::{
    BufferMiddleware, DelayMiddleware, Endpoint, EndpointType, FileConfig, HttpConfig,
    LimiterMiddleware, Middleware, NameBy, ObjectStoreConfig, RetryMiddleware, SwitchConfig,
};
use mq_bridge::registry::Registry;
use mq_bridge::sinks::{
    output_has_write_time_named_object_store, output_middlewares_allow_http_inline_fast_path,
    output_passes_through_http_status, output_requires_source_metadata,
};

fn file_named_by(name_by: NameBy) -> Endpoint {
    let mut config = FileConfig::new("/tmp/parts");
    config.name_by = name_by;
    Endpoint::new(EndpointType::File(config))
}

fn bucket(name_by: NameBy) -> Endpoint {
    Endpoint::new(EndpointType::ObjectStore(ObjectStoreConfig {
        url: "s3://bucket/data".to_string(),
        name_by,
        ..Default::default()
    }))
}

#[test]
fn source_position_output_requires_source_metadata_through_fanout_and_switch() {
    let registry = Registry::new();
    let ordinary = Endpoint::new_memory("ordinary", 1);
    let file = file_named_by(NameBy::SourcePosition);

    let fanout = Endpoint::new(EndpointType::Fanout(vec![ordinary.clone(), file.clone()]));
    assert!(output_requires_source_metadata("test", &fanout, false, &registry).unwrap());

    let switch = Endpoint::new(EndpointType::Switch(SwitchConfig {
        metadata_key: "kind".to_string(),
        cases: vec![("archive".to_string(), file)],
        when: Vec::new(),
        default: Some(Box::new(ordinary)),
    }));
    assert!(output_requires_source_metadata("test", &switch, false, &registry).unwrap());
}

#[test]
fn auto_naming_follows_what_the_input_can_stamp() {
    let registry = Registry::new();
    let auto = Endpoint::new(EndpointType::Fanout(vec![bucket(NameBy::Auto)]));
    assert!(output_requires_source_metadata("test", &auto, true, &registry).unwrap());
    assert!(!output_requires_source_metadata("test", &auto, false, &registry).unwrap());

    let explicit = Endpoint::new(EndpointType::Fanout(vec![file_named_by(NameBy::SourcePosition)]));
    assert!(output_requires_source_metadata("test", &explicit, false, &registry).unwrap());
}

#[test]
fn auto_naming_never_turns_a_file_sink_into_part_files() {
    let registry = Registry::new();
    let auto = Endpoint::new(EndpointType::Fanout(vec![file_named_by(NameBy::Auto)]));
    assert!(!output_requires_source_metadata("test", &auto, true, &registry).unwrap());
}

#[test]
fn idempotency_alias_is_still_read_but_never_overrides_name_by() {
    let mut config = FileConfig::new("/tmp/parts");
    config.idempotency = Some(true);
    assert_eq!(config.resolved_name_by(false), NameBy::SourcePosition);

    config.name_by = NameBy::WriteTime;
    assert_eq!(config.resolved_name_by(true), NameBy::WriteTime);
}

#[test]
fn write_time_named_object_store_is_detected_through_the_output_tree() {
    let registry = Registry::new();
    let fanout = Endpoint::new(EndpointType::Fanout(vec![
        Endpoint::new_memory("ordinary", 1),
        bucket(NameBy::WriteTime),
    ]));
    assert!(output_has_write_time_named_object_store("test", &fanout, false, &registry).unwrap());

    let by_position = Endpoint::new(EndpointType::Fanout(vec![bucket(NameBy::SourcePosition)]));
    assert!(!output_has_write_time_named_object_store("test", &by_position, false, &registry).unwrap());
}

#[test]
fn a_sink_walk_follows_refs_and_refuses_cycles() {
    let mut registry = Registry::new();
    registry.register_endpoint("archive", file_named_by(NameBy::SourcePosition));
    let via_ref = Endpoint::new(EndpointType::Ref("archive".to_string()));
    assert!(output_requires_source_metadata("r", &via_ref, false, &registry).unwrap());

    let missing = Endpoint::new(EndpointType::Ref("nowhere".to_string()));
    let err = output_requires_source_metadata("r", &missing, false, &registry).unwrap_err();
    assert_eq!(err.kind, ErrorKind::OutputRefNotFound);
    assert_eq!(err.message(), "[route:r] referenced output endpoint 'nowhere' not found");

    registry.register_endpoint("loop", Endpoint::new(EndpointType::Ref("loop".to_string())));
    let looping = Endpoint::new(EndpointType::Ref("loop".to_string()));
    let err = output_requires_source_metadata("r", &looping, false, &registry).unwrap_err();
    assert_eq!(err.kind, ErrorKind::CircularOutputReference);
}

#[test]
fn the_same_ref_twice_side_by_side_is_no_cycle() {
    let mut registry = Registry::new();
    registry.register_endpoint("plain", Endpoint::new_memory("m", 1));
    let twice = Endpoint::new(EndpointType::Fanout(vec![
        Endpoint::new(EndpointType::Ref("plain".to_string())),
        Endpoint::new(EndpointType::Ref("plain".to_string())),
    ]));
    assert!(!output_requires_source_metadata("r", &twice, false, &registry).unwrap());
}

#[test]
fn status_passes_through_only_when_every_sink_opts_in() {
    let registry = Registry::new();
    let mut passing = HttpConfig::new("http://upstream");
    passing.pass_through_status = true;
    let one = Endpoint::new(EndpointType::Http(passing));
    assert!(output_passes_through_http_status("r", &one, &registry).unwrap());

    let mixed = Endpoint::new(EndpointType::Fanout(vec![one, Endpoint::new_memory("m", 1)]));
    assert!(!output_passes_through_http_status("r", &mixed, &registry).unwrap());
}

#[test]
fn test_http_inline_fast_path_allows_simple_output_publisher_middlewares() {
    assert!(output_middlewares_allow_http_inline_fast_path(&[
        Middleware::Buffer(BufferMiddleware { max_messages: 16, max_delay_ms: 0 }),
        Middleware::Delay(DelayMiddleware { delay_ms: 0 }),
        Middleware::Limiter(LimiterMiddleware { messages_per_second: 1_000_000 }),
    ]));
    assert!(!output_middlewares_allow_http_inline_fast_path(&[Middleware::Retry(RetryMiddleware::default())]));
    assert!(!output_middlewares_allow_http_inline_fast_path(&[Middleware::Dlq(Box::default())]));
}
