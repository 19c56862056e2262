use mq_bridge::errors::ErrorKind;
use mq_bridge::models::{
    Endpoint, EndpointType, FileConfig, HandlerRef, HttpConfig, MemoryConfig,
    RequestForwardConfig, SwitchConfig,
};
use mq_bridge::registry::Registry;
use mq_bridge::validation::{check_consumer, check_publisher};

fn null() -> Endpoint {
    Endpoint::new(EndpointType::Null)
}

fn dangling_ref() -> Endpoint {
    Endpoint::new(EndpointType::Ref("never_registered".to_string()))
}

fn switch_over(cases: Vec<(&str, Endpoint)>, default: Option<Endpoint>) -> Endpoint {
    Endpoint::new(EndpointType::Switch(SwitchConfig {
        metadata_key: "kind".to_string(),
        cases: cases
            .into_iter()
            .map(|(key, endpoint)| (key.to_string(), endpoint))
            .collect(),
        when: Vec::new(),
        default: default.map(Box::new),
    }))
}

fn with_handler(mut endpoint: Endpoint) -> Endpoint {
    endpoint.handler = Some(HandlerRef { name: "noop".to_string() });
    endpoint
}

#[test]
fn a_handler_on_an_input_endpoint_warns_that_it_is_ignored() {
    let registry = Registry::new();
    let warnings =
        check_consumer("test", &with_handler(Endpoint::new_memory("in", 1)), None, &registry)
            .unwrap();
    assert_eq!(warnings.len(), 1);
    assert!(warnings[0].contains("only supported on output endpoints"));
}

#[test]
fn a_ref_carries_up_the_warnings_of_what_it_points_at() {
    let mut registry = Registry::new();
    registry.register_endpoint("ref_target", with_handler(Endpoint::new_memory("in", 1)));
    let warnings = check_consumer(
        "test",
        &Endpoint::new(EndpointType::Ref("ref_target".to_string())),
        None,
        &registry,
    )
    .unwrap();
    assert_eq!(warnings.len(), 1, "the referenced endpoint's warning must survive the hop");
}

#[test]
fn an_unregistered_ref_is_rejected_on_both_sides() {
    let registry = Registry::new();
    let missing = dangling_ref();
    for err in [
        check_consumer("test", &missing, None, &registry).unwrap_err(),
        check_publisher("test", &missing, None, &registry).unwrap_err(),
    ] {
        let err = err.message();
        assert!(err.contains("not found"), "{err}");
    }
}

#[test]
fn a_ref_cycle_stops_at_the_depth_limit_instead_of_overflowing() {
    let mut registry = Registry::new();
    registry.register_endpoint("cycle_first", Endpoint::new(EndpointType::Ref("cycle_second".to_string())));
    registry.register_endpoint("cycle_second", Endpoint::new(EndpointType::Ref("cycle_first".to_string())));
    let entry = Endpoint::new(EndpointType::Ref("cycle_first".to_string()));
    for err in [
        check_consumer("test", &entry, None, &registry).unwrap_err(),
        check_publisher("test", &entry, None, &registry).unwrap_err(),
    ] {
        let err = err.message();
        assert!(err.contains("depth"), "{err}");
    }
}

#[test]
fn validation_reaches_leaves_through_fanout_switch_and_request() {
    let registry = Registry::new();
    let fanout = Endpoint::new(EndpointType::Fanout(vec![null(), dangling_ref()]));
    let switch_case = switch_over(vec![("paid", dangling_ref())], None);
    let switch_default = switch_over(vec![("paid", null())], Some(dangling_ref()));
    let request = Endpoint::new(EndpointType::Request(RequestForwardConfig {
        to: Box::new(null()),
        forward_to: Box::new(dangling_ref()),
    }));

    for endpoint in [fanout, switch_case, switch_default, request] {
        assert!(
            check_publisher("test", &endpoint, None, &registry).is_err(),
            "a broken leaf must not pass validation"
        );
    }
}

#[test]
fn a_reader_validates_its_inner_endpoint_as_a_consumer() {
    let registry = Registry::new();
    let reader = Endpoint::new(EndpointType::Reader(Box::new(switch_over(
        vec![("paid", null())],
        None,
    ))));
    let err = check_publisher("test", &reader, None, &registry).unwrap_err().message();
    assert!(err.contains("only supported as an output"), "{err}");
}

#[test]
fn an_input_only_rejection_names_the_route_that_carries_it() {
    let registry = Registry::new();
    let err = check_consumer("orders_in", &switch_over(vec![("paid", null())], None), None, &registry)
        .unwrap_err()
        .message();
    assert!(err.contains("orders_in"), "{err}");
}

#[test]
fn the_policy_list_never_blocks_a_core_endpoint_type() {
    let registry = Registry::new();
    let allowed: &[&str] = &["memory"];
    for endpoint in [
        null(),
        Endpoint::new_memory("plain", 1),
        Endpoint::new(EndpointType::Fanout(vec![null()])),
    ] {
        assert!(check_publisher("test", &endpoint, Some(allowed), &registry).is_ok());
    }

    let file = Endpoint::new(EndpointType::File(FileConfig::new("/tmp/policy_probe.jsonl")));
    assert!(check_consumer("test", &file, Some(allowed), &registry).is_ok());
}

#[test]
fn output_only_types_are_refused_as_inputs_whatever_the_policy() {
    let registry = Registry::new();
    for endpoint in [null(), Endpoint::new(EndpointType::Fanout(vec![null()]))] {
        assert!(check_consumer("test", &endpoint, None, &registry).is_err());
        assert!(check_publisher("test", &endpoint, None, &registry).is_ok());
    }
}

#[test]
fn the_policy_list_rejects_a_disallowed_type_however_deeply_it_is_nested() {
    let registry = Registry::new();
    let http = Endpoint::new(EndpointType::Http(HttpConfig::new("http://localhost:8080")));
    let allowed: &[&str] = &["memory"];

    let err = check_publisher("test", &http, Some(allowed), &registry).unwrap_err().message();
    assert!(err.contains("not allowed by policy"), "{err}");

    let nested = Endpoint::new(EndpointType::Fanout(vec![null(), http.clone()]));
    assert!(check_publisher("test", &nested, Some(allowed), &registry).is_err());

    assert!(check_publisher("test", &http, Some(&["memory", "http"]), &registry).is_ok());
}

#[test]
fn test_check_consumer_invalid_config() {
    let registry = Registry::new();
    let config = MemoryConfig {
        topic: "test".to_string(),
        request_reply: true,
        ..Default::default()
    };
    let endpoint = Endpoint::new(EndpointType::Memory(config));
    let warnings = check_consumer("test", &endpoint, None, &registry).unwrap();
    assert_eq!(
        warnings,
        vec![
            "Endpoint 'memory' is used as a consumer, but 'request_reply' is a publisher-only option and will be ignored."
                .to_string()
        ]
    );
}

#[test]
fn a_stream_buffer_input_needs_a_correlation_id() {
    let registry = Registry::new();
    let err = check_consumer("r", &Endpoint::new_stream_buffer("t", None, 4), None, &registry)
        .unwrap_err();
    assert_eq!(err.kind, ErrorKind::StreamBufferCorrelationMissing);
    assert_eq!(err.message(), "[route:r] stream_buffer consumer must specify 'correlation_id'");
    assert!(check_consumer("r", &Endpoint::new_stream_buffer("t", Some("c1"), 4), None, &registry).is_ok());
}

#[test]
fn an_output_warns_about_input_only_options() {
    let registry = Registry::new();
    let warnings = check_publisher("r", &Endpoint::new_stream_buffer("t", Some("c1"), 4), None, &registry)
        .unwrap();
    assert_eq!(
        warnings,
        vec![
            "Endpoint 'stream_buffer' is used as a publisher, but 'correlation_id' is a consumer-only option and will be ignored."
                .to_string()
        ]
    );
}

#[test]
fn an_output_ref_may_name_a_registered_publisher() {
    let mut registry = Registry::new();
    registry.register_publisher("sink");
    let target = Endpoint::new(EndpointType::Ref("sink".to_string()));
    assert!(check_publisher("r", &target, None, &registry).is_ok());
    let err = check_consumer("r", &target, None, &registry).unwrap_err();
    assert_eq!(err.kind, ErrorKind::RefNotFound);
}

#[test]
fn endpoint_methods_check_as_the_free_functions_do() {
    let registry = Registry::new();
    let endpoint = switch_over(vec![("paid", null())], None);
    assert!(endpoint.check_consumer("r", None, &registry).is_err());
    assert!(endpoint.check_publisher("r", None, &registry).is_ok());
}

#[test]
fn a_fanout_check_joins_its_members_checks() {
    let registry = Registry::new();
    let member = |topic: &str, nack: bool| {
        let mut e = Endpoint::new_memory(topic, 1);
        if let EndpointType::Memory(c) = &mut e.endpoint_type {
            c.enable_nack = nack;
            c.subscribe_mode = nack;
        }
        e
    };
    let members = vec![member("a", true), member("b", false), member("c", true)];
    let mut joined = Vec::new();
    for m in &members {
        joined.extend(check_publisher("r", m, None, &registry).unwrap());
    }
    let fanout = Endpoint::new(EndpointType::Fanout(members));
    assert_eq!(check_publisher("r", &fanout, None, &registry).unwrap(), joined);

    let refused = Endpoint::new(EndpointType::Fanout(vec![member("a", false), dangling_ref()]));
    assert!(check_publisher("r", &dangling_ref(), None, &registry).is_err());
    assert!(check_publisher("r", &refused, None, &registry).is_err());
}

#[test]
fn a_fanout_of_passing_members_passes_with_their_warnings_in_order() {
    let registry = Registry::new();
    let first = Endpoint::new_stream_buffer("a", Some("c1"), 4);
    let second = null();
    let third = Endpoint::new_stream_buffer("b", Some("c2"), 4);
    let mut expected = Vec::new();
    for member in [&first, &second, &third] {
        expected.extend(check_publisher("r", member, None, &registry).unwrap());
    }
    assert_eq!(expected.len(), 2);
    let fanout = Endpoint::new(EndpointType::Fanout(vec![first, second, third]));
    assert_eq!(check_publisher("r", &fanout, None, &registry).unwrap(), expected);
}
