use mq_bridge::errors::ErrorKind;
use mq_bridge::factory::{
    consumer_kind, fill_consumer_defaults, fill_publisher_defaults, resolve_output, ConsumerKind,
};
use mq_bridge::models::{
    Endpoint, EndpointType, HandlerRef, IbmMqConfig, KafkaConfig, Middleware, MongoConsume, MongoDbConfig,
    MqttConfig, SqlxConfig, SwitchConfig,
};
use mq_bridge::registry::Registry;

fn mqtt(clean_session: bool) -> MqttConfig {
    MqttConfig { topic: None, client_id: None, delayed_ack: false, clean_session }
}

fn mongo(consume: Option<MongoConsume>, change_stream: bool) -> MongoDbConfig {
    MongoDbConfig {
        collection: None,
        consume,
        change_stream,
        cursor_id: None,
        reply_polling_ms: None,
        request_reply: false,
        request_timeout_ms: None,
        ttl_seconds: None,
        capped_size_bytes: None,
        polling_interval_ms: None,
        source_metadata: false,
    }
}

fn sqlx(publication: Option<&str>, cursor: Option<&str>) -> SqlxConfig {
    SqlxConfig {
        url: "postgres://db/orders".to_string(),
        table: "orders".to_string(),
        publication: publication.map(|s| s.to_string()),
        create_publication: false,
        slot_name: None,
        cursor_column: cursor.map(|s| s.to_string()),
        cursor_id: None,
        checkpoint_store: None,
        insert_query: None,
        select_query: None,
        delete_after_read: false,
        polling_interval_ms: None,
        source_metadata: false,
    }
}

fn ibmmq(queue: Option<&str>, topic: Option<&str>) -> IbmMqConfig {
    IbmMqConfig {
        queue: queue.map(|s| s.to_string()),
        topic: topic.map(|s| s.to_string()),
        wait_timeout_ms: 1000,
        max_message_size: 1024,
        internal_buffer_size: None,
        disable_status_inq: false,
    }
}

fn filter_names(ms: &[&Middleware]) -> Vec<String> {
    ms.iter()
        .map(|m| match m {
            Middleware::Filter(f) => f.clone(),
            _ => String::new(),
        })
        .collect()
}

#[test]
fn unnamed_topics_take_the_route_name() {
    let mut t = EndpointType::Kafka(KafkaConfig::new("localhost:9092"));
    fill_consumer_defaults(&mut t, "orders", "mq-bridge");
    match &t {
        EndpointType::Kafka(c) => assert_eq!(c.topic.as_deref(), Some("orders")),
        _ => panic!("type changed"),
    }
    let mut named = KafkaConfig::new("localhost:9092");
    named.topic = Some("payments".to_string());
    let mut t = EndpointType::Kafka(named);
    fill_publisher_defaults(&mut t, "orders", "mq-bridge");
    match &t {
        EndpointType::Kafka(c) => assert_eq!(c.topic.as_deref(), Some("payments")),
        _ => panic!("type changed"),
    }
    let mut t = EndpointType::MongoDb(mongo(None, false));
    fill_publisher_defaults(&mut t, "orders", "mq-bridge");
    match &t {
        EndpointType::MongoDb(c) => assert_eq!(c.collection.as_deref(), Some("orders")),
        _ => panic!("type changed"),
    }
}

#[test]
fn mqtt_client_ids_default_only_for_persistent_input_sessions() {
    let mut t = EndpointType::Mqtt(mqtt(false));
    fill_consumer_defaults(&mut t, "sensors", "mq-bridge");
    match &t {
        EndpointType::Mqtt(c) => {
            assert_eq!(c.topic.as_deref(), Some("sensors"));
            assert_eq!(c.client_id.as_deref(), Some("mq-bridge-sensors"));
        }
        _ => panic!("type changed"),
    }
    let mut t = EndpointType::Mqtt(mqtt(true));
    fill_consumer_defaults(&mut t, "sensors", "mq-bridge");
    match &t {
        EndpointType::Mqtt(c) => assert_eq!(c.client_id, None),
        _ => panic!("type changed"),
    }
    let mut t = EndpointType::Mqtt(mqtt(true));
    fill_publisher_defaults(&mut t, "sensors", "mq-bridge");
    match &t {
        EndpointType::Mqtt(c) => assert_eq!(c.client_id.as_deref(), Some("mq-bridge-sensors")),
        _ => panic!("type changed"),
    }
}

#[test]
fn an_ibm_mq_input_without_queue_or_topic_reads_the_route_queue() {
    let mut t = EndpointType::IbmMq(ibmmq(None, None));
    fill_consumer_defaults(&mut t, "orders", "mq-bridge");
    match &t {
        EndpointType::IbmMq(c) => assert_eq!(c.queue.as_deref(), Some("orders")),
        _ => panic!("type changed"),
    }
    let mut t = EndpointType::IbmMq(ibmmq(None, Some("prices")));
    fill_consumer_defaults(&mut t, "orders", "mq-bridge");
    match &t {
        EndpointType::IbmMq(c) => assert_eq!(c.queue, None),
        _ => panic!("type changed"),
    }
    let mut t = EndpointType::IbmMq(ibmmq(None, None));
    fill_publisher_defaults(&mut t, "orders", "mq-bridge");
    match &t {
        EndpointType::IbmMq(c) => assert_eq!(c.queue, None),
        _ => panic!("type changed"),
    }
}

#[test]
fn sqlx_and_mongodb_inputs_pick_their_reader() {
    assert_eq!(consumer_kind(&EndpointType::Sqlx(sqlx(Some("pub"), None)), "r").ok(), Some(ConsumerKind::SqlxCapture));
    assert_eq!(consumer_kind(&EndpointType::Sqlx(sqlx(None, Some("id"))), "r").ok(), Some(ConsumerKind::SqlxCursor));
    assert_eq!(consumer_kind(&EndpointType::Sqlx(sqlx(None, None)), "r").ok(), Some(ConsumerKind::SqlxQueue));
    assert_eq!(consumer_kind(&EndpointType::MongoDb(mongo(None, false)), "r").ok(), Some(ConsumerKind::MongoQueue));
    assert_eq!(consumer_kind(&EndpointType::MongoDb(mongo(None, true)), "r").ok(), Some(ConsumerKind::MongoCaptureNew));
    assert_eq!(
        consumer_kind(&EndpointType::MongoDb(mongo(Some(MongoConsume::Snapshot), true)), "r").ok(),
        Some(ConsumerKind::MongoSnapshot)
    );
    assert_eq!(
        consumer_kind(&EndpointType::MongoDb(mongo(Some(MongoConsume::CaptureAll), false)), "r").ok(),
        Some(ConsumerKind::MongoCaptureAll)
    );
}

#[test]
fn output_only_types_are_refused_as_inputs() {
    let e = consumer_kind(&EndpointType::Null, "orders").err().unwrap();
    assert_eq!(e.kind, ErrorKind::UnsupportedConsumer);
    assert_eq!(e.message(), "[route:orders] Unsupported consumer endpoint type 'null'");
    let switch = EndpointType::Switch(SwitchConfig {
        metadata_key: "kind".to_string(),
        cases: vec![],
        when: vec![],
        default: None,
    });
    let e = consumer_kind(&switch, "orders").err().unwrap();
    assert_eq!(e.kind, ErrorKind::OutputOnly);
    assert_eq!(e.message(), "[route:orders] Switch endpoint is only supported as an output");
}

#[test]
fn an_output_ref_puts_the_target_middlewares_inside() {
    let mut registry = Registry::new();
    let mut target = Endpoint::new_memory("orders", 1);
    target.middlewares.push(Middleware::Filter("target".to_string()));
    registry.register_endpoint("target", target);
    let mut outer = Endpoint::new(EndpointType::Ref("target".to_string()));
    outer.middlewares.push(Middleware::Filter("ref".to_string()));
    outer.handler = Some(HandlerRef { name: "enrich".to_string() });

    let resolved = resolve_output(&outer, "r", &registry, 0).ok().unwrap();
    assert!(matches!(resolved.endpoint_type, EndpointType::Memory(_)));
    assert_eq!(filter_names(&resolved.middlewares), vec!["target", "ref"]);
    assert_eq!(resolved.handler.map(|h| h.name.as_str()), Some("enrich"));
    assert_eq!(resolved.depth, 1);
}

#[test]
fn handlers_on_both_sides_of_a_ref_are_ambiguous() {
    let mut registry = Registry::new();
    let mut target = Endpoint::new_memory("orders", 1);
    target.handler = Some(HandlerRef { name: "a".to_string() });
    registry.register_endpoint("target", target);
    let mut outer = Endpoint::new(EndpointType::Ref("target".to_string()));
    outer.handler = Some(HandlerRef { name: "b".to_string() });
    let e = resolve_output(&outer, "r", &registry, 0).err().unwrap();
    assert_eq!(e.kind, ErrorKind::AmbiguousHandlers);
    assert_eq!(
        e.message(),
        "[route:r] Both ref endpoint and referenced endpoint 'target' have handlers defined. This is ambiguous."
    );
}

#[test]
fn an_output_ref_to_a_publisher_stands_for_it_and_unknown_refs_fail() {
    let mut registry = Registry::new();
    registry.register_publisher("shared");
    let outer = Endpoint::new(EndpointType::Ref("shared".to_string()));
    let resolved = resolve_output(&outer, "r", &registry, 3).ok().unwrap();
    assert!(matches!(resolved.endpoint_type, EndpointType::Ref(n) if n == "shared"));
    assert_eq!(resolved.depth, 3);

    let missing = Endpoint::new(EndpointType::Ref("nowhere".to_string()));
    let e = resolve_output(&missing, "r", &registry, 0).err().unwrap();
    assert_eq!(e.kind, ErrorKind::RefNotFound);
}

#[test]
fn a_ref_loop_among_outputs_hits_the_depth_limit() {
    let mut registry = Registry::new();
    registry.register_endpoint("a", Endpoint::new(EndpointType::Ref("b".to_string())));
    registry.register_endpoint("b", Endpoint::new(EndpointType::Ref("a".to_string())));
    let start = Endpoint::new(EndpointType::Ref("a".to_string()));
    let e = resolve_output(&start, "r", &registry, 0).err().unwrap();
    assert_eq!(e.kind, ErrorKind::PublisherDepthExceeded);
    assert_eq!(e.message(), "Fanout/Ref recursion depth exceeded limit of 16");
    let deep = Endpoint::new(EndpointType::Null);
    assert_eq!(resolve_output(&deep, "r", &registry, 17).err().unwrap().kind, ErrorKind::PublisherDepthExceeded);
    assert_eq!(resolve_output(&deep, "r", &registry, 16).ok().unwrap().depth, 16);
}
