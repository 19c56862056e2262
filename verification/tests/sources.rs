use mq_bridge::errors::ErrorKind;
use mq_bridge::models::{
    Endpoint, EndpointType, FileConfig, KafkaConfig, Middleware, MongoConsume, MongoDbConfig,
    SqlxConfig,
};
use mq_bridge::registry::Registry;
use mq_bridge::sources::{
    check_source_position_available, resolve_endpoint, source_metadata_requested,
    sqlx_cfg_to_cdc, supports_source_metadata,
};

fn sqlx(table: &str) -> SqlxConfig {
    SqlxConfig {
        url: "postgres://db/orders".to_string(),
        table: table.to_string(),
        publication: None,
        create_publication: false,
        slot_name: None,
        cursor_column: None,
        cursor_id: None,
        checkpoint_store: None,
        insert_query: None,
        select_query: None,
        delete_after_read: false,
        polling_interval_ms: None,
        source_metadata: false,
    }
}

fn mongo(consume: Option<MongoConsume>) -> MongoDbConfig {
    MongoDbConfig {
        collection: Some("orders".to_string()),
        consume,
        change_stream: false,
        cursor_id: None,
        reply_polling_ms: None,
        request_reply: false,
        request_timeout_ms: None,
        ttl_seconds: None,
        capped_size_bytes: None,
        polling_interval_ms: None,
        source_metadata: false,
    }
}

#[test]
fn sqlx_is_a_replay_source_only_in_cursor_or_cdc_mode() {
    let mut cursor = sqlx("orders");
    cursor.cursor_column = Some("id".to_string());
    assert!(supports_source_metadata(&EndpointType::Sqlx(cursor)));

    let queue = sqlx("orders");
    assert!(!supports_source_metadata(&EndpointType::Sqlx(queue)));
}

#[test]
fn mongodb_stamps_positions_only_when_reading_a_change_stream() {
    assert!(supports_source_metadata(&EndpointType::MongoDb(mongo(None))));
    assert!(supports_source_metadata(&EndpointType::MongoDb(mongo(Some(MongoConsume::CaptureAll)))));
    assert!(!supports_source_metadata(&EndpointType::MongoDb(mongo(Some(MongoConsume::Snapshot)))));
    assert!(!supports_source_metadata(&EndpointType::Memory(Default::default())));
}

#[test]
fn only_the_flag_asks_for_source_metadata() {
    let mut kafka = KafkaConfig::new("localhost:9092");
    kafka.topic = Some("t".to_string());
    kafka.source_metadata = true;
    assert!(source_metadata_requested(&EndpointType::Kafka(kafka)));
    assert!(!source_metadata_requested(&EndpointType::File(FileConfig::new("/tmp/x"))));
}

#[test]
fn idempotent_output_rejects_a_source_without_replay_position() {
    let registry = Registry::new();
    let err = check_source_position_available("idempotent-route", &Endpoint::new_memory("input", 1), true, &registry)
        .unwrap_err();
    assert_eq!(err.kind, ErrorKind::SourcePositionUnavailable);
    assert!(err.message().contains("idempotent-route"));
    assert!(check_source_position_available("r", &Endpoint::new_memory("input", 1), false, &registry).is_ok());
    let file = Endpoint::new(EndpointType::File(FileConfig::new("/tmp/in.jsonl")));
    assert!(check_source_position_available("r", &file, true, &registry).is_ok());
}

#[test]
fn resolving_a_ref_merges_middlewares_outermost_first() {
    let mut registry = Registry::new();
    let mut inner = Endpoint::new_memory("orders", 1);
    inner.middlewares.push(Middleware::Filter("inner".to_string()));
    registry.register_endpoint("target", inner);
    let mut outer = Endpoint::new(EndpointType::Ref("target".to_string()));
    outer.middlewares.push(Middleware::Filter("outer".to_string()));

    let resolved = resolve_endpoint(&outer, "r", &registry).ok().unwrap();
    assert!(matches!(resolved.endpoint.endpoint_type, EndpointType::Memory(_)));
    let names: Vec<&str> = resolved
        .middlewares
        .iter()
        .map(|m| match m {
            Middleware::Filter(f) => f.as_str(),
            _ => "",
        })
        .collect();
    assert_eq!(names, vec!["outer", "inner"]);
}

#[test]
fn resolving_a_ref_cycle_is_refused() {
    let mut registry = Registry::new();
    registry.register_endpoint("a", Endpoint::new(EndpointType::Ref("b".to_string())));
    registry.register_endpoint("b", Endpoint::new(EndpointType::Ref("a".to_string())));
    let err = resolve_endpoint(&Endpoint::new(EndpointType::Ref("a".to_string())), "r", &registry)
        .err()
        .unwrap();
    assert_eq!(err.kind, ErrorKind::CircularReference);
    assert_eq!(err.message(), "[route:r] Circular reference detected for endpoint 'a'");
}

#[test]
fn sqlx_cdc_maps_onto_postgres_cdc() {
    let mut cfg = sqlx("orders");
    cfg.publication = Some("pub1".to_string());
    cfg.create_publication = true;
    let cdc = sqlx_cfg_to_cdc(&cfg).unwrap();
    assert_eq!(cdc.url, "postgres://db/orders");
    assert_eq!(cdc.publication, "pub1");
    assert_eq!(cdc.slot_name, "mq_bridge_slot");
    assert_eq!(cdc.publication_tables, vec!["orders".to_string()]);
    assert!(cdc.create_slot);
    assert_eq!(cdc.status_interval_ms, 10_000);

    let mut mysql = sqlx("orders");
    mysql.url = "mysql://db".to_string();
    let err = sqlx_cfg_to_cdc(&mysql).unwrap_err();
    assert_eq!(err.kind, ErrorKind::SqlxCdcNotPostgres);
    assert_eq!(
        err.message(),
        "sqlx `publication` (CDC) is only supported for PostgreSQL URLs; got 'mysql://db'. Use a postgres:// URL or the dedicated `postgres_cdc` endpoint."
    );

    let mut both = sqlx("orders");
    both.cursor_column = Some("id".to_string());
    assert_eq!(sqlx_cfg_to_cdc(&both).unwrap_err().kind, ErrorKind::SqlxCdcWithCursor);
}
