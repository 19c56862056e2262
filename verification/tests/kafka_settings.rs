use mq_bridge::kafka_settings::{
    create_common_config, kafka_consumer_config, kafka_consumer_config_fresh, kafka_producer_config,
};
use mq_bridge::models::KafkaConfig;

fn value(m: &mq_bridge::message::Metadata, key: &str) -> Option<String> {
    m.get(key).cloned()
}

#[test]
fn clients_share_servers_tls_and_credentials() {
    let mut config = KafkaConfig::new("broker:9092");
    let plain = create_common_config(&config);
    assert_eq!(plain.len(), 1);
    assert_eq!(value(&plain, "bootstrap.servers").as_deref(), Some("broker:9092"));

    config.tls.required = true;
    config.tls.ca_file = Some("/ca.pem".to_string());
    config.tls.accept_invalid_certs = true;
    config.username = Some("u".to_string());
    config.password = Some("p".to_string());
    let secured = create_common_config(&config);
    assert_eq!(value(&secured, "ssl.ca.location").as_deref(), Some("/ca.pem"));
    assert_eq!(value(&secured, "enable.ssl.certificate.verification").as_deref(), Some("false"));
    assert_eq!(value(&secured, "sasl.mechanism").as_deref(), Some("PLAIN"));
    assert_eq!(value(&secured, "security.protocol").as_deref(), Some("sasl_ssl"));
    assert!(value(&secured, "ssl.key.location").is_none());
}

#[test]
fn a_producer_is_idempotent_unless_acks_are_weakened() {
    let mut config = KafkaConfig::new("broker:9092");
    let defaults = kafka_producer_config(&config);
    assert_eq!(value(&defaults, "enable.idempotence").as_deref(), Some("true"));
    assert_eq!(value(&defaults, "acks").as_deref(), Some("all"));
    assert_eq!(value(&defaults, "compression.type").as_deref(), Some("lz4"));

    config.producer_options = Some(vec![("acks".to_string(), "1".to_string())]);
    let weakened = kafka_producer_config(&config);
    assert_eq!(value(&weakened, "acks").as_deref(), Some("1"));
    assert_eq!(value(&weakened, "enable.idempotence").as_deref(), Some("false"));

    config.producer_options = Some(vec![
        ("acks".to_string(), "1".to_string()),
        ("enable.idempotence".to_string(), "true".to_string()),
    ]);
    let explicit = kafka_producer_config(&config);
    assert_eq!(value(&explicit, "enable.idempotence").as_deref(), Some("true"));

    config.producer_options = Some(vec![("acks".to_string(), "-1".to_string())]);
    assert_eq!(value(&kafka_producer_config(&config), "enable.idempotence").as_deref(), Some("true"));
}

#[test]
fn a_group_reads_from_the_start_and_a_subscriber_from_the_end() {
    let mut config = KafkaConfig::new("broker:9092");
    let subscriber = kafka_consumer_config(&config, "abc");
    assert_eq!(value(&subscriber, "group.id").as_deref(), Some("event-sub-abc"));
    assert_eq!(value(&subscriber, "auto.offset.reset").as_deref(), Some("latest"));
    assert_eq!(value(&subscriber, "enable.auto.commit").as_deref(), Some("false"));

    config.group_id = Some("g".to_string());
    config.consumer_options = Some(vec![
        ("auto.offset.reset".to_string(), "latest".to_string()),
        ("enable.partition.eof".to_string(), "false".to_string()),
    ]);
    let member = kafka_consumer_config(&config, "unused");
    assert_eq!(value(&member, "group.id").as_deref(), Some("g"));
    assert_eq!(value(&member, "auto.offset.reset").as_deref(), Some("latest"));
    assert_eq!(value(&member, "enable.partition.eof").as_deref(), Some("true"));

    config.group_id = None;
    let (fresh, id) = kafka_consumer_config_fresh(&config);
    assert_eq!(value(&fresh, "group.id"), Some(format!("event-sub-{id}")));
}
