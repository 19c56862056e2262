use mq_bridge::kafka::{
    drain_offset_reached, is_tombstone, message_headers, message_id_from_text, prefetch_capacity,
    record_key, record_offset, to_canonical, to_canonical_with_source_metadata, KafkaRecord,
    KAFKA_TOMBSTONE_KEY, MESSAGE_ID_HEADER,
};
use mq_bridge::kafka::{drain_join_timeout_ms, env_count, prefetch_byte_budget};
use mq_bridge::message::CanonicalMessage;

fn record(headers: Vec<(&str, Option<&[u8]>)>, key: Option<&[u8]>, payload: Option<&[u8]>) -> KafkaRecord {
    KafkaRecord {
        payload: payload.map(|p| p.to_vec()),
        key: key.map(|k| k.to_vec()),
        headers: headers
            .into_iter()
            .map(|(k, v)| (k.to_string(), v.map(|b| b.to_vec())))
            .collect(),
        topic: "orders".to_string(),
        partition: 3,
        offset: 42,
    }
}

#[test]
fn test_drain_requires_delivery_or_ordered_eof_at_the_target() {
    assert!(!drain_offset_reached(120, Some(112), None));
    assert!(!drain_offset_reached(120, None, Some(119)));
    assert!(drain_offset_reached(120, Some(120), None));
    assert!(drain_offset_reached(120, None, Some(120)));
    assert!(drain_offset_reached(0, None, None));
}

#[test]
fn test_record_key_selector() {
    let msg = CanonicalMessage::new(b"payload".to_vec(), None).with_metadata_kv("pk", "public.orders");
    assert_eq!(record_key(Some("pk"), &msg), b"public.orders".to_vec());
    assert_eq!(record_key(Some("missing"), &msg), msg.message_id.to_be_bytes().to_vec());
    assert_eq!(record_key(None, &msg), msg.message_id.to_be_bytes().to_vec());
}

#[test]
fn test_process_message_id_from_header_uuid() {
    let r = record(
        vec![("message_id", Some(b"550e8400-e29b-41d4-a716-446655440000"))],
        None,
        Some(b"x"),
    );
    assert_eq!(to_canonical(&r).message_id, 0x550e8400e29b41d4a716446655440000);
}

#[test]
fn test_process_message_id_from_key() {
    let id: u128 = 0x0102030405060708090a0b0c0d0e0f10;
    let key = id.to_be_bytes();
    let r = record(vec![], Some(&key), Some(b"x"));
    assert_eq!(to_canonical(&r).message_id, id);
}

#[test]
fn test_process_message_id_fallback_to_offset() {
    let r = record(vec![], Some(b"short"), Some(b"x"));
    assert_eq!(to_canonical(&r).message_id, (3u128 << 64) | 42);
}

#[test]
fn test_message_id_survives_the_round_trip() {
    let msg = CanonicalMessage::new(b"p".to_vec(), Some(0xabcdef))
        .with_metadata_kv("trace", "t-1")
        .with_metadata_kv("mqb.src.kafka_offset", "9")
        .with_metadata_kv(KAFKA_TOMBSTONE_KEY, "true");
    let headers = message_headers(&msg);
    assert_eq!(headers[0].0, MESSAGE_ID_HEADER);
    assert_eq!(headers[0].1, b"00000000000000000000000000abcdef".to_vec());
    assert_eq!(headers.len(), 2);
    assert_eq!(headers[1], ("trace".to_string(), b"t-1".to_vec()));

    let r = KafkaRecord {
        payload: Some(b"p".to_vec()),
        key: None,
        headers: headers.into_iter().map(|(k, v)| (k, Some(v))).collect(),
        topic: "orders".to_string(),
        partition: 0,
        offset: 0,
    };
    let back = to_canonical(&r);
    assert_eq!(back.message_id, 0xabcdef);
    assert_eq!(back.metadata.get("trace").map(|s| s.as_str()), Some("t-1"));
}

#[test]
fn test_tombstone_becomes_empty_payload_not_error() {
    let r = record(vec![], None, None);
    let m = to_canonical(&r);
    assert!(m.payload.is_empty());
    assert!(is_tombstone(&m));
}

#[test]
fn test_ordinary_record_carries_no_tombstone_flag() {
    let m = to_canonical(&record(vec![], None, Some(b"v")));
    assert!(!is_tombstone(&m));
}

#[test]
fn inbound_headers_cannot_spoof_source_metadata() {
    let r = record(vec![("mqb.src.kafka_offset", Some(b"999")), ("h", None)], None, Some(b"v"));
    let m = to_canonical_with_source_metadata(&r);
    assert_eq!(m.metadata.get("mqb.src.kafka_offset").map(|s| s.as_str()), Some("42"));
    assert_eq!(m.metadata.get("mqb.src.kafka_partition").map(|s| s.as_str()), Some("3"));
    assert_eq!(m.metadata.get("mqb.src.kafka_topic").map(|s| s.as_str()), Some("orders"));
    assert_eq!(m.metadata.get("h").map(|s| s.as_str()), Some(""));
}

#[test]
fn id_header_texts_in_every_accepted_form() {
    assert_eq!(message_id_from_text("0x1f", None), Some(31));
    assert_eq!(message_id_from_text("0X1F", None), Some(31));
    assert_eq!(message_id_from_text("0xzz", None), None);
    assert_eq!(message_id_from_text("1234", None), Some(1234));
    assert_eq!(message_id_from_text("ffffffffffffffffffffffffffffffff", None), Some(u128::MAX));
    assert_eq!(message_id_from_text("anything", Some(7)), Some(7));
    assert_eq!(message_id_from_text("-1", None), None);
}

#[test]
fn test_batch_offsets_keep_one_entry_per_partition() {
    let mut offsets = Vec::new();
    record_offset(&mut offsets, "t", 0, 1);
    record_offset(&mut offsets, "t", 1, 5);
    record_offset(&mut offsets, "t", 0, 2);
    record_offset(&mut offsets, "u", 0, 9);
    assert_eq!(
        offsets,
        vec![("t".to_string(), 0, 2), ("t".to_string(), 1, 5), ("u".to_string(), 0, 9)]
    );
}

#[test]
fn prefetch_capacity_is_four_batches_within_bounds() {
    assert_eq!(prefetch_capacity(None, 10), 8192);
    assert_eq!(prefetch_capacity(None, 10_000), 40_000);
    assert_eq!(prefetch_capacity(None, 1_000_000), 262_144);
    assert_eq!(prefetch_capacity(Some(5), 10), 5);
    assert_eq!(prefetch_capacity(Some(0), 10), 8192);
}

#[test]
fn environment_overrides_need_positive_decimal_counts() {
    assert_eq!(env_count(Some("512")), Some(512));
    assert_eq!(env_count(Some("+7")), Some(7));
    assert_eq!(env_count(Some("0")), None);
    assert_eq!(env_count(Some("-3")), None);
    assert_eq!(env_count(Some("12kb")), None);
    assert_eq!(env_count(None), None);
    assert_eq!(prefetch_byte_budget(None), 64 * 1024 * 1024);
    assert_eq!(prefetch_byte_budget(Some("1024")), 1024);
    assert_eq!(drain_join_timeout_ms(Some("1500")), 1500);
    assert_eq!(drain_join_timeout_ms(Some("0")), 0);
    assert_eq!(drain_join_timeout_ms(Some("soon")), 30000);
}

fn header_value(headers: &[(String, Vec<u8>)], key: &str) -> Option<String> {
    headers.iter().find(|(k, _)| k == key).map(|(_, v)| String::from_utf8(v.clone()).unwrap())
}

#[test]
fn test_publisher_drops_source_metadata_headers() {
    let message = CanonicalMessage::new(b"payload".to_vec(), None)
        .with_metadata_kv("tenant", "acme")
        .with_metadata_kv("mqb.src.kafka_offset", "42");

    let headers = message_headers(&message);

    assert_eq!(header_value(&headers, "tenant"), Some("acme".to_string()));
    assert_eq!(header_value(&headers, "mqb.src.kafka_offset"), None);
}

#[test]
fn test_tombstone_keeps_headers() {
    let msg = record(vec![("op", Some(b"delete"))], None, None);

    let canonical = to_canonical(&msg);

    assert_eq!(canonical.metadata.get("op").map(String::as_str), Some("delete"));
    assert!(canonical.metadata.contains_key(KAFKA_TOMBSTONE_KEY));
}

#[test]
fn test_republished_tombstone_drops_its_payload_and_flag() {
    let msg = record(vec![], Some(b"orders-42"), None);
    let canonical = to_canonical(&msg);

    assert!(is_tombstone(&canonical));
    let headers = message_headers(&canonical);
    assert!(
        headers.iter().all(|(k, _)| k != KAFKA_TOMBSTONE_KEY),
        "the tombstone flag must not be shipped as a Kafka header"
    );
}

#[test]
fn test_ordinary_message_is_not_republished_as_a_tombstone() {
    let msg = record(vec![], None, Some(b"{\"a\":1}"));

    assert!(!is_tombstone(&to_canonical(&msg)));
}

#[test]
fn a_configured_prefetch_capacity_needs_no_multiplication() {
    assert_eq!(prefetch_capacity(Some(5), usize::MAX), 5);
}
