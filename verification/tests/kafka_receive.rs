use mq_bridge::kafka_batch::{BatchParts, PrefetchError, Prefetched};
use mq_bridge::kafka_receive::{
    idle_step, kafka_replies, nack_latch_check, record_partition_eof, settle_single, terminal_to_consumer_error,
    ByteBudget, ConsumerError, note_delivered, offset_held, raise_offset, settle_decision, settle_parts,
    BatchVerdict, DrainReadiness, DrainState, IdleStep, SettleDecision, TargetLookup, WATERMARK_RETRY_BACKOFF_MS,
};
use mq_bridge::message::CanonicalMessage;
use mq_bridge::response::MessageDisposition;

fn record(offset: i64) -> Result<Prefetched, PrefetchError> {
    Ok(Prefetched {
        message: CanonicalMessage::new(format!("m{offset}").into_bytes(), Some(offset as u128)),
        topic: "orders".to_string(),
        partition: 0,
        offset,
    })
}

#[test]
fn an_error_after_records_is_held_for_the_next_call() {
    let mut parts = BatchParts::new();
    parts.take(record(1));
    parts.take(Err(PrefetchError::Connection("broker gone".to_string())));
    let mut pending = None;
    match settle_parts(parts, &mut pending) {
        BatchVerdict::Deliver(p) => {
            assert_eq!(p.messages.len(), 1);
            assert!(p.terminal.is_none());
        }
        other => panic!("unexpected verdict {:?}", other),
    }
    assert_eq!(pending, Some(PrefetchError::Connection("broker gone".to_string())));
}

#[test]
fn an_error_before_any_record_fails_the_call_and_nothing_is_empty() {
    let mut parts = BatchParts::new();
    parts.take(Err(PrefetchError::EndOfStream));
    let mut pending = None;
    match settle_parts(parts, &mut pending) {
        BatchVerdict::Fail(e) => assert_eq!(e, PrefetchError::EndOfStream),
        other => panic!("unexpected verdict {:?}", other),
    }
    assert_eq!(pending, None);
    assert!(matches!(settle_parts(BatchParts::new(), &mut pending), BatchVerdict::Empty));
}

#[test]
fn delivered_offsets_only_move_forward() {
    let mut delivered = Vec::new();
    raise_offset(&mut delivered, "orders", 0, 10);
    raise_offset(&mut delivered, "orders", 0, 4);
    raise_offset(&mut delivered, "orders", 1, 7);
    assert_eq!(offset_held(&delivered, "orders", 0), Some(10));
    assert_eq!(offset_held(&delivered, "orders", 1), Some(7));
    assert_eq!(offset_held(&delivered, "audit", 0), None);
    let batch = vec![("orders".to_string(), 0, 12), ("audit".to_string(), 3, 1)];
    note_delivered(&mut delivered, &batch);
    assert_eq!(offset_held(&delivered, "orders", 0), Some(12));
    assert_eq!(offset_held(&delivered, "audit", 3), Some(1));
    assert_eq!(delivered.len(), 3);
}

#[test]
fn a_nack_trips_the_latch_and_stops_commits() {
    let ok = vec![MessageDisposition::Ack, MessageDisposition::Ack];
    assert_eq!(settle_decision(false, &ok, 2), SettleDecision { trip_latch: false, commit: true });
    assert_eq!(settle_decision(true, &ok, 2), SettleDecision { trip_latch: false, commit: false });
    let nack = vec![MessageDisposition::Ack, MessageDisposition::Nack];
    assert_eq!(settle_decision(false, &nack, 2), SettleDecision { trip_latch: true, commit: false });
    assert_eq!(settle_decision(false, &vec![], 0), SettleDecision { trip_latch: false, commit: false });
}

#[test]
fn replies_go_to_reply_to_with_the_correlation_id() {
    let infos = vec![
        (Some("replies".to_string()), Some("c-1".to_string())),
        (None, Some("c-2".to_string())),
        (Some("replies".to_string()), None),
    ];
    let answer = CanonicalMessage::new(b"pong".to_vec(), Some(9));
    let dispositions = vec![
        MessageDisposition::Reply(answer.clone()),
        MessageDisposition::Reply(answer.clone()),
        MessageDisposition::Ack,
    ];
    let replies = kafka_replies(&infos, &dispositions);
    assert_eq!(replies.len(), 1);
    assert_eq!(replies[0].topic, "replies");
    assert_eq!(replies[0].payload, b"pong".to_vec());
    assert_eq!(replies[0].correlation_id.as_deref(), Some("c-1"));
    // A shorter list of dispositions only pairs what it covers.
    let replies = kafka_replies(&infos, &vec![MessageDisposition::Ack]);
    assert!(replies.is_empty());
}

#[test]
fn a_failed_watermark_lookup_backs_off() {
    let mut state = DrainState::new();
    assert_eq!(state.target_lookup("orders", 0, 1000), TargetLookup::Fetch);
    assert_eq!(state.watermark_fetched("orders", 0, None, 1000), None);
    assert_eq!(state.target_lookup("orders", 0, 1000 + WATERMARK_RETRY_BACKOFF_MS - 1), TargetLookup::BackingOff);
    assert_eq!(state.target_lookup("orders", 0, 1000 + WATERMARK_RETRY_BACKOFF_MS), TargetLookup::Fetch);
    assert_eq!(state.watermark_fetched("orders", 0, Some(42), 7000), Some(42));
    assert_eq!(state.watermark_retry_at_ms, None);
    assert_eq!(state.target_lookup("orders", 0, 0), TargetLookup::Known(42));
    assert_eq!(WATERMARK_RETRY_BACKOFF_MS, 5000);
}

#[test]
fn a_partition_is_drained_by_delivery_or_end_of_partition() {
    let mut state = DrainState::new();
    let eof = vec![("orders".to_string(), 1, 30)];
    assert!(state.partition_drained("orders", 0, 0, &eof));
    assert!(!state.partition_drained("orders", 0, 10, &eof));
    raise_offset(&mut state.delivered, "orders", 0, 10);
    assert!(state.partition_drained("orders", 0, 10, &eof));
    assert!(state.partition_drained("orders", 1, 30, &eof));
    assert!(!state.partition_drained("orders", 1, 31, &eof));
}

#[test]
fn an_idle_drain_gives_up_only_at_the_deadline() {
    assert_eq!(idle_step(DrainReadiness::Drained, 0, 100), IdleStep::Drained);
    assert_eq!(idle_step(DrainReadiness::Starting, 99, 100), IdleStep::Wait);
    assert_eq!(idle_step(DrainReadiness::NotStarted, 100, 100), IdleStep::GiveUp);
}

#[test]
fn an_end_of_partition_only_raises_its_own_partition() {
    let mut eof = vec![("orders".to_string(), 0, 5)];
    let positions = vec![
        ("orders".to_string(), 0, Some(9)),
        ("orders".to_string(), 1, Some(3)),
        ("audit".to_string(), 0, None),
    ];
    record_partition_eof(&mut eof, &positions, 0);
    assert_eq!(offset_held(&eof, "orders", 0), Some(9));
    assert_eq!(offset_held(&eof, "orders", 1), None);
    assert_eq!(offset_held(&eof, "audit", 0), None);
    record_partition_eof(&mut eof, &vec![("orders".to_string(), 0, Some(2))], 0);
    assert_eq!(offset_held(&eof, "orders", 0), Some(9));
}

#[test]
fn the_byte_budget_always_admits_one_record() {
    let mut budget = ByteBudget::new(100);
    assert!(budget.admits());
    budget.charge(1000);
    assert!(!budget.admits());
    budget.release(1000);
    assert_eq!(budget.used, 0);
    assert!(budget.admits());
}

#[test]
fn a_single_message_replies_and_commits_unless_refused() {
    let answer = CanonicalMessage::new(b"pong".to_vec(), Some(3));
    let s = settle_single(false, &MessageDisposition::Reply(answer), Some("replies"), Some("c-9"));
    assert!(s.commit && !s.trip_latch);
    let reply = s.reply.unwrap();
    assert_eq!(reply.topic, "replies");
    assert_eq!(reply.payload, b"pong".to_vec());
    assert_eq!(reply.correlation_id.as_deref(), Some("c-9"));
    let s = settle_single(false, &MessageDisposition::Nack, Some("replies"), None);
    assert!(s.trip_latch && !s.commit && s.reply.is_none());
    let s = settle_single(true, &MessageDisposition::Ack, Some("replies"), None);
    assert!(!s.trip_latch && !s.commit && s.reply.is_none());
    let s = settle_single(false, &MessageDisposition::Ack, Some("replies"), None);
    assert!(s.commit && s.reply.is_none());
}

#[test]
fn a_tripped_latch_fails_the_next_read() {
    assert_eq!(nack_latch_check(false), Ok(()));
    assert_eq!(
        nack_latch_check(true),
        Err(ConsumerError::Connection(
            "Kafka batch was nacked; reconnecting to replay from the last committed offset".to_string()
        ))
    );
    assert_eq!(terminal_to_consumer_error(PrefetchError::EndOfStream), ConsumerError::EndOfStream);
    assert_eq!(
        terminal_to_consumer_error(PrefetchError::Connection("down".to_string())),
        ConsumerError::Connection("down".to_string())
    );
}
