use mq_bridge::kafka_batch::{assemble_batch, BatchParts, PrefetchError, Prefetched};
use mq_bridge::message::CanonicalMessage;

fn prefetched(topic: &str, partition: i32, offset: i64) -> Prefetched {
    Prefetched {
        message: CanonicalMessage::new(b"payload".to_vec(), None),
        topic: topic.to_string(),
        partition,
        offset,
    }
}

type PrefetchChannel = (
    async_channel::Sender<Result<Prefetched, PrefetchError>>,
    async_channel::Receiver<Result<Prefetched, PrefetchError>>,
);

fn prefetch_channel(capacity: usize) -> PrefetchChannel {
    async_channel::bounded(capacity)
}

#[test]
fn test_assemble_batch_takes_what_is_ready() {
    let (tx, rx) = prefetch_channel(8);
    for offset in 1..4 {
        tx.try_send(Ok(prefetched("t", 0, offset))).unwrap();
    }
    let parts = assemble_batch(Ok(prefetched("t", 0, 0)), &rx, 16);
    assert_eq!(parts.messages.len(), 4);
    assert_eq!(parts.offsets, vec![("t".to_string(), 0, 3)]);
    assert!(parts.terminal.is_none());
}

#[test]
fn test_assemble_batch_stops_at_max_messages() {
    let (tx, rx) = prefetch_channel(8);
    for offset in 1..5 {
        tx.try_send(Ok(prefetched("t", 0, offset))).unwrap();
    }
    let parts = assemble_batch(Ok(prefetched("t", 0, 0)), &rx, 3);
    assert_eq!(parts.messages.len(), 3);
    assert_eq!(rx.len(), 2, "the remainder must survive for the next batch");
}

#[test]
fn test_assemble_batch_does_not_wait_for_more() {
    let (_tx, rx) = prefetch_channel(8);
    let parts = assemble_batch(Ok(prefetched("t", 0, 0)), &rx, 1024);
    assert_eq!(parts.messages.len(), 1);
}

#[test]
fn test_assemble_batch_collapses_offsets_per_partition() {
    let (tx, rx) = prefetch_channel(8);
    tx.try_send(Ok(prefetched("t", 0, 6))).unwrap();
    tx.try_send(Ok(prefetched("t", 1, 9))).unwrap();
    let parts = assemble_batch(Ok(prefetched("t", 0, 5)), &rx, 16);
    assert_eq!(parts.offsets, vec![("t".to_string(), 0, 6), ("t".to_string(), 1, 9)]);
}

#[test]
fn test_assemble_batch_extracts_reply_info() {
    let (tx, rx) = prefetch_channel(8);
    let mut with_reply = prefetched("t", 0, 1);
    with_reply.message = with_reply
        .message
        .with_metadata_kv("reply_to", "inbox.1")
        .with_metadata_kv("correlation_id", "abc");
    tx.try_send(Ok(with_reply)).unwrap();
    let parts = assemble_batch(Ok(prefetched("t", 0, 0)), &rx, 16);
    assert_eq!(parts.reply_infos[0], (None, None));
    assert_eq!(
        parts.reply_infos[1],
        (Some("inbox.1".to_string()), Some("abc".to_string()))
    );
}

#[test]
fn test_assemble_batch_delivers_records_before_terminal_error() {
    let (tx, rx) = prefetch_channel(8);
    tx.try_send(Ok(prefetched("t", 0, 1))).unwrap();
    tx.try_send(Err(PrefetchError::EndOfStream)).unwrap();
    let parts = assemble_batch(Ok(prefetched("t", 0, 0)), &rx, 16);
    assert_eq!(parts.messages.len(), 2);
    assert!(matches!(parts.terminal, Some(PrefetchError::EndOfStream)));
}

#[test]
fn an_error_ends_the_batch_and_what_follows_stays_ready() {
    let (tx, rx) = prefetch_channel(8);
    tx.try_send(Err(PrefetchError::Connection("down".to_string()))).unwrap();
    tx.try_send(Ok(prefetched("t", 0, 2))).unwrap();
    let parts = assemble_batch(Ok(prefetched("t", 0, 0)), &rx, 16);
    assert_eq!(parts.messages.len(), 1);
    assert_eq!(parts.terminal, Some(PrefetchError::Connection("down".to_string())));
    assert_eq!(rx.len(), 1);
    let failed_first = assemble_batch(Err(PrefetchError::EndOfStream), &rx, 16);
    assert!(failed_first.messages.is_empty());
    assert_eq!(rx.len(), 1);
    let mut step = BatchParts::new();
    assert!(step.wants_more(1));
    step.take(Ok(prefetched("u", 3, 7)));
    assert!(!step.wants_more(1));
    assert_eq!(step.offsets, vec![("u".to_string(), 3, 7)]);
}
