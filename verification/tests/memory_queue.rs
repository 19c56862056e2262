use mq_bridge::memory_queue::{
    consumer_backend, correlation_ids, ipc_memory_check, plan_commit, publisher_backend, reads_on,
    requeue_all, settle_commit, start_transport_receive, DispositionCountMismatch, MemoryBackend,
    PendingMessages, ReplyRoute, WaiterRegistry,
};
use mq_bridge::message::CanonicalMessage;
use mq_bridge::response::MessageDisposition;

fn msg(id: u128) -> CanonicalMessage {
    CanonicalMessage::new(vec![id as u8], Some(id))
}

fn ids(v: &[CanonicalMessage]) -> Vec<u128> {
    v.iter().map(|m| m.message_id).collect()
}

#[test]
fn leftovers_come_out_first_and_in_order() {
    let mut pending = PendingMessages::new();
    assert!(pending.is_empty());
    pending.refill((1..=5).map(msg).collect());
    let first = pending.take(2);
    assert_eq!(ids(&first), vec![1, 2]);
    let rest = pending.take(10);
    assert_eq!(ids(&rest), vec![3, 4, 5]);
    assert!(pending.is_empty());
}

#[test]
fn a_channel_batch_that_does_not_fit_is_split() {
    let mut pending = PendingMessages::new();
    let mut received = vec![msg(1)];
    assert!(pending.top_up(&mut received, vec![msg(2), msg(3)], 4));
    assert_eq!(ids(&received), vec![1, 2, 3]);
    assert!(!pending.top_up(&mut received, vec![msg(4), msg(5), msg(6)], 4));
    assert_eq!(ids(&received), vec![1, 2, 3, 4]);
    assert_eq!(ids(&pending.take(10)), vec![5, 6]);
    assert!(reads_on(1, 4));
    assert!(!reads_on(2, 4));
}

#[test]
fn a_commit_must_settle_every_message() {
    let err = plan_commit(vec![MessageDisposition::Ack], 2, &Vec::new(), &Vec::new()).unwrap_err();
    assert_eq!(err, DispositionCountMismatch { expected: 2, got: 1 });
    assert_eq!(
        err.message(),
        "Memory batch commit received mismatched disposition count: expected 2, got 1"
    );
}

#[test]
fn replies_get_the_correlation_id_and_nacks_go_back() {
    let batch = vec![
        msg(1).with_metadata_kv("correlation_id", "c1"),
        msg(2),
        msg(3).with_metadata_kv("correlation_id", "c3"),
    ];
    let cids = correlation_ids(&batch);
    assert_eq!(cids, vec![Some("c1".to_string()), None, Some("c3".to_string())]);
    let own = msg(9).with_metadata_kv("correlation_id", "mine");
    let plan = plan_commit(
        vec![
            MessageDisposition::Reply(msg(7)),
            MessageDisposition::Nack,
            MessageDisposition::Reply(own),
        ],
        3,
        &cids,
        &batch,
    )
    .unwrap();
    assert_eq!(ids(&plan.replies), vec![7, 9]);
    assert_eq!(plan.replies[0].metadata.get("correlation_id").map(|s| s.as_str()), Some("c1"));
    assert_eq!(plan.replies[1].metadata.get("correlation_id").map(|s| s.as_str()), Some("mine"));
    assert_eq!(ids(&plan.requeue), vec![2]);

    let without_copies = plan_commit(vec![MessageDisposition::Nack], 1, &cids, &Vec::new()).unwrap();
    assert!(without_copies.requeue.is_empty());
}

#[test]
fn redeliveries_come_before_buffered_messages() {
    let mut requeued = PendingMessages::new();
    requeued.requeue(vec![msg(1), msg(2)]);
    let mut buffered = PendingMessages::new();
    buffered.refill(vec![msg(3), msg(4), msg(5)]);
    let mut received = Vec::new();
    requeued.take_into(&mut received, 3);
    buffered.take_into(&mut received, 3);
    assert_eq!(ids(&received), vec![1, 2, 3]);
    assert_eq!(requeued.len(), 0);
    assert_eq!(buffered.len(), 2);

    let mut overflow = PendingMessages::new();
    let mut big = (10..15).map(msg).collect::<Vec<_>>();
    overflow.keep_overflow(&mut big, 2);
    assert_eq!(ids(&big), vec![10, 11]);
    assert_eq!(ids(&overflow.take(10)), vec![12, 13, 14]);

    let err = plan_commit(Vec::new(), 1, &Vec::new(), &Vec::new()).unwrap_err();
    assert_eq!(
        err.transport_message(),
        "Memory transport batch commit received mismatched disposition count: expected 1, got 0"
    );
}

#[test]
fn a_correlation_id_is_waited_on_once() {
    let mut waiters = WaiterRegistry::new();
    assert_eq!(waiters.register("c-1"), Ok(()));
    assert_eq!(waiters.register("c-1"), Err("Correlation ID c-1 already registered".to_string()));
    assert!(waiters.contains("c-1"));
    let reply = CanonicalMessage::new(b"pong".to_vec(), Some(1)).with_metadata_kv("correlation_id", "c-1");
    assert_eq!(waiters.route_reply(&reply), ReplyRoute::Waiter("c-1".to_string()));
    assert!(!waiters.contains("c-1"));
    assert_eq!(waiters.route_reply(&reply), ReplyRoute::Channel);
    let bare = CanonicalMessage::new(b"pong".to_vec(), Some(2));
    assert_eq!(waiters.route_reply(&bare), ReplyRoute::Channel);
}

#[test]
fn a_waiter_that_gave_up_is_removed() {
    let mut waiters = WaiterRegistry::new();
    assert_eq!(waiters.register("a"), Ok(()));
    assert_eq!(waiters.register("b"), Ok(()));
    assert!(waiters.remove("a"));
    assert!(!waiters.remove("a"));
    assert!(waiters.contains("b"));
    assert_eq!(waiters.register("a"), Ok(()));
}

#[test]
fn test_memory_batch_commit_rejects_mismatched_dispositions() {
    let kept = vec![msg(1), msg(2)];
    let cids = correlation_ids(&kept);
    let outcome = settle_commit(vec![MessageDisposition::Ack], 2, &cids, &kept);
    let err = outcome.result.unwrap_err();
    assert!(err.message().contains("Memory batch commit received mismatched disposition count"));
    assert_eq!(ids(&outcome.requeue), vec![1, 2]);
    assert!(outcome.replies.is_empty());

    let outcome = settle_commit(vec![MessageDisposition::Ack, MessageDisposition::Ack], 2, &cids, &kept);
    assert!(outcome.result.is_ok());
    assert!(outcome.requeue.is_empty());
}

#[test]
fn nacked_messages_alone_go_back_and_a_dropped_batch_goes_back_whole() {
    let kept = vec![msg(1), msg(2), msg(3)];
    let cids = correlation_ids(&kept);
    let outcome = settle_commit(
        vec![MessageDisposition::Nack, MessageDisposition::Ack, MessageDisposition::Nack],
        3,
        &cids,
        &kept,
    );
    assert_eq!(ids(&outcome.requeue), vec![1, 3]);
    assert_eq!(ids(&requeue_all(&kept)), vec![1, 2, 3]);
}

#[test]
fn test_unix_ipc_nack_redelivers_locally() {
    let mut requeued = PendingMessages::new();
    requeued.requeue(vec![msg(7), msg(8), msg(9)]);
    let mut leftover = PendingMessages::new();
    leftover.requeue(vec![msg(20)]);
    let (batch, wait) = start_transport_receive(&mut requeued, &mut leftover, 2);
    assert_eq!(ids(&batch), vec![7, 8]);
    assert!(!wait);
    let (batch, wait) = start_transport_receive(&mut requeued, &mut leftover, 5);
    assert_eq!(ids(&batch), vec![9, 20]);
    assert!(!wait);
    let (batch, wait) = start_transport_receive(&mut requeued, &mut leftover, 5);
    assert!(batch.is_empty());
    assert!(wait);
}

#[test]
fn a_topic_is_a_queue_or_a_log_never_both() {
    assert_eq!(
        publisher_backend("t", true, true, false),
        Err("Topic 't' is already active as a Queue (MemoryChannel), but Subscriber mode (EventStore) was requested.".to_string())
    );
    assert_eq!(publisher_backend("t", false, false, true), Ok(MemoryBackend::Log));
    assert_eq!(publisher_backend("t", false, false, false), Ok(MemoryBackend::Queue));
    assert_eq!(consumer_backend("t", true, false, false), Ok(MemoryBackend::Log));
    assert_eq!(
        consumer_backend("t", false, false, true),
        Err("Topic 't' is already active as a Subscriber Log (EventStore), but Queue mode (MemoryChannel) was requested.".to_string())
    );
    assert_eq!(ipc_memory_check(true, false, true), Err("IPC memory publishers do not yet support request_reply".to_string()));
    assert_eq!(ipc_memory_check(false, true, false), Err("IPC memory consumers do not support subscribe_mode".to_string()));
    assert_eq!(ipc_memory_check(false, false, true), Ok(()));
}
