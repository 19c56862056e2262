use mq_bridge::message::CanonicalMessage;
use mq_bridge::publisher::PublisherError;
use mq_bridge::sent::{ordered_batch_report, sent_batch, Delivery, Sent, SentBatch};

fn message(id: u128) -> CanonicalMessage {
    CanonicalMessage::new(format!("body-{id}").into_bytes(), Some(id))
}

#[test]
fn a_batch_nobody_answered_is_acked() {
    let r = sent_batch(vec![message(1), message(2)], vec![(1, Ok(Sent::Ack)), (0, Ok(Sent::Ack))]);
    assert!(matches!(r, SentBatch::Ack));
    assert!(matches!(sent_batch(vec![], vec![]), SentBatch::Ack));
}

#[test]
fn replies_come_back_in_the_order_they_arrived() {
    let r = sent_batch(
        vec![message(1), message(2), message(3)],
        vec![(2, Ok(Sent::Response(message(30)))), (0, Ok(Sent::Ack)), (1, Ok(Sent::Response(message(20))))],
    );
    match r {
        SentBatch::Partial { responses: Some(responses), failed } => {
            let ids: Vec<u128> = responses.iter().map(|m| m.message_id).collect();
            assert_eq!(ids, vec![30, 20]);
            assert!(failed.is_empty());
        }
        other => panic!("unexpected report {:?}", other),
    }
}

#[test]
fn failed_messages_are_handed_back_with_their_errors() {
    let r = sent_batch(
        vec![message(1), message(2), message(3)],
        vec![
            (2, Err(PublisherError::Retryable("timeout".to_string()))),
            (1, Ok(Sent::Ack)),
            (0, Err(PublisherError::NonRetryable("400".to_string()))),
        ],
    );
    match r {
        SentBatch::Partial { responses: None, failed } => {
            assert_eq!(failed.len(), 2);
            assert_eq!(failed[0].0.message_id, 3);
            assert_eq!(failed[0].1, PublisherError::Retryable("timeout".to_string()));
            assert_eq!(failed[1].0.message_id, 1);
            assert_eq!(failed[1].0.payload, b"body-1".to_vec());
            assert_eq!(failed[1].1, PublisherError::NonRetryable("400".to_string()));
        }
        other => panic!("unexpected report {:?}", other),
    }
}

#[test]
fn an_enqueue_failure_aborts_the_rest_of_an_ordered_batch() {
    let r = ordered_batch_report(
        vec![message(1), message(2), message(3), message(4)],
        2,
        Some("queue full".to_string()),
        vec![Delivery::Failed("timed out".to_string()), Delivery::Delivered],
    );
    match r {
        SentBatch::Partial { responses: None, failed } => {
            let ids: Vec<u128> = failed.iter().map(|f| f.0.message_id).collect();
            assert_eq!(ids, vec![3, 4, 1]);
            assert_eq!(failed[0].1, PublisherError::Retryable("Kafka enqueue failed: queue full".to_string()));
            assert_eq!(failed[1].1, PublisherError::Retryable("Batch aborted due to previous error".to_string()));
            assert_eq!(failed[2].1, PublisherError::Retryable("Kafka delivery failed: timed out".to_string()));
        }
        other => panic!("unexpected report {:?}", other),
    }
}

#[test]
fn an_ordered_batch_all_delivered_is_acked() {
    let r = ordered_batch_report(vec![message(1), message(2)], 2, None, vec![Delivery::Delivered, Delivery::Delivered]);
    assert!(matches!(r, SentBatch::Ack));
    let r = ordered_batch_report(vec![message(1)], 1, None, vec![Delivery::Cancelled]);
    match r {
        SentBatch::Partial { failed, .. } => {
            assert_eq!(failed[0].1, PublisherError::Retryable("Kafka delivery future cancelled".to_string()))
        }
        other => panic!("unexpected report {:?}", other),
    }
}
