use mq_bridge::message::CanonicalMessage;
use mq_bridge::models::IbmMqConfig;
use mq_bridge::mq_worker::{
    after_connect_failure, consumer_status, job_queue_depth, mq_target, object_to_open, publish_outcome,
    publisher_status, reconnecting_batch_error, reconnecting_status, settle_job, BatchEnd, ConnectStep,
    ConsumerWorker, GetResult, InquiryFailure, MqBatch, MqObject, MqRole, SettleJob, WorkerStep,
    IBMMQ_QUEUE_KEY, RECONNECT_DELAY_SECS,
};
use mq_bridge::response::MessageDisposition;
use mq_bridge::status::{status_after_exchange, EndpointStatus, StatusExchange};

fn config(queue: Option<&str>, topic: Option<&str>) -> IbmMqConfig {
    IbmMqConfig {
        queue: queue.map(|s| s.to_string()),
        topic: topic.map(|s| s.to_string()),
        wait_timeout_ms: 1000,
        max_message_size: 4 * 1024 * 1024,
        internal_buffer_size: None,
        disable_status_inq: false,
    }
}

#[test]
fn the_job_queue_holds_a_hundred_jobs_unless_configured() {
    assert_eq!(job_queue_depth(None), 100);
    assert_eq!(job_queue_depth(Some(0)), 1);
    assert_eq!(job_queue_depth(Some(7)), 7);
}

#[test]
fn the_target_is_the_queue_then_the_topic() {
    assert_eq!(mq_target(&config(Some("DEV.QUEUE.1"), Some("t"))), "DEV.QUEUE.1");
    assert_eq!(mq_target(&config(None, Some("dev/topic"))), "dev/topic");
    assert_eq!(mq_target(&config(None, None)), "");
}

#[test]
fn a_topic_is_opened_before_a_queue_and_a_queue_is_required() {
    assert_eq!(
        object_to_open(&config(Some("Q"), Some("T")), MqRole::Consumer),
        Ok(MqObject::Topic("T".to_string()))
    );
    assert_eq!(
        object_to_open(&config(Some("Q"), None), MqRole::Publisher),
        Ok(MqObject::Queue { name: "Q".to_string(), inquire: true })
    );
    let mut quiet = config(Some("Q"), None);
    quiet.disable_status_inq = true;
    assert_eq!(
        object_to_open(&quiet, MqRole::Consumer),
        Ok(MqObject::Queue { name: "Q".to_string(), inquire: false })
    );
    assert_eq!(
        object_to_open(&config(None, None), MqRole::Publisher),
        Err("Queue name is required for IBM MQ publisher".to_string())
    );
    assert_eq!(
        object_to_open(&config(None, None), MqRole::Consumer),
        Err("Queue name is required for IBM MQ consumer".to_string())
    );
}

#[test]
fn a_missing_library_fails_the_start_for_good() {
    assert_eq!(after_connect_failure(true, true), ConnectStep::FailStart { retryable: false });
    assert_eq!(after_connect_failure(true, false), ConnectStep::FailStart { retryable: true });
    assert_eq!(after_connect_failure(false, true), ConnectStep::RetryAfter(RECONNECT_DELAY_SECS));
    assert_eq!(RECONNECT_DELAY_SECS, 1);
}

#[test]
fn a_batch_reads_until_the_queue_is_empty() {
    let mut batch = MqBatch::new();
    assert!(batch.wants_more(10));
    batch.take(GetResult::Data(b"one".to_vec()), Some("Q1"), true);
    batch.take(GetResult::Nothing, Some("Q1"), true);
    batch.take(GetResult::Data(b"two".to_vec()), Some("Q1"), true);
    assert_eq!(batch.attempts, 3);
    batch.take(GetResult::NoMessage, Some("Q1"), true);
    assert!(!batch.wants_more(10));
    match batch.finish() {
        BatchEnd::Deliver(messages) => {
            assert_eq!(messages.len(), 2);
            assert_eq!(messages[0].payload, b"one".to_vec());
            assert_eq!(messages[1].payload, b"two".to_vec());
            assert_eq!(messages[0].metadata.get(IBMMQ_QUEUE_KEY).map(|s| s.as_str()), Some("Q1"));
        }
        other => panic!("unexpected end {:?}", other),
    }
}

#[test]
fn a_batch_stops_after_max_gets_and_leaves_metadata_off_by_default() {
    let mut batch = MqBatch::new();
    while batch.wants_more(2) {
        batch.take(GetResult::Data(b"m".to_vec()), Some("Q1"), false);
    }
    match batch.finish() {
        BatchEnd::Deliver(messages) => {
            assert_eq!(messages.len(), 2);
            assert!(messages[0].metadata.is_empty());
        }
        other => panic!("unexpected end {:?}", other),
    }
    let mut empty = MqBatch::new();
    empty.take(GetResult::NoMessage, None, true);
    assert!(matches!(empty.finish(), BatchEnd::Empty));
}

#[test]
fn a_failed_get_fails_the_whole_batch() {
    let mut batch = MqBatch::new();
    batch.take(GetResult::Data(b"one".to_vec()), None, true);
    batch.take(GetResult::Failed("MQRC_CONNECTION_BROKEN".to_string()), None, true);
    assert!(!batch.wants_more(10));
    let end = batch.finish();
    match &end {
        BatchEnd::Failed(e) => assert_eq!(e, "MQ get failed: MQRC_CONNECTION_BROKEN"),
        other => panic!("unexpected end {:?}", other),
    }
    let mut worker = ConsumerWorker::new();
    worker.begin_attempt();
    worker.batch_ended(&end);
    assert_eq!(worker.after_job(), WorkerStep::BackoutAndReconnect);
}

#[test]
fn any_nack_backs_the_batch_out() {
    let ack = vec![MessageDisposition::Ack, MessageDisposition::Reply(CanonicalMessage::new(vec![], Some(1)))];
    assert_eq!(settle_job(&ack, 3), SettleJob::Commit(3));
    let nack = vec![MessageDisposition::Ack, MessageDisposition::Nack];
    assert_eq!(settle_job(&nack, 3), SettleJob::Backout(3));
    assert_eq!(settle_job(&vec![], 4), SettleJob::Commit(4));
}

#[test]
fn settlements_from_an_earlier_connection_are_stale() {
    let mut worker = ConsumerWorker::new();
    worker.begin_attempt();
    assert_eq!(worker.epoch, 1);
    assert_eq!(worker.stale_settlement(SettleJob::Commit(1)), None);
    worker.begin_attempt();
    assert_eq!(
        worker.stale_settlement(SettleJob::Commit(1)),
        Some("Commit attempted for a stale connection after restart".to_string())
    );
    assert_eq!(
        worker.stale_settlement(SettleJob::Backout(1)),
        Some("Backout attempted for a stale connection after restart".to_string())
    );
}

#[test]
fn a_failed_settlement_sends_the_worker_to_reconnect() {
    let mut worker = ConsumerWorker::new();
    worker.begin_attempt();
    assert_eq!(worker.settled(SettleJob::Commit(1), Ok(())), Ok(()));
    assert_eq!(worker.after_job(), WorkerStep::Continue);
    assert_eq!(
        worker.settled(SettleJob::Backout(1), Err("MQRC_BACKED_OUT".to_string())),
        Err("Backout failed: MQRC_BACKED_OUT".to_string())
    );
    assert_eq!(worker.after_job(), WorkerStep::BackoutAndReconnect);
    worker.begin_attempt();
    assert!(!worker.connection_error);
    assert_eq!(worker.epoch, 2);
}

#[test]
fn consumer_status_reports_depth_or_the_inquiry_error() {
    let c = config(Some("Q"), None);
    let s = consumer_status(&c, Ok((Some(5), Some(5000))));
    assert!(s.healthy);
    assert_eq!((s.pending, s.capacity), (Some(5), Some(5000)));
    assert_eq!(s.target, "Q");
    let s = consumer_status(&c, Err((InquiryFailure::NotOpenForInquire, "2038".to_string())));
    assert!(s.healthy);
    assert_eq!(s.error, None);
    let s = consumer_status(&c, Err((InquiryFailure::Other, "broken".to_string())));
    assert!(!s.healthy);
    assert_eq!(s.error.as_deref(), Some("Failed to inquire queue status: broken"));
}

#[test]
fn publisher_status_reports_its_job_queue_capacity() {
    let mut c = config(None, Some("T"));
    c.internal_buffer_size = Some(8);
    let s = publisher_status(&c, Ok(()));
    assert!(s.healthy);
    assert_eq!(s.capacity, Some(8));
    assert_eq!(s.pending, None);
    let s = publisher_status(&c, Err((InquiryFailure::NotAuthorized, "2035".to_string())));
    assert!(s.healthy);
    let s = publisher_status(&c, Err((InquiryFailure::Other, "gone".to_string())));
    assert_eq!(s.error.as_deref(), Some("Failed to inquire object status: gone"));
    let r = reconnecting_status(&c);
    assert!(!r.healthy);
    assert_eq!(r.error.as_deref(), Some("Publisher reconnecting"));
    assert_eq!(reconnecting_batch_error(), "MQ publisher reconnecting, batch rejected");
}

#[test]
fn a_failed_put_or_commit_fails_and_backs_out_the_batch() {
    let ok = publish_outcome(None, Ok(()));
    assert!(ok.result.is_ok() && !ok.backout);
    let put = publish_outcome(Some("full".to_string()), Ok(()));
    assert_eq!(put.result, Err("MQ put failed: full".to_string()));
    assert!(put.backout);
    let commit = publish_outcome(None, Err("lost".to_string()));
    assert_eq!(commit.result, Err("MQ commit failed: lost".to_string()));
    assert!(commit.backout);
}

#[test]
fn a_status_request_that_gets_no_answer_is_unhealthy() {
    let s = status_after_exchange(StatusExchange::SendFailed, "Consumer", "Q");
    assert!(!s.healthy);
    assert_eq!(s.target, "Q");
    assert_eq!(s.error.as_deref(), Some("Consumer thread disconnected"));
    let s = status_after_exchange(StatusExchange::ReplyDropped, "Publisher", "Q");
    assert_eq!(s.error.as_deref(), Some("Publisher thread dropped status request"));
    let s = status_after_exchange(StatusExchange::SendTimedOut, "Publisher", "Q");
    assert_eq!(s.error.as_deref(), Some("Status send timed out"));
    let s = status_after_exchange(StatusExchange::ReplyTimedOut, "Publisher", "Q");
    assert_eq!(s.error.as_deref(), Some("Status check timed out"));
    let answered = EndpointStatus { healthy: true, target: "Q".to_string(), pending: Some(1), capacity: None, error: None };
    let s = status_after_exchange(StatusExchange::Answered(answered), "Consumer", "other");
    assert!(s.healthy);
    assert_eq!(s.pending, Some(1));
    assert_eq!(s.target, "Q");
}
