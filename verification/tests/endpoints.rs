use mq_bridge::models::{
    DeadLetterQueueMiddleware, DeduplicationMiddleware, Endpoint, EndpointType, Middleware,
    RetryMiddleware,
};

#[test]
fn test_endpoint_middleware_ordering_helpers() {
    let endpoint = Endpoint::new_memory("test", 10)
        .with_metrics()
        .with_dlq(DeadLetterQueueMiddleware::default())
        .with_retry(RetryMiddleware::default());

    assert_eq!(endpoint.middlewares.len(), 3);
    assert!(matches!(endpoint.middlewares[0], Middleware::Retry(_)));
    assert!(matches!(endpoint.middlewares[1], Middleware::Dlq(_)));
    assert!(matches!(endpoint.middlewares[2], Middleware::Metrics(_)));
}

#[test]
fn test_consumer_middleware_ordering() {
    let endpoint = Endpoint::new_memory("test", 10)
        .with_deduplication(DeduplicationMiddleware {
            store: None,
            sled_path: Some(String::new()),
            ttl_seconds: 10,
            key: None,
        })
        .with_consumer_metrics();

    assert_eq!(endpoint.middlewares.len(), 2);
    assert!(matches!(endpoint.middlewares[0], Middleware::Metrics(_)));
    assert!(matches!(endpoint.middlewares[1], Middleware::Deduplication(_)));
}

#[test]
fn metrics_are_added_once() {
    let endpoint = Endpoint::null().with_metrics().with_metrics().with_consumer_metrics();
    assert_eq!(endpoint.middlewares.len(), 1);
}

#[test]
fn a_retry_goes_inside_an_existing_dead_letter_queue() {
    let endpoint = Endpoint::null()
        .with_dlq(DeadLetterQueueMiddleware::default())
        .with_retry(RetryMiddleware { max_attempts: 5 });
    assert!(matches!(endpoint.middlewares[0], Middleware::Retry(RetryMiddleware { max_attempts: 5 })));
    assert!(endpoint.has_retry_middleware());
    assert!(endpoint.has_dlq_middleware());
}

#[test]
fn constructors_set_the_type() {
    assert!(matches!(Endpoint::new_response().endpoint_type, EndpointType::Response(_)));
    let buffer = Endpoint::new_stream_buffer("replies", Some("c-1"), 8);
    match buffer.endpoint_type {
        EndpointType::StreamBuffer(c) => {
            assert_eq!(c.topic, "replies");
            assert_eq!(c.correlation_id.as_deref(), Some("c-1"));
            assert_eq!(c.capacity, Some(8));
        }
        _ => panic!("not a stream buffer"),
    }
    let memory = Endpoint::new_memory("jobs", 3);
    match memory.endpoint_type {
        EndpointType::Memory(c) => {
            assert_eq!(c.topic, "jobs");
            assert_eq!(c.capacity, Some(3));
        }
        _ => panic!("not memory"),
    }
    let more = Endpoint::null()
        .add_middleware(Middleware::Filter("a".to_string()))
        .add_middlewares(vec![Middleware::Filter("b".to_string())]);
    assert_eq!(more.middlewares.len(), 2);
    assert!(!more.has_retry_middleware());
}

#[test]
fn a_copied_endpoint_keeps_its_nested_outputs_and_middlewares() {
    let mut inner = mq_bridge::models::Endpoint::new_memory("a", 1);
    inner.middlewares.push(mq_bridge::models::Middleware::Filter("x".to_string()));
    let fanout = mq_bridge::models::Endpoint::new(mq_bridge::models::EndpointType::Fanout(vec![
        inner,
        mq_bridge::models::Endpoint::new_memory("b", 2),
    ]));
    let copy = mq_bridge::models::copy_endpoint(&fanout);
    match &copy.endpoint_type {
        mq_bridge::models::EndpointType::Fanout(v) => {
            assert_eq!(v.len(), 2);
            assert!(matches!(&v[0].middlewares[0], mq_bridge::models::Middleware::Filter(f) if f == "x"));
            assert!(matches!(&v[1].endpoint_type, mq_bridge::models::EndpointType::Memory(c) if c.topic == "b"));
        }
        other => panic!("unexpected {other:?}"),
    }
}
