use vstd::prelude::*;

pub mod codec;
pub mod consumer;
pub mod content_types;
pub mod digits;
pub mod endpoints;
pub mod errors;
pub mod factory;
pub mod fast_path;
pub mod framing;
pub mod handler;
pub mod http;
pub mod ibm_mq;
pub mod http_server;
pub mod kafka;
pub mod kafka_batch;
pub mod kafka_receive;
pub mod kafka_settings;
pub mod limiter;
pub mod listener;
pub mod memory_queue;
pub mod message;
pub mod models;
pub mod mq_worker;
pub mod publisher;
pub mod negotiation;
pub mod naming;
pub mod registry;
pub mod response;
pub mod sent;
pub mod router;
pub mod sinks;
pub mod sources;
pub mod status;
pub mod text;
pub mod transport;
pub mod validation;

verus! {

} // verus!
