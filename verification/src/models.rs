//! The route configuration model: endpoints, their types and configs, and middlewares.
//!
//! Each config holds the options that the validation and naming rules of
//! [`crate::endpoints`] read.
use vstd::prelude::*;
use vstd::string::*;

verus! {

/// How a sink names what it writes.
#[derive(Debug, Clone, Copy, PartialEq, Eq, Structural)]
pub enum NameBy {
    /// Decided from what the input can stamp.
    Auto,
    /// After the source range a write covers (replay-safe).
    SourcePosition,
    /// After the time of the write.
    WriteTime,
}

/// What a `transform` middleware does with a message it cannot transform.
#[derive(Debug, Clone, Copy, PartialEq, Eq, Structural)]
pub enum TransformErrorPolicy {
    Reject,
    PassThrough,
}

/// How a MongoDB input reads its collection.
#[derive(Debug, Clone, Copy, PartialEq, Eq, Structural)]
pub enum MongoConsume {
    Consumer,
    Snapshot,
    CaptureNew,
    CaptureAll,
}

/// A body codec.
#[derive(Debug, Clone, Copy, PartialEq, Eq, Structural)]
pub enum Compression {
    /// No codec: the body is sent as is.
    Identity,
    Gzip,
    Lz4,
    Zstd,
}

/// Retries a failed send.
#[derive(Debug)]
pub struct RetryMiddleware {
    pub max_attempts: u32,
}

impl Default for RetryMiddleware {
    fn default() -> (r: Self)
        ensures
            r.max_attempts == 3,
    {
        RetryMiddleware { max_attempts: 3 }
    }
}

/// Sends what finally failed to another endpoint.
#[derive(Debug)]
pub struct DeadLetterQueueMiddleware {
    pub topic: Option<String>,
}

impl Default for DeadLetterQueueMiddleware {
    fn default() -> (r: Self)
        ensures
            r.topic is None,
    {
        DeadLetterQueueMiddleware { topic: None }
    }
}

/// Records throughput and latency.
#[derive(Debug, Clone, Copy, PartialEq, Eq, Structural)]
pub struct MetricsMiddleware {}

/// Drops messages whose key was seen within the time to live.
#[derive(Debug)]
pub struct DeduplicationMiddleware {
    pub store: Option<String>,
    pub sled_path: Option<String>,
    pub ttl_seconds: u64,
    pub key: Option<String>,
}

/// Joins the members of a group into one message.
#[derive(Debug)]
pub struct WeakJoinMiddleware {
    pub group_by: String,
    pub expected_count: usize,
    pub timeout_ms: u64,
    pub branch_by: Option<String>,
    pub required: Vec<String>,
}

/// Rewrites or validates messages.
#[derive(Debug)]
pub struct TransformMiddleware {
    pub mapping: Vec<(String, String)>,
    pub expression: Option<String>,
    /// A JSON schema, as JSON text.
    pub schema: Option<String>,
    pub schema_file: Option<String>,
    pub on_error: TransformErrorPolicy,
}

impl Default for TransformMiddleware {
    fn default() -> (r: Self)
        ensures
            r.mapping@.len() == 0,
            r.expression is None,
            r.schema is None,
            r.schema_file is None,
            r.on_error == TransformErrorPolicy::Reject,
    {
        TransformMiddleware {
            mapping: Vec::new(),
            expression: None,
            schema: None,
            schema_file: None,
            on_error: TransformErrorPolicy::Reject,
        }
    }
}

/// Collects messages into batches.
#[derive(Debug, Clone, Copy, PartialEq, Eq, Structural)]
pub struct BufferMiddleware {
    pub max_messages: usize,
    pub max_delay_ms: u64,
}

/// Delays every message.
#[derive(Debug, Clone, Copy, PartialEq, Eq, Structural)]
pub struct DelayMiddleware {
    pub delay_ms: u64,
}

/// Caps the message rate.
#[derive(Debug, Clone, Copy, PartialEq, Eq, Structural)]
pub struct LimiterMiddleware {
    pub messages_per_second: u64,
}

/// A processing stage wrapped around an endpoint.
#[derive(Debug)]
pub enum Middleware {
    Retry(RetryMiddleware),
    Dlq(Box<DeadLetterQueueMiddleware>),
    Metrics(MetricsMiddleware),
    Deduplication(DeduplicationMiddleware),
    /// A filter expression; messages it rejects are dropped.
    Filter(String),
    WeakJoin(WeakJoinMiddleware),
    Transform(TransformMiddleware),
    Buffer(BufferMiddleware),
    Delay(DelayMiddleware),
    Limiter(LimiterMiddleware),
}

/// A handler attached to an output endpoint, named by its registration.
#[derive(Debug)]
pub struct HandlerRef {
    pub name: String,
}

/// Routes each message by a metadata key or by conditions.
#[derive(Debug)]
pub struct SwitchConfig {
    pub metadata_key: String,
    /// Output per metadata value, in the order they are tried.
    pub cases: Vec<(String, Endpoint)>,
    pub when: Vec<SwitchCase>,
    pub default: Option<Box<Endpoint>>,
}

/// One conditional arm of a switch.
#[derive(Debug)]
pub struct SwitchCase {
    pub condition: String,
    pub to: Endpoint,
}

/// Sends each message to `to`, then its reply to `forward_to`.
#[derive(Debug)]
pub struct RequestForwardConfig {
    pub to: Box<Endpoint>,
    pub forward_to: Box<Endpoint>,
}

/// Answers the request that carried a message.
#[derive(Debug)]
pub struct ResponseConfig {}

/// A fixed reply.
#[derive(Debug)]
pub struct StaticConfig {
    pub body: String,
    pub raw: bool,
}

/// A per-correlation buffer of streamed replies.
#[derive(Debug)]
pub struct StreamBufferConfig {
    pub topic: String,
    pub correlation_id: Option<String>,
    pub capacity: Option<usize>,
    pub idle_ttl_secs: Option<u64>,
}

/// An in-process (or IPC) queue.
#[derive(Debug)]
pub struct MemoryConfig {
    pub topic: String,
    pub capacity: Option<usize>,
    /// A transport URL (`memory://`, `unix://`, `ipc://`); the topic is used without one.
    pub url: Option<String>,
    pub request_reply: bool,
    pub request_timeout_ms: Option<u64>,
    pub subscribe_mode: bool,
    pub enable_nack: bool,
}

impl Default for MemoryConfig {
    fn default() -> (r: Self)
        ensures
            r.topic@ == Seq::<char>::empty(),
            r.capacity is None,
            r.url is None,
            !r.request_reply,
            r.request_timeout_ms is None,
            !r.subscribe_mode,
            !r.enable_nack,
    {
        MemoryConfig {
            topic: String::new(),
            capacity: None,
            url: None,
            request_reply: false,
            request_timeout_ms: None,
            subscribe_mode: false,
            enable_nack: false,
        }
    }
}

impl MemoryConfig {
    /// A queue on `topic` holding up to `capacity` batches.
    pub fn new(topic: &str, capacity: Option<usize>) -> (r: Self)
        ensures
            r.topic@ == topic@,
            r.capacity == capacity,
            r.url is None,
            !r.request_reply,
            r.request_timeout_ms is None,
            !r.subscribe_mode,
            !r.enable_nack,
    {
        MemoryConfig {
            topic: String::from_str(topic),
            capacity,
            url: None,
            request_reply: false,
            request_timeout_ms: None,
            subscribe_mode: false,
            enable_nack: false,
        }
    }

    /// The same config, subscribing (every consumer sees every message) or not.
    pub fn with_subscribe(self, subscribe: bool) -> (r: Self)
        ensures
            r == (MemoryConfig { subscribe_mode: subscribe, ..self }),
    {
        MemoryConfig { subscribe_mode: subscribe, ..self }
    }
}

/// A file read or written line by line.
#[derive(Debug)]
pub struct FileConfig {
    pub path: String,
    pub name_by: NameBy,
    /// Deprecated spelling of `name_by: source_position` (`true`) or `write_time` (`false`).
    pub idempotency: Option<bool>,
    pub source_metadata: bool,
}

impl FileConfig {
    /// A file endpoint on `path`.
    pub fn new(path: &str) -> (r: Self)
        ensures
            r.path@ == path@,
            r.name_by == NameBy::Auto,
            r.idempotency is None,
            !r.source_metadata,
    {
        FileConfig {
            path: String::from_str(path),
            name_by: NameBy::Auto,
            idempotency: None,
            source_metadata: false,
        }
    }

    /// The naming a file sink uses. `auto` follows the deprecated `idempotency` flag and
    /// otherwise stays on write time, whatever the input can stamp.
    pub fn resolved_name_by(&self, source_has_position: bool) -> (r: NameBy)
        ensures
            r == file_name_by(*self, source_has_position),
    {
        match self.name_by {
            NameBy::Auto => match self.idempotency {
                Some(true) => NameBy::SourcePosition,
                _ => NameBy::WriteTime,
            },
            other => other,
        }
    }
}

/// The naming a file sink resolves to.
pub open spec fn file_name_by(c: FileConfig, source_has_position: bool) -> NameBy {
    match c.name_by {
        NameBy::Auto => if c.idempotency == Some(true) {
            NameBy::SourcePosition
        } else {
            NameBy::WriteTime
        },
        other => other,
    }
}

/// A bucket of objects.
#[derive(Debug)]
pub struct ObjectStoreConfig {
    pub url: String,
    pub name_by: NameBy,
    /// Deprecated spelling of an explicit `name_by`.
    pub idempotency: Option<bool>,
    pub extension: Option<String>,
    pub date_partition: Option<String>,
    pub checkpoint_store: Option<String>,
    pub cursor_id: Option<String>,
    pub polling_interval_ms: Option<u64>,
    pub max_object_bytes: Option<u64>,
}

impl Default for ObjectStoreConfig {
    fn default() -> (r: Self)
        ensures
            r.url@ == Seq::<char>::empty(),
            r.name_by == NameBy::Auto,
            r.idempotency is None,
            r.extension is None,
            r.date_partition is None,
            r.checkpoint_store is None,
            r.cursor_id is None,
            r.polling_interval_ms is None,
            r.max_object_bytes is None,
    {
        ObjectStoreConfig {
            url: String::new(),
            name_by: NameBy::Auto,
            idempotency: None,
            extension: None,
            date_partition: None,
            checkpoint_store: None,
            cursor_id: None,
            polling_interval_ms: None,
            max_object_bytes: None,
        }
    }
}

impl ObjectStoreConfig {
    /// The naming an object-store sink uses: an explicit `name_by`, else the deprecated
    /// `idempotency` flag, else source positions exactly when the input stamps them.
    pub fn resolved_name_by(&self, source_has_position: bool) -> (r: NameBy)
        ensures
            r == object_store_name_by(*self, source_has_position),
    {
        match self.name_by {
            NameBy::Auto => match self.idempotency {
                Some(true) => NameBy::SourcePosition,
                Some(false) => NameBy::WriteTime,
                None => if source_has_position {
                    NameBy::SourcePosition
                } else {
                    NameBy::WriteTime
                },
            },
            other => other,
        }
    }
}

/// The naming an object-store sink resolves to.
pub open spec fn object_store_name_by(c: ObjectStoreConfig, source_has_position: bool) -> NameBy {
    match c.name_by {
        NameBy::Auto => match c.idempotency {
            Some(true) => NameBy::SourcePosition,
            Some(false) => NameBy::WriteTime,
            None => if source_has_position {
                NameBy::SourcePosition
            } else {
                NameBy::WriteTime
            },
        },
        other => other,
    }
}

/// An HTTP listener (as input) or client (as output).
#[derive(Debug)]
pub struct HttpConfig {
    pub url: String,
    pub path: Option<String>,
    pub method: Option<String>,
    pub workers: Option<usize>,
    pub message_id_header: Option<String>,
    pub internal_buffer_size: Option<usize>,
    pub fire_and_forget: bool,
    pub receive_streamable: bool,
    pub batch_concurrency: Option<usize>,
    pub tcp_keepalive_ms: Option<u64>,
    pub pool_idle_timeout_ms: Option<u64>,
    pub stream_response_to: Option<Box<Endpoint>>,
    pub pass_through_status: bool,
    pub basic_auth: Option<(String, String)>,
    pub compression: Compression,
    pub compression_enabled: Option<bool>,
    pub request_timeout_ms: Option<u64>,
    pub compression_threshold_bytes: Option<usize>,
    pub concurrency_limit: Option<usize>,
    pub custom_headers: Vec<(String, String)>,
    pub inline_response_fast_path: Option<bool>,
}

impl HttpConfig {
    /// An HTTP endpoint on `url`, every option unset.
    pub fn new(url: &str) -> (r: Self)
        ensures
            r.url@ == url@,
            r.path is None,
            r.method is None,
            r.workers is None,
            r.message_id_header is None,
            r.internal_buffer_size is None,
            !r.fire_and_forget,
            !r.receive_streamable,
            r.batch_concurrency is None,
            r.tcp_keepalive_ms is None,
            r.pool_idle_timeout_ms is None,
            r.stream_response_to is None,
            !r.pass_through_status,
            r.basic_auth is None,
            r.compression == Compression::Identity,
            r.compression_enabled is None,
            r.request_timeout_ms is None,
            r.compression_threshold_bytes is None,
            r.concurrency_limit is None,
            r.custom_headers@.len() == 0,
            r.inline_response_fast_path is None,
    {
        HttpConfig {
            url: String::from_str(url),
            path: None,
            method: None,
            workers: None,
            message_id_header: None,
            internal_buffer_size: None,
            fire_and_forget: false,
            receive_streamable: false,
            batch_concurrency: None,
            tcp_keepalive_ms: None,
            pool_idle_timeout_ms: None,
            stream_response_to: None,
            pass_through_status: false,
            basic_auth: None,
            compression: Compression::Identity,
            compression_enabled: None,
            request_timeout_ms: None,
            compression_threshold_bytes: None,
            concurrency_limit: None,
            custom_headers: Vec::new(),
            inline_response_fast_path: None,
        }
    }

    /// The codec a publisher compresses request bodies with: an explicit `compression`, else
    /// gzip when `compression_enabled` is set, else none.
    pub fn publisher_compression(&self) -> (r: Compression)
        ensures
            r == (if self.compression != Compression::Identity {
                self.compression
            } else if self.compression_enabled == Some(true) {
                Compression::Gzip
            } else {
                Compression::Identity
            }),
    {
        if self.compression != Compression::Identity {
            self.compression
        } else if self.compression_enabled == Some(true) {
            Compression::Gzip
        } else {
            Compression::Identity
        }
    }

    /// Whether a route may answer its requests inline, unless switched off.
    pub fn inline_response_fast_path_enabled(&self) -> (r: bool)
        ensures
            r == (self.inline_response_fast_path != Some(false)),
    {
        self.inline_response_fast_path != Some(false)
    }

    /// Whether a consumer compresses its responses: only when `compression_enabled` is set.
    pub fn consumer_compression_enabled(&self) -> (r: bool)
        ensures
            r == (self.compression_enabled == Some(true)),
    {
        self.compression_enabled == Some(true)
    }
}

/// TLS settings of a client connection.
#[derive(Debug)]
pub struct TlsConfig {
    pub required: bool,
    pub ca_file: Option<String>,
    pub cert_file: Option<String>,
    pub key_file: Option<String>,
    pub accept_invalid_certs: bool,
}

impl TlsConfig {
    /// No TLS.
    pub fn new() -> (r: Self)
        ensures
            !r.required,
            r.ca_file is None,
            r.cert_file is None,
            r.key_file is None,
            !r.accept_invalid_certs,
    {
        TlsConfig { required: false, ca_file: None, cert_file: None, key_file: None, accept_invalid_certs: false }
    }
}

impl Clone for TlsConfig {
    fn clone(&self) -> (r: Self)
        ensures
            r == *self,
    {
        TlsConfig {
            required: self.required,
            ca_file: self.ca_file.clone(),
            cert_file: self.cert_file.clone(),
            key_file: self.key_file.clone(),
            accept_invalid_certs: self.accept_invalid_certs,
        }
    }
}

/// A Kafka topic.
#[derive(Debug)]
pub struct KafkaConfig {
    /// The bootstrap servers.
    pub url: String,
    pub topic: Option<String>,
    pub group_id: Option<String>,
    pub username: Option<String>,
    pub password: Option<String>,
    pub tls: TlsConfig,
    pub consumer_options: Option<Vec<(String, String)>>,
    pub producer_options: Option<Vec<(String, String)>>,
    pub delayed_ack: bool,
    pub source_metadata: bool,
    /// The metadata field whose value keys a record; the message id where unset.
    pub partition_key: Option<String>,
}

impl KafkaConfig {
    /// A Kafka endpoint on the bootstrap servers `url`, every option unset.
    pub fn new(url: &str) -> (r: Self)
        ensures
            r.url@ == url@,
            r.topic is None,
            r.group_id is None,
            r.username is None,
            r.password is None,
            !r.tls.required,
            r.tls.ca_file is None,
            r.tls.cert_file is None,
            r.tls.key_file is None,
            !r.tls.accept_invalid_certs,
            r.consumer_options is None,
            r.producer_options is None,
            !r.delayed_ack,
            !r.source_metadata,
            r.partition_key is None,
    {
        KafkaConfig {
            url: String::from_str(url),
            topic: None,
            group_id: None,
            username: None,
            password: None,
            tls: TlsConfig::new(),
            consumer_options: None,
            producer_options: None,
            delayed_ack: false,
            source_metadata: false,
            partition_key: None,
        }
    }
}

/// A NATS subject (with a JetStream stream as input).
#[derive(Debug)]
pub struct NatsConfig {
    pub subject: Option<String>,
    pub stream: Option<String>,
    pub request_reply: bool,
    pub request_timeout_ms: Option<u64>,
    pub delayed_ack: bool,
    pub stream_max_messages: Option<u64>,
    pub stream_max_bytes: Option<u64>,
    pub subscriber_mode: bool,
    pub prefetch_count: Option<u16>,
    pub source_metadata: bool,
}

/// An AMQP queue.
#[derive(Debug)]
pub struct AmqpConfig {
    pub queue: Option<String>,
    pub delayed_ack: bool,
    pub subscribe_mode: bool,
    pub prefetch_count: Option<u16>,
    pub source_metadata: bool,
}

/// An MQTT topic.
#[derive(Debug)]
pub struct MqttConfig {
    pub topic: Option<String>,
    /// The client id; a persistent session needs a stable one.
    pub client_id: Option<String>,
    pub delayed_ack: bool,
    pub clean_session: bool,
}

/// An SQL table, read as a queue, by cursor, or (Postgres) by CDC.
#[derive(Debug)]
pub struct SqlxConfig {
    pub url: String,
    pub table: String,
    pub publication: Option<String>,
    pub create_publication: bool,
    pub slot_name: Option<String>,
    pub cursor_column: Option<String>,
    pub cursor_id: Option<String>,
    pub checkpoint_store: Option<String>,
    pub insert_query: Option<String>,
    pub select_query: Option<String>,
    pub delete_after_read: bool,
    pub polling_interval_ms: Option<u64>,
    pub source_metadata: bool,
}

/// Postgres logical-replication capture.
#[derive(Debug)]
pub struct PostgresCdcConfig {
    pub url: String,
    pub publication: String,
    pub source_metadata: bool,
    pub slot_name: String,
    pub create_slot: bool,
    pub create_publication: bool,
    pub publication_tables: Vec<String>,
    pub temporary_slot: bool,
    pub cursor_id: Option<String>,
    pub checkpoint_store: Option<String>,
    pub status_interval_ms: u64,
}

/// A MongoDB collection.
#[derive(Debug)]
pub struct MongoDbConfig {
    pub collection: Option<String>,
    pub consume: Option<MongoConsume>,
    /// Deprecated: `consume: capture_new`.
    pub change_stream: bool,
    pub cursor_id: Option<String>,
    pub reply_polling_ms: Option<u64>,
    pub request_reply: bool,
    pub request_timeout_ms: Option<u64>,
    pub ttl_seconds: Option<u64>,
    pub capped_size_bytes: Option<u64>,
    pub polling_interval_ms: Option<u64>,
    pub source_metadata: bool,
}

impl MongoDbConfig {
    /// The read mode: `consume`, else the deprecated `change_stream` flag, else a queue drain.
    pub fn resolved_consume(&self) -> (r: MongoConsume)
        ensures
            r == mongo_consume(*self),
    {
        match self.consume {
            Some(c) => c,
            None => if self.change_stream {
                MongoConsume::CaptureNew
            } else {
                MongoConsume::Consumer
            },
        }
    }
}

/// The read mode a MongoDB input resolves to.
pub open spec fn mongo_consume(c: MongoDbConfig) -> MongoConsume {
    match c.consume {
        Some(m) => m,
        None => if c.change_stream {
            MongoConsume::CaptureNew
        } else {
            MongoConsume::Consumer
        },
    }
}

/// An IBM MQ queue or topic.
#[derive(Debug)]
pub struct IbmMqConfig {
    pub queue: Option<String>,
    pub topic: Option<String>,
    pub wait_timeout_ms: u64,
    /// The largest message a consumer reads, in bytes.
    pub max_message_size: usize,
    /// How many jobs the worker thread queues; 100 where unset.
    pub internal_buffer_size: Option<usize>,
    /// Open queues without the inquire option, so status checks report no depth.
    pub disable_status_inq: bool,
}

/// How a WebSocket route runs: answered directly by the listener where it can be, always,
/// or always through the route pipeline.
#[derive(Debug, Clone, Copy, PartialEq, Eq, Structural)]
pub enum WebSocketExecutionMode {
    /// Direct where the route allows it, else through the pipeline.
    Auto,
    /// Direct, and an error where the route does not allow it.
    DirectOnly,
    /// Always through the pipeline.
    Routed,
}

/// A WebSocket listener or client.
#[derive(Debug)]
pub struct WebSocketConfig {
    pub url: String,
    pub execution_mode: WebSocketExecutionMode,
}

impl WebSocketConfig {
    /// A WebSocket endpoint on `url`, running direct where it can.
    pub fn new(url: &str) -> (r: Self)
        ensures
            r.url@ == url@,
            r.execution_mode == WebSocketExecutionMode::Auto,
    {
        WebSocketConfig { url: String::from_str(url), execution_mode: WebSocketExecutionMode::Auto }
    }

    /// The same endpoint, run in `mode`.
    pub fn with_execution_mode(self, mode: WebSocketExecutionMode) -> (r: Self)
        ensures
            r.url == self.url,
            r.execution_mode == mode,
    {
        WebSocketConfig { execution_mode: mode, ..self }
    }
}

impl Clone for WebSocketConfig {
    fn clone(&self) -> (r: Self)
        ensures
            r == *self,
    {
        WebSocketConfig { url: self.url.clone(), execution_mode: self.execution_mode }
    }
}

/// What an endpoint connects to.
#[derive(Debug)]
pub enum EndpointType {
    /// Another endpoint, registered under this name.
    Ref(String),
    Null,
    Fanout(Vec<Endpoint>),
    Switch(SwitchConfig),
    /// An input used as an output: each message triggers a read.
    Reader(Box<Endpoint>),
    Request(RequestForwardConfig),
    Response(ResponseConfig),
    Static(StaticConfig),
    StreamBuffer(StreamBufferConfig),
    Memory(MemoryConfig),
    File(FileConfig),
    ObjectStore(ObjectStoreConfig),
    Http(HttpConfig),
    Kafka(KafkaConfig),
    Nats(NatsConfig),
    Amqp(AmqpConfig),
    Mqtt(MqttConfig),
    Sqlx(SqlxConfig),
    PostgresCdc(PostgresCdcConfig),
    MongoDb(MongoDbConfig),
    IbmMq(IbmMqConfig),
    WebSocket(WebSocketConfig),
    /// An endpoint built by a registered factory.
    Custom { name: String, config: String },
}

/// An endpoint: what it connects to, the middlewares around it, and an optional handler.
#[derive(Debug)]
pub struct Endpoint {
    pub endpoint_type: EndpointType,
    pub middlewares: Vec<Middleware>,
    pub handler: Option<HandlerRef>,
}

/// Whether an endpoint type is part of the bridge itself rather than a transport; a
/// policy list of allowed types governs transports only.
pub open spec fn is_core_type(t: EndpointType) -> bool {
    match t {
        EndpointType::Ref(_) | EndpointType::Null | EndpointType::Fanout(_) | EndpointType::Switch(
            _,
        ) | EndpointType::Reader(_) | EndpointType::Request(_) | EndpointType::Response(_)
        | EndpointType::Static(_) | EndpointType::StreamBuffer(_) | EndpointType::Memory(_)
        | EndpointType::File(_) => true,
        _ => false,
    }
}

/// The name a config file and a policy list use for an endpoint type.
pub open spec fn endpoint_type_name(t: EndpointType) -> Seq<char> {
    match t {
        EndpointType::Ref(_) => "ref"@,
        EndpointType::Null => "null"@,
        EndpointType::Fanout(_) => "fanout"@,
        EndpointType::Switch(_) => "switch"@,
        EndpointType::Reader(_) => "reader"@,
        EndpointType::Request(_) => "request"@,
        EndpointType::Response(_) => "response"@,
        EndpointType::Static(_) => "static"@,
        EndpointType::StreamBuffer(_) => "stream_buffer"@,
        EndpointType::Memory(_) => "memory"@,
        EndpointType::File(_) => "file"@,
        EndpointType::ObjectStore(_) => "object_store"@,
        EndpointType::Http(_) => "http"@,
        EndpointType::Kafka(_) => "kafka"@,
        EndpointType::Nats(_) => "nats"@,
        EndpointType::Amqp(_) => "amqp"@,
        EndpointType::Mqtt(_) => "mqtt"@,
        EndpointType::Sqlx(_) => "sqlx"@,
        EndpointType::PostgresCdc(_) => "postgres_cdc"@,
        EndpointType::MongoDb(_) => "mongodb"@,
        EndpointType::IbmMq(_) => "ibmmq"@,
        EndpointType::WebSocket(_) => "websocket"@,
        EndpointType::Custom { .. } => "custom"@,
    }
}

impl EndpointType {
    /// Whether this type is part of the bridge itself rather than a transport.
    pub fn is_core(&self) -> (r: bool)
        ensures
            r == is_core_type(*self),
    {
        match self {
            EndpointType::Ref(_) | EndpointType::Null | EndpointType::Fanout(_)
            | EndpointType::Switch(_) | EndpointType::Reader(_) | EndpointType::Request(_)
            | EndpointType::Response(_) | EndpointType::Static(_) | EndpointType::StreamBuffer(_)
            | EndpointType::Memory(_) | EndpointType::File(_) => true,
            _ => false,
        }
    }

    /// The name a config file and a policy list use for this type.
    pub fn name(&self) -> (r: &'static str)
        ensures
            r@ == endpoint_type_name(*self),
    {
        match self {
            EndpointType::Ref(_) => "ref",
            EndpointType::Null => "null",
            EndpointType::Fanout(_) => "fanout",
            EndpointType::Switch(_) => "switch",
            EndpointType::Reader(_) => "reader",
            EndpointType::Request(_) => "request",
            EndpointType::Response(_) => "response",
            EndpointType::Static(_) => "static",
            EndpointType::StreamBuffer(_) => "stream_buffer",
            EndpointType::Memory(_) => "memory",
            EndpointType::File(_) => "file",
            EndpointType::ObjectStore(_) => "object_store",
            EndpointType::Http(_) => "http",
            EndpointType::Kafka(_) => "kafka",
            EndpointType::Nats(_) => "nats",
            EndpointType::Amqp(_) => "amqp",
            EndpointType::Mqtt(_) => "mqtt",
            EndpointType::Sqlx(_) => "sqlx",
            EndpointType::PostgresCdc(_) => "postgres_cdc",
            EndpointType::MongoDb(_) => "mongodb",
            EndpointType::IbmMq(_) => "ibmmq",
            EndpointType::WebSocket(_) => "websocket",
            EndpointType::Custom { .. } => "custom",
        }
    }
}

impl Clone for RetryMiddleware {
    fn clone(&self) -> (r: Self)
        ensures
            r == *self,
    {
        RetryMiddleware {
        max_attempts: self.max_attempts
        }
    }
}

impl Clone for DeadLetterQueueMiddleware {
    fn clone(&self) -> (r: Self)
        ensures
            r == *self,
    {
        DeadLetterQueueMiddleware {
        topic: self.topic.clone()
        }
    }
}

impl Clone for DeduplicationMiddleware {
    fn clone(&self) -> (r: Self)
        ensures
            r == *self,
    {
        DeduplicationMiddleware {
        store: self.store.clone(),
        sled_path: self.sled_path.clone(),
        ttl_seconds: self.ttl_seconds,
        key: self.key.clone()
        }
    }
}

impl Clone for WeakJoinMiddleware {
    fn clone(&self) -> (r: Self)
        ensures
            r.required@ == self.required@,
            r == (WeakJoinMiddleware { required: r.required, ..*self }),
    {
        WeakJoinMiddleware {
        group_by: self.group_by.clone(),
        expected_count: self.expected_count,
        timeout_ms: self.timeout_ms,
        branch_by: self.branch_by.clone(),
        required: clone_strings(&self.required)
        }
    }
}

impl Clone for TransformMiddleware {
    fn clone(&self) -> (r: Self)
        ensures
            r.mapping@ == self.mapping@,
            r == (TransformMiddleware { mapping: r.mapping, ..*self }),
    {
        TransformMiddleware {
        mapping: clone_pairs(&self.mapping),
        expression: self.expression.clone(),
        schema: self.schema.clone(),
        schema_file: self.schema_file.clone(),
        on_error: self.on_error
        }
    }
}

impl Clone for HandlerRef {
    fn clone(&self) -> (r: Self)
        ensures
            r == *self,
    {
        HandlerRef {
        name: self.name.clone()
        }
    }
}

/// Two optional lists of pairs with the same contents.
pub open spec fn same_opt_pairs(a: Option<Vec<(String, String)>>, b: Option<Vec<(String, String)>>) -> bool {
    match (a, b) {
        (Some(x), Some(y)) => x@ == y@,
        (None, None) => true,
        _ => false,
    }
}

/// Whether `b` is a copy of `a`: the same in every field, lists by their contents.
pub open spec fn same_middleware(a: Middleware, b: Middleware) -> bool {
    match a {
        Middleware::WeakJoin(x) => b matches Middleware::WeakJoin(y) && y.required@ == x.required@
            && y == (WeakJoinMiddleware { required: y.required, ..x }),
        Middleware::Transform(x) => b matches Middleware::Transform(y) && y.mapping@ == x.mapping@
            && y == (TransformMiddleware { mapping: y.mapping, ..x }),
        _ => b == a,
    }
}

/// Whether the middlewares `b` are copies of `a`, one by one.
pub open spec fn same_middlewares(a: Seq<Middleware>, b: Seq<Middleware>) -> bool {
    a.len() == b.len() && forall|i: int| 0 <= i < a.len() ==> same_middleware(#[trigger] a[i], b[i])
}

/// Whether `b` is a copy of the endpoint `a`: the same in every field, lists by their
/// contents and nested endpoints as copies.
pub open spec fn same_endpoint(a: Endpoint, b: Endpoint) -> bool
    decreases a,
{
    same_endpoint_type(a.endpoint_type, b.endpoint_type) && same_middlewares(a.middlewares@, b.middlewares@)
        && b.handler == a.handler
}

/// Whether the endpoints `b` are copies of `a`, one by one.
pub open spec fn same_endpoints(a: Seq<Endpoint>, b: Seq<Endpoint>) -> bool
    decreases a,
{
    if a.len() == 0 {
        b.len() == 0
    } else {
        b.len() == a.len() && same_endpoint(a.last(), b.last()) && same_endpoints(a.drop_last(), b.drop_last())
    }
}

/// Whether the keyed cases `b` are copies of `a`, one by one.
pub open spec fn same_cases(a: Seq<(String, Endpoint)>, b: Seq<(String, Endpoint)>) -> bool
    decreases a,
{
    if a.len() == 0 {
        b.len() == 0
    } else {
        b.len() == a.len() && b.last().0 == a.last().0 && same_endpoint(a.last().1, b.last().1)
            && same_cases(a.drop_last(), b.drop_last())
    }
}

/// Whether the conditional arms `b` are copies of `a`, one by one.
pub open spec fn same_arms(a: Seq<SwitchCase>, b: Seq<SwitchCase>) -> bool
    decreases a,
{
    if a.len() == 0 {
        b.len() == 0
    } else {
        b.len() == a.len() && same_switch_case(a.last(), b.last()) && same_arms(a.drop_last(), b.drop_last())
    }
}

/// Whether `b` is a copy of the switch arm `a`.
pub open spec fn same_switch_case(a: SwitchCase, b: SwitchCase) -> bool
    decreases a,
{
    b.condition == a.condition && same_endpoint(a.to, b.to)
}

/// Whether `b` is a copy of the optional endpoint `a`.
pub open spec fn same_opt_endpoint(a: Option<Box<Endpoint>>, b: Option<Box<Endpoint>>) -> bool
    decreases a,
{
    match a {
        Some(x) => b matches Some(y) && same_endpoint(*x, *y),
        None => b is None,
    }
}

/// Whether `b` is a copy of the switch `a`.
pub open spec fn same_switch_config(a: SwitchConfig, b: SwitchConfig) -> bool
    decreases a,
{
    b.metadata_key == a.metadata_key && same_cases(a.cases@, b.cases@) && same_arms(a.when@, b.when@)
        && same_opt_endpoint(a.default, b.default)
}

/// Whether `b` is a copy of the request-forward config `a`.
pub open spec fn same_request_forward(a: RequestForwardConfig, b: RequestForwardConfig) -> bool
    decreases a,
{
    same_endpoint(*a.to, *b.to) && same_endpoint(*a.forward_to, *b.forward_to)
}

/// Whether `b` is a copy of the HTTP config `a`.
pub open spec fn same_http_config(a: HttpConfig, b: HttpConfig) -> bool
    decreases a,
{
    b.custom_headers@ == a.custom_headers@ && same_opt_endpoint(a.stream_response_to, b.stream_response_to)
        && b == (HttpConfig { custom_headers: b.custom_headers, stream_response_to: b.stream_response_to, ..a })
}

/// Whether `b` is a copy of the endpoint type `a`.
pub open spec fn same_endpoint_type(a: EndpointType, b: EndpointType) -> bool
    decreases a,
{
    match a {
        EndpointType::Fanout(v) => b matches EndpointType::Fanout(w) && same_endpoints(v@, w@),
        EndpointType::Switch(c) => b matches EndpointType::Switch(d) && same_switch_config(c, d),
        EndpointType::Reader(e) => b matches EndpointType::Reader(f) && same_endpoint(*e, *f),
        EndpointType::Request(c) => b matches EndpointType::Request(d) && same_request_forward(c, d),
        EndpointType::Http(c) => b matches EndpointType::Http(d) && same_http_config(c, d),
        EndpointType::Kafka(c) => b matches EndpointType::Kafka(d) && same_opt_pairs(c.consumer_options, d.consumer_options)
            && same_opt_pairs(c.producer_options, d.producer_options) && d == (KafkaConfig {
            consumer_options: d.consumer_options,
            producer_options: d.producer_options,
            ..c
        }),
        EndpointType::PostgresCdc(c) => b matches EndpointType::PostgresCdc(d) && d.publication_tables@
            == c.publication_tables@ && d == (PostgresCdcConfig { publication_tables: d.publication_tables, ..c }),
        _ => b == a,
    }
}

/// A copy of a `SwitchConfig`.
pub fn copy_switch_config(c: &SwitchConfig) -> (r: SwitchConfig)
    ensures
        same_switch_config(*c, r),
    decreases *c,
{
    SwitchConfig {
        metadata_key: c.metadata_key.clone(),
        cases: copy_cases(&c.cases),
        when: copy_when(&c.when),
        default: match &c.default { Some(b) => Some(Box::new(copy_endpoint(b))), None => None }
    }
}

impl Clone for SwitchConfig {
    fn clone(&self) -> (r: Self)
        ensures
            same_switch_config(*self, r),
    {
        copy_switch_config(self)
    }
}

/// A copy of a `SwitchCase`.
pub fn copy_switch_case(c: &SwitchCase) -> (r: SwitchCase)
    ensures
        same_switch_case(*c, r),
    decreases *c,
{
    SwitchCase {
        condition: c.condition.clone(),
        to: copy_endpoint(&c.to)
    }
}

impl Clone for SwitchCase {
    fn clone(&self) -> (r: Self)
        ensures
            same_switch_case(*self, r),
    {
        copy_switch_case(self)
    }
}

/// A copy of a `RequestForwardConfig`.
pub fn copy_request_forward_config(c: &RequestForwardConfig) -> (r: RequestForwardConfig)
    ensures
        same_request_forward(*c, r),
    decreases *c,
{
    RequestForwardConfig {
        to: Box::new(copy_endpoint(&c.to)),
        forward_to: Box::new(copy_endpoint(&c.forward_to))
    }
}

impl Clone for RequestForwardConfig {
    fn clone(&self) -> (r: Self)
        ensures
            same_request_forward(*self, r),
    {
        copy_request_forward_config(self)
    }
}

impl Clone for ResponseConfig {
    fn clone(&self) -> (r: Self)
        ensures
            r == *self,
    {
        ResponseConfig {  }
    }
}

impl Clone for StaticConfig {
    fn clone(&self) -> (r: Self)
        ensures
            r == *self,
    {
        StaticConfig {
        body: self.body.clone(),
        raw: self.raw
        }
    }
}

impl Clone for StreamBufferConfig {
    fn clone(&self) -> (r: Self)
        ensures
            r == *self,
    {
        StreamBufferConfig {
        topic: self.topic.clone(),
        correlation_id: self.correlation_id.clone(),
        capacity: self.capacity,
        idle_ttl_secs: self.idle_ttl_secs
        }
    }
}

impl Clone for MemoryConfig {
    fn clone(&self) -> (r: Self)
        ensures
            r == *self,
    {
        MemoryConfig {
        topic: self.topic.clone(),
        capacity: self.capacity,
        url: self.url.clone(),
        request_reply: self.request_reply,
        request_timeout_ms: self.request_timeout_ms,
        subscribe_mode: self.subscribe_mode,
        enable_nack: self.enable_nack
        }
    }
}

impl Clone for FileConfig {
    fn clone(&self) -> (r: Self)
        ensures
            r == *self,
    {
        FileConfig {
        path: self.path.clone(),
        name_by: self.name_by,
        idempotency: self.idempotency,
        source_metadata: self.source_metadata
        }
    }
}

impl Clone for ObjectStoreConfig {
    fn clone(&self) -> (r: Self)
        ensures
            r == *self,
    {
        ObjectStoreConfig {
        url: self.url.clone(),
        name_by: self.name_by,
        idempotency: self.idempotency,
        extension: self.extension.clone(),
        date_partition: self.date_partition.clone(),
        checkpoint_store: self.checkpoint_store.clone(),
        cursor_id: self.cursor_id.clone(),
        polling_interval_ms: self.polling_interval_ms,
        max_object_bytes: self.max_object_bytes
        }
    }
}

/// A copy of a `HttpConfig`.
pub fn copy_http_config(c: &HttpConfig) -> (r: HttpConfig)
    ensures
        same_http_config(*c, r),
    decreases *c,
{
    HttpConfig {
        url: c.url.clone(),
        path: c.path.clone(),
        method: c.method.clone(),
        workers: c.workers,
        message_id_header: c.message_id_header.clone(),
        internal_buffer_size: c.internal_buffer_size,
        fire_and_forget: c.fire_and_forget,
        receive_streamable: c.receive_streamable,
        batch_concurrency: c.batch_concurrency,
        tcp_keepalive_ms: c.tcp_keepalive_ms,
        pool_idle_timeout_ms: c.pool_idle_timeout_ms,
        stream_response_to: match &c.stream_response_to { Some(b) => Some(Box::new(copy_endpoint(b))), None => None },
        pass_through_status: c.pass_through_status,
        basic_auth: match &c.basic_auth { Some((a, b)) => Some((a.clone(), b.clone())), None => None },
        compression: c.compression,
        compression_enabled: c.compression_enabled,
        request_timeout_ms: c.request_timeout_ms,
        compression_threshold_bytes: c.compression_threshold_bytes,
        concurrency_limit: c.concurrency_limit,
        custom_headers: clone_pairs(&c.custom_headers),
        inline_response_fast_path: c.inline_response_fast_path
    }
}

impl Clone for HttpConfig {
    fn clone(&self) -> (r: Self)
        ensures
            same_http_config(*self, r),
    {
        copy_http_config(self)
    }
}

impl Clone for KafkaConfig {
    fn clone(&self) -> (r: Self)
        ensures
            same_opt_pairs(self.consumer_options, r.consumer_options),
            same_opt_pairs(self.producer_options, r.producer_options),
            r == (KafkaConfig { consumer_options: r.consumer_options, producer_options: r.producer_options, ..*self }),
    {
        KafkaConfig {
        url: self.url.clone(),
        topic: self.topic.clone(),
        group_id: self.group_id.clone(),
        username: self.username.clone(),
        password: self.password.clone(),
        tls: self.tls.clone(),
        consumer_options: match &self.consumer_options { Some(v) => Some(clone_pairs(v)), None => None },
        producer_options: match &self.producer_options { Some(v) => Some(clone_pairs(v)), None => None },
        delayed_ack: self.delayed_ack,
        source_metadata: self.source_metadata,
        partition_key: self.partition_key.clone()
        }
    }
}

impl Clone for NatsConfig {
    fn clone(&self) -> (r: Self)
        ensures
            r == *self,
    {
        NatsConfig {
        subject: self.subject.clone(),
        stream: self.stream.clone(),
        request_reply: self.request_reply,
        request_timeout_ms: self.request_timeout_ms,
        delayed_ack: self.delayed_ack,
        stream_max_messages: self.stream_max_messages,
        stream_max_bytes: self.stream_max_bytes,
        subscriber_mode: self.subscriber_mode,
        prefetch_count: self.prefetch_count,
        source_metadata: self.source_metadata
        }
    }
}

impl Clone for AmqpConfig {
    fn clone(&self) -> (r: Self)
        ensures
            r == *self,
    {
        AmqpConfig {
        queue: self.queue.clone(),
        delayed_ack: self.delayed_ack,
        subscribe_mode: self.subscribe_mode,
        prefetch_count: self.prefetch_count,
        source_metadata: self.source_metadata
        }
    }
}

impl Clone for MqttConfig {
    fn clone(&self) -> (r: Self)
        ensures
            r == *self,
    {
        MqttConfig {
        topic: self.topic.clone(),
        client_id: self.client_id.clone(),
        delayed_ack: self.delayed_ack,
        clean_session: self.clean_session
        }
    }
}

impl Clone for SqlxConfig {
    fn clone(&self) -> (r: Self)
        ensures
            r == *self,
    {
        SqlxConfig {
        url: self.url.clone(),
        table: self.table.clone(),
        publication: self.publication.clone(),
        create_publication: self.create_publication,
        slot_name: self.slot_name.clone(),
        cursor_column: self.cursor_column.clone(),
        cursor_id: self.cursor_id.clone(),
        checkpoint_store: self.checkpoint_store.clone(),
        insert_query: self.insert_query.clone(),
        select_query: self.select_query.clone(),
        delete_after_read: self.delete_after_read,
        polling_interval_ms: self.polling_interval_ms,
        source_metadata: self.source_metadata
        }
    }
}

impl Clone for PostgresCdcConfig {
    fn clone(&self) -> (r: Self)
        ensures
            r.publication_tables@ == self.publication_tables@,
            r == (PostgresCdcConfig { publication_tables: r.publication_tables, ..*self }),
    {
        PostgresCdcConfig {
        url: self.url.clone(),
        publication: self.publication.clone(),
        source_metadata: self.source_metadata,
        slot_name: self.slot_name.clone(),
        create_slot: self.create_slot,
        create_publication: self.create_publication,
        publication_tables: clone_strings(&self.publication_tables),
        temporary_slot: self.temporary_slot,
        cursor_id: self.cursor_id.clone(),
        checkpoint_store: self.checkpoint_store.clone(),
        status_interval_ms: self.status_interval_ms
        }
    }
}

impl Clone for MongoDbConfig {
    fn clone(&self) -> (r: Self)
        ensures
            r == *self,
    {
        MongoDbConfig {
        collection: self.collection.clone(),
        consume: self.consume,
        change_stream: self.change_stream,
        cursor_id: self.cursor_id.clone(),
        reply_polling_ms: self.reply_polling_ms,
        request_reply: self.request_reply,
        request_timeout_ms: self.request_timeout_ms,
        ttl_seconds: self.ttl_seconds,
        capped_size_bytes: self.capped_size_bytes,
        polling_interval_ms: self.polling_interval_ms,
        source_metadata: self.source_metadata
        }
    }
}

impl Clone for IbmMqConfig {
    fn clone(&self) -> (r: Self)
        ensures
            r == *self,
    {
        IbmMqConfig {
        queue: self.queue.clone(),
        topic: self.topic.clone(),
        wait_timeout_ms: self.wait_timeout_ms,
        max_message_size: self.max_message_size,
        internal_buffer_size: self.internal_buffer_size,
        disable_status_inq: self.disable_status_inq
        }
    }
}

/// A copy of a `Endpoint`.
pub fn copy_endpoint(c: &Endpoint) -> (r: Endpoint)
    ensures
        same_endpoint(*c, r),
    decreases *c,
{
    Endpoint {
        endpoint_type: copy_endpoint_type(&c.endpoint_type),
        middlewares: copy_middlewares(&c.middlewares),
        handler: match &c.handler { Some(h) => Some(h.clone()), None => None }
    }
}

impl Clone for Endpoint {
    fn clone(&self) -> (r: Self)
        ensures
            same_endpoint(*self, r),
    {
        copy_endpoint(self)
    }
}

/// A copy of a list of strings.
pub fn clone_strings(v: &Vec<String>) -> (r: Vec<String>)
    ensures
        r@ == v@,
{
    let mut out: Vec<String> = Vec::new();
    let mut i: usize = 0;
    while i < v.len()
        invariant
            i <= v@.len(),
            out@ == v@.subrange(0, i as int),
        decreases v@.len() - i,
    {
        out.push(v[i].clone());
        assert(out@ =~= v@.subrange(0, i + 1));
        i = i + 1;
    }
    assert(out@ =~= v@);
    out
}

/// A copy of a list of string pairs.
pub fn clone_pairs(v: &Vec<(String, String)>) -> (r: Vec<(String, String)>)
    ensures
        r@ == v@,
{
    let mut out: Vec<(String, String)> = Vec::new();
    let mut i: usize = 0;
    while i < v.len()
        invariant
            i <= v@.len(),
            out@ == v@.subrange(0, i as int),
        decreases v@.len() - i,
    {
        out.push((v[i].0.clone(), v[i].1.clone()));
        assert(out@ =~= v@.subrange(0, i + 1));
        i = i + 1;
    }
    assert(out@ =~= v@);
    out
}

/// A copy of a list of middlewares.
pub fn copy_middlewares(v: &Vec<Middleware>) -> (r: Vec<Middleware>)
    ensures
        same_middlewares(v@, r@),
{
    let mut out: Vec<Middleware> = Vec::new();
    let mut i: usize = 0;
    while i < v.len()
        invariant
            i <= v@.len(),
            out@.len() == i,
            forall|k: int| 0 <= k < i ==> same_middleware(#[trigger] v@[k], out@[k]),
        decreases v@.len() - i,
    {
        out.push(v[i].clone());
        i = i + 1;
    }
    out
}

impl Clone for Middleware {
    fn clone(&self) -> (r: Self)
        ensures
            same_middleware(*self, r),
    {
        match self {
            Middleware::Retry(m) => Middleware::Retry(m.clone()),
            Middleware::Dlq(m) => Middleware::Dlq(Box::new((**m).clone())),
            Middleware::Metrics(m) => Middleware::Metrics(*m),
            Middleware::Deduplication(m) => Middleware::Deduplication(m.clone()),
            Middleware::Filter(f) => Middleware::Filter(f.clone()),
            Middleware::WeakJoin(m) => Middleware::WeakJoin(m.clone()),
            Middleware::Transform(m) => Middleware::Transform(m.clone()),
            Middleware::Buffer(m) => Middleware::Buffer(*m),
            Middleware::Delay(m) => Middleware::Delay(*m),
            Middleware::Limiter(m) => Middleware::Limiter(*m),
        }
    }
}

/// A copy of a list of endpoints.
pub fn copy_endpoints(v: &Vec<Endpoint>) -> (r: Vec<Endpoint>)
    ensures
        same_endpoints(v@, r@),
    decreases *v,
{
    let mut out: Vec<Endpoint> = Vec::new();
    let mut i: usize = 0;
    assert(v@.subrange(0, 0).len() == 0);
    while i < v.len()
        invariant
            i <= v@.len(),
            same_endpoints(v@.subrange(0, i as int), out@),
        decreases v@.len() - i,
    {
        assert(decreases_to!(*v => v@[i as int]));
        let ghost before = out@;
        out.push(copy_endpoint(&v[i]));
        proof {
            let pre = v@.subrange(0, i + 1);
            assert(pre.drop_last() =~= v@.subrange(0, i as int));
            assert(out@.drop_last() =~= before);
            assert(pre.last() == v@[i as int]);
        }
        i = i + 1;
    }
    assert(v@.subrange(0, i as int) =~= v@);
    out
}

/// A copy of the keyed cases of a switch.
pub fn copy_cases(v: &Vec<(String, Endpoint)>) -> (r: Vec<(String, Endpoint)>)
    ensures
        same_cases(v@, r@),
    decreases *v,
{
    let mut out: Vec<(String, Endpoint)> = Vec::new();
    let mut i: usize = 0;
    assert(v@.subrange(0, 0).len() == 0);
    while i < v.len()
        invariant
            i <= v@.len(),
            same_cases(v@.subrange(0, i as int), out@),
        decreases v@.len() - i,
    {
        assert(decreases_to!(*v => v@[i as int].1));
        let ghost before = out@;
        out.push((v[i].0.clone(), copy_endpoint(&v[i].1)));
        proof {
            let pre = v@.subrange(0, i + 1);
            assert(pre.drop_last() =~= v@.subrange(0, i as int));
            assert(out@.drop_last() =~= before);
            assert(pre.last() == v@[i as int]);
        }
        i = i + 1;
    }
    assert(v@.subrange(0, i as int) =~= v@);
    out
}

/// A copy of the conditional arms of a switch.
pub fn copy_when(v: &Vec<SwitchCase>) -> (r: Vec<SwitchCase>)
    ensures
        same_arms(v@, r@),
    decreases *v,
{
    let mut out: Vec<SwitchCase> = Vec::new();
    let mut i: usize = 0;
    assert(v@.subrange(0, 0).len() == 0);
    while i < v.len()
        invariant
            i <= v@.len(),
            same_arms(v@.subrange(0, i as int), out@),
        decreases v@.len() - i,
    {
        assert(decreases_to!(*v => v@[i as int]));
        let ghost before = out@;
        out.push(copy_switch_case(&v[i]));
        proof {
            let pre = v@.subrange(0, i + 1);
            assert(pre.drop_last() =~= v@.subrange(0, i as int));
            assert(out@.drop_last() =~= before);
            assert(pre.last() == v@[i as int]);
        }
        i = i + 1;
    }
    assert(v@.subrange(0, i as int) =~= v@);
    out
}

/// A copy of an endpoint type.
pub fn copy_endpoint_type(t: &EndpointType) -> (r: EndpointType)
    ensures
        same_endpoint_type(*t, r),
    decreases *t,
{
    match t {
        EndpointType::Ref(n) => EndpointType::Ref(n.clone()),
        EndpointType::Null => EndpointType::Null,
        EndpointType::Fanout(v) => EndpointType::Fanout(copy_endpoints(v)),
        EndpointType::Switch(c) => EndpointType::Switch(copy_switch_config(c)),
        EndpointType::Reader(b) => EndpointType::Reader(Box::new(copy_endpoint(b))),
        EndpointType::Request(c) => EndpointType::Request(copy_request_forward_config(c)),
        EndpointType::Response(c) => EndpointType::Response(c.clone()),
        EndpointType::Static(c) => EndpointType::Static(c.clone()),
        EndpointType::StreamBuffer(c) => EndpointType::StreamBuffer(c.clone()),
        EndpointType::Memory(c) => EndpointType::Memory(c.clone()),
        EndpointType::File(c) => EndpointType::File(c.clone()),
        EndpointType::ObjectStore(c) => EndpointType::ObjectStore(c.clone()),
        EndpointType::Http(c) => EndpointType::Http(copy_http_config(c)),
        EndpointType::Kafka(c) => EndpointType::Kafka(c.clone()),
        EndpointType::Nats(c) => EndpointType::Nats(c.clone()),
        EndpointType::Amqp(c) => EndpointType::Amqp(c.clone()),
        EndpointType::Mqtt(c) => EndpointType::Mqtt(c.clone()),
        EndpointType::Sqlx(c) => EndpointType::Sqlx(c.clone()),
        EndpointType::PostgresCdc(c) => EndpointType::PostgresCdc(c.clone()),
        EndpointType::MongoDb(c) => EndpointType::MongoDb(c.clone()),
        EndpointType::IbmMq(c) => EndpointType::IbmMq(c.clone()),
        EndpointType::WebSocket(c) => EndpointType::WebSocket(c.clone()),
        EndpointType::Custom { name, config } => EndpointType::Custom {
            name: name.clone(),
            config: config.clone(),
        },
    }
}

impl Clone for EndpointType {
    fn clone(&self) -> (r: Self)
        ensures
            same_endpoint_type(*self, r),
    {
        copy_endpoint_type(self)
    }
}

} // verus!
