//! Endpoint construction and the middleware stack around an endpoint.
use crate::models::{
    DeadLetterQueueMiddleware, DeduplicationMiddleware, Endpoint, EndpointType, MemoryConfig,
    MetricsMiddleware, Middleware, ResponseConfig, RetryMiddleware, StreamBufferConfig,
};
use vstd::prelude::*;
use vstd::string::*;

verus! {

/// Whether `m` must sit outside (later in the list than) a retry.
pub open spec fn outer_of_retry(m: Middleware) -> bool {
    m is Dlq || m is Metrics
}

/// Whether `m` must sit outside (later in the list than) a dead-letter queue.
pub open spec fn outer_of_dlq(m: Middleware) -> bool {
    m is Metrics
}

/// `k` is the first position in `s` holding a middleware that `m` must stay inside of, or
/// the end of `s` if there is none.
pub open spec fn insertion_point(s: Seq<Middleware>, k: int, inside_dlq: bool) -> bool {
    &&& 0 <= k <= s.len()
    &&& forall|j: int|
        0 <= j < k ==> !(if inside_dlq {
            outer_of_retry(#[trigger] s[j])
        } else {
            outer_of_dlq(s[j])
        })
    &&& k < s.len() ==> (if inside_dlq {
        outer_of_retry(s[k])
    } else {
        outer_of_dlq(s[k])
    })
}

/// Whether `s` holds a metrics middleware.
pub open spec fn has_metrics(s: Seq<Middleware>) -> bool {
    exists|i: int| 0 <= i < s.len() && #[trigger] s[i] is Metrics
}

/// A publisher stack: retry inside dead-letter queue inside metrics, whatever else is between.
pub open spec fn layered(s: Seq<Middleware>) -> bool {
    forall|i: int, j: int|
        0 <= i < j < s.len() ==> !((outer_of_retry(#[trigger] s[i]) && s[j] is Retry) || (
        outer_of_dlq(s[i]) && #[trigger] s[j] is Dlq))
}

/// The stack after a metrics middleware is added at the end, unless one is there already.
pub open spec fn metrics_appended(s: Seq<Middleware>) -> Seq<Middleware> {
    if has_metrics(s) {
        s
    } else {
        s.push(Middleware::Metrics(MetricsMiddleware {  }))
    }
}

/// The stack after a metrics middleware is added at the front, unless one is there already.
pub open spec fn metrics_prepended(s: Seq<Middleware>) -> Seq<Middleware> {
    if has_metrics(s) {
        s
    } else {
        s.insert(0, Middleware::Metrics(MetricsMiddleware {  }))
    }
}

fn insertion_index(s: &Vec<Middleware>, inside_dlq: bool) -> (k: usize)
    ensures
        insertion_point(s@, k as int, inside_dlq),
{
    let mut i: usize = 0;
    while i < s.len()
        invariant
            i <= s@.len(),
            forall|j: int|
                0 <= j < i ==> !(if inside_dlq {
                    outer_of_retry(#[trigger] s@[j])
                } else {
                    outer_of_dlq(s@[j])
                }),
        decreases s@.len() - i,
    {
        let hit = if inside_dlq {
            matches!(s[i], Middleware::Dlq(_) | Middleware::Metrics(_))
        } else {
            matches!(s[i], Middleware::Metrics(_))
        };
        if hit {
            return i;
        }
        i = i + 1;
    }
    i
}

fn holds_metrics(s: &Vec<Middleware>) -> (r: bool)
    ensures
        r == has_metrics(s@),
{
    let mut i: usize = 0;
    while i < s.len()
        invariant
            i <= s@.len(),
            forall|j: int| 0 <= j < i ==> !(#[trigger] s@[j] is Metrics),
        decreases s@.len() - i,
    {
        if matches!(s[i], Middleware::Metrics(_)) {
            return true;
        }
        i = i + 1;
    }
    false
}

impl Endpoint {
    /// An endpoint of `endpoint_type` with no middlewares and no handler.
    pub fn new(endpoint_type: EndpointType) -> (r: Self)
        ensures
            r.endpoint_type == endpoint_type,
            r.middlewares@.len() == 0,
            r.handler is None,
    {
        Endpoint { middlewares: Vec::new(), endpoint_type, handler: None }
    }

    /// An in-memory endpoint on `topic` holding up to `capacity` batches.
    pub fn new_memory(topic: &str, capacity: usize) -> (r: Self)
        ensures
            r.endpoint_type matches EndpointType::Memory(c) && c.topic@ == topic@ && c.capacity
                == Some(capacity) && c.url is None && !c.request_reply && c.request_timeout_ms is None
                && !c.subscribe_mode && !c.enable_nack,
            r.middlewares@.len() == 0,
            r.handler is None,
    {
        Self::new(EndpointType::Memory(MemoryConfig::new(topic, Some(capacity))))
    }

    /// An endpoint that answers the request a message came with.
    pub fn new_response() -> (r: Self)
        ensures
            r.endpoint_type is Response,
            r.middlewares@.len() == 0,
            r.handler is None,
    {
        Self::new(EndpointType::Response(ResponseConfig {  }))
    }

    /// A stream buffer on `topic`, optionally for one correlation id.
    pub fn new_stream_buffer(topic: &str, correlation_id: Option<&str>, capacity: usize) -> (r:
        Self)
        ensures
            r.endpoint_type matches EndpointType::StreamBuffer(c) && c.topic@ == topic@
                && c.capacity == Some(capacity) && c.idle_ttl_secs is None && (match correlation_id {
                Some(id) => c.correlation_id matches Some(cid) && cid@ == id@,
                None => c.correlation_id is None,
            }),
            r.middlewares@.len() == 0,
            r.handler is None,
    {
        let correlation_id = match correlation_id {
            Some(id) => Some(String::from_str(id)),
            None => None,
        };
        Self::new(
            EndpointType::StreamBuffer(
                StreamBufferConfig {
                    topic: String::from_str(topic),
                    correlation_id,
                    capacity: Some(capacity),
                    idle_ttl_secs: None,
                },
            ),
        )
    }

    /// An endpoint that discards everything sent to it.
    pub fn null() -> (r: Self)
        ensures
            r.endpoint_type is Null,
            r.middlewares@.len() == 0,
            r.handler is None,
    {
        Self::new(EndpointType::Null)
    }

    /// Whether a retry middleware is configured.
    pub fn has_retry_middleware(&self) -> (r: bool)
        ensures
            r == exists|i: int|
                0 <= i < self.middlewares@.len() && #[trigger] self.middlewares@[i] is Retry,
    {
        let mut i: usize = 0;
        while i < self.middlewares.len()
            invariant
                i <= self.middlewares@.len(),
                forall|j: int| 0 <= j < i ==> !(#[trigger] self.middlewares@[j] is Retry),
            decreases self.middlewares@.len() - i,
        {
            if matches!(self.middlewares[i], Middleware::Retry(_)) {
                return true;
            }
            i = i + 1;
        }
        false
    }

    /// Whether a dead-letter-queue middleware is configured.
    pub fn has_dlq_middleware(&self) -> (r: bool)
        ensures
            r == exists|i: int|
                0 <= i < self.middlewares@.len() && #[trigger] self.middlewares@[i] is Dlq,
    {
        let mut i: usize = 0;
        while i < self.middlewares.len()
            invariant
                i <= self.middlewares@.len(),
                forall|j: int| 0 <= j < i ==> !(#[trigger] self.middlewares@[j] is Dlq),
            decreases self.middlewares@.len() - i,
        {
            if matches!(self.middlewares[i], Middleware::Dlq(_)) {
                return true;
            }
            i = i + 1;
        }
        false
    }

    /// The endpoint with `middleware` added last.
    pub fn add_middleware(self, middleware: Middleware) -> (r: Self)
        ensures
            r.endpoint_type == self.endpoint_type,
            r.handler == self.handler,
            r.middlewares@ == self.middlewares@.push(middleware),
    {
        let mut e = self;
        e.middlewares.push(middleware);
        e
    }

    /// The endpoint with `middlewares` added last, in their order.
    pub fn add_middlewares(self, middlewares: Vec<Middleware>) -> (r: Self)
        ensures
            r.endpoint_type == self.endpoint_type,
            r.handler == self.handler,
            r.middlewares@ == self.middlewares@ + middlewares@,
    {
        let mut e = self;
        let mut more = middlewares;
        e.middlewares.append(&mut more);
        e
    }

    /// The endpoint with a retry placed inside any dead-letter queue and metrics: before the
    /// first of them, or last if there is none.
    pub fn with_retry(self, retry: RetryMiddleware) -> (r: Self)
        ensures
            r.endpoint_type == self.endpoint_type,
            r.handler == self.handler,
            exists|k: int|
                insertion_point(self.middlewares@, k, true) && r.middlewares@
                    == self.middlewares@.insert(k, Middleware::Retry(retry)),
    {
        let mut e = self;
        let k = insertion_index(&e.middlewares, true);
        e.middlewares.insert(k, Middleware::Retry(retry));
        e
    }

    /// The endpoint with a dead-letter queue placed inside any metrics middleware: before the
    /// first of them, or last if there is none.
    pub fn with_dlq(self, dlq: DeadLetterQueueMiddleware) -> (r: Self)
        ensures
            r.endpoint_type == self.endpoint_type,
            r.handler == self.handler,
            exists|k: int|
                insertion_point(self.middlewares@, k, false) && r.middlewares@
                    == self.middlewares@.insert(k, Middleware::Dlq(Box::new(dlq))),
    {
        let mut e = self;
        let k = insertion_index(&e.middlewares, false);
        e.middlewares.insert(k, Middleware::Dlq(Box::new(dlq)));
        e
    }

    /// The endpoint with deduplication first in the list, the innermost stage of a consumer.
    pub fn with_deduplication(self, dedup: DeduplicationMiddleware) -> (r: Self)
        ensures
            r.endpoint_type == self.endpoint_type,
            r.handler == self.handler,
            r.middlewares@ == self.middlewares@.insert(0, Middleware::Deduplication(dedup)),
    {
        let mut e = self;
        e.middlewares.insert(0, Middleware::Deduplication(dedup));
        e
    }

    /// The endpoint with metrics first in the list, the outermost stage of a consumer, unless
    /// a metrics middleware is already configured.
    pub fn with_consumer_metrics(self) -> (r: Self)
        ensures
            r.endpoint_type == self.endpoint_type,
            r.handler == self.handler,
            r.middlewares@ == metrics_prepended(self.middlewares@),
    {
        let mut e = self;
        if !holds_metrics(&e.middlewares) {
            e.middlewares.insert(0, Middleware::Metrics(MetricsMiddleware {  }));
        }
        e
    }

    /// The endpoint with metrics last in the list, the outermost stage of a publisher, unless
    /// a metrics middleware is already configured.
    pub fn with_metrics(self) -> (r: Self)
        ensures
            r.endpoint_type == self.endpoint_type,
            r.handler == self.handler,
            r.middlewares@ == metrics_appended(self.middlewares@),
    {
        let mut e = self;
        if !holds_metrics(&e.middlewares) {
            e.middlewares.push(Middleware::Metrics(MetricsMiddleware {  }));
        }
        e
    }
}

/// Adding a retry where `with_retry` adds it keeps a layered stack layered.
pub proof fn lemma_retry_keeps_layering(s: Seq<Middleware>, k: int, retry: RetryMiddleware)
    requires
        layered(s),
        insertion_point(s, k, true),
    ensures
        layered(s.insert(k, Middleware::Retry(retry))),
{
    let t = s.insert(k, Middleware::Retry(retry));
    assert forall|i: int, j: int| 0 <= i < j < t.len() implies !((outer_of_retry(#[trigger] t[i])
        && t[j] is Retry) || (outer_of_dlq(t[i]) && #[trigger] t[j] is Dlq)) by {
        if j < k {
            assert(t[i] == s[i] && t[j] == s[j]);
        } else if j == k {
            assert(t[i] == s[i]);
        } else if i == k {
            assert(t[j] == s[j - 1]);
        } else if i < k {
            assert(t[i] == s[i] && t[j] == s[j - 1]);
        } else {
            assert(t[i] == s[i - 1] && t[j] == s[j - 1]);
        }
    }
}

/// Adding a dead-letter queue where `with_dlq` adds it keeps a layered stack layered.
pub proof fn lemma_dlq_keeps_layering(s: Seq<Middleware>, k: int, dlq: DeadLetterQueueMiddleware)
    requires
        layered(s),
        insertion_point(s, k, false),
    ensures
        layered(s.insert(k, Middleware::Dlq(Box::new(dlq)))),
{
    let t = s.insert(k, Middleware::Dlq(Box::new(dlq)));
    assert forall|i: int, j: int| 0 <= i < j < t.len() implies !((outer_of_retry(#[trigger] t[i])
        && t[j] is Retry) || (outer_of_dlq(t[i]) && #[trigger] t[j] is Dlq)) by {
        if j < k {
            assert(t[i] == s[i] && t[j] == s[j]);
        } else if j == k {
            assert(t[i] == s[i]);
        } else if i == k {
            assert(t[j] == s[j - 1]);
            if s[j - 1] is Retry {
                assert(k < s.len());
                assert(outer_of_dlq(s[k]));
            }
        } else if i < k {
            assert(t[i] == s[i] && t[j] == s[j - 1]);
        } else {
            assert(t[i] == s[i - 1] && t[j] == s[j - 1]);
        }
    }
}

/// Adding metrics where `with_metrics` adds them keeps a layered stack layered.
pub proof fn lemma_metrics_keeps_layering(s: Seq<Middleware>)
    requires
        layered(s),
    ensures
        layered(metrics_appended(s)),
{
    let t = metrics_appended(s);
    assert forall|i: int, j: int| 0 <= i < j < t.len() implies !((outer_of_retry(#[trigger] t[i])
        && t[j] is Retry) || (outer_of_dlq(t[i]) && #[trigger] t[j] is Dlq)) by {
        if j < s.len() {
            assert(t[i] == s[i] && t[j] == s[j]);
        }
    }
}

/// Adding metrics twice is adding them once, for publishers and for consumers.
pub proof fn lemma_metrics_added_once(s: Seq<Middleware>)
    ensures
        metrics_appended(metrics_appended(s)) == metrics_appended(s),
        metrics_prepended(metrics_prepended(s)) == metrics_prepended(s),
{
    if !has_metrics(s) {
        let t = s.push(Middleware::Metrics(MetricsMiddleware {  }));
        assert(t[s.len() as int] is Metrics);
        let u = s.insert(0, Middleware::Metrics(MetricsMiddleware {  }));
        assert(u[0] is Metrics);
    }
}

} // verus!
