//! The decisions of the IBM MQ worker threads. Each publisher and consumer owns a thread
//! that holds the queue-manager connection and takes jobs from a queue; the thread itself
//! (connecting, opening, getting, putting, committing) stays with the caller, which asks
//! these functions what to open, what a batch of gets amounts to, whether a settlement may
//! run, and when to reconnect.
use crate::message::{CanonicalMessage, Metadata};
use crate::models::IbmMqConfig;
use crate::response::MessageDisposition;
use crate::status::{is_unhealthy_report, EndpointStatus};
use crate::text::concat2;
use vstd::prelude::*;
use vstd::string::*;

verus! {

/// Seconds a worker waits before it tries to connect again.
pub const RECONNECT_DELAY_SECS: u64 = 1;

/// The metadata key under which a consumed message names the queue it was read from.
pub const IBMMQ_QUEUE_KEY: &'static str = "mqb.src.ibmmq_queue";

/// How many jobs a worker queues: the configured number, 100 where unset, at least one.
pub open spec fn queue_depth_of(size: Option<usize>) -> usize {
    match size {
        Some(n) => if n == 0 {
            1
        } else {
            n
        },
        None => 100,
    }
}

/// How many jobs a worker queues (see [`queue_depth_of`]).
pub fn job_queue_depth(size: Option<usize>) -> (r: usize)
    ensures
        r == queue_depth_of(size),
        r >= 1,
{
    match size {
        Some(n) => if n == 0 {
            1
        } else {
            n
        },
        None => 100,
    }
}

/// What a worker reports as its target: the queue, else the topic, else nothing.
pub open spec fn target_of(c: IbmMqConfig) -> Seq<char> {
    match c.queue {
        Some(q) => q@,
        None => match c.topic {
            Some(t) => t@,
            None => Seq::empty(),
        },
    }
}

/// What a worker reports as its target (see [`target_of`]).
pub fn mq_target(c: &IbmMqConfig) -> (r: String)
    ensures
        r@ == target_of(*c),
{
    match &c.queue {
        Some(q) => q.clone(),
        None => match &c.topic {
            Some(t) => t.clone(),
            None => String::new(),
        },
    }
}

/// Which side of a queue a worker serves.
#[derive(Debug, Clone, Copy, PartialEq, Eq, Structural)]
pub enum MqRole {
    Publisher,
    Consumer,
}

/// The word a role is named by in messages.
pub open spec fn role_word(role: MqRole) -> Seq<char> {
    match role {
        MqRole::Publisher => "publisher"@,
        MqRole::Consumer => "consumer"@,
    }
}

/// The object a worker opens once connected.
#[derive(Debug, PartialEq, Eq)]
pub enum MqObject {
    /// A topic: put to by a publisher, subscribed to (managed, non-durable) by a consumer.
    Topic(String),
    /// A queue, opened with the inquire option where status checks want its depth.
    Queue { name: String, inquire: bool },
}

/// The object a worker opens: the topic where one is set, else the queue, which is then
/// required; a queue is opened for inquiry unless status inquiry is disabled.
pub fn object_to_open(c: &IbmMqConfig, role: MqRole) -> (r: Result<MqObject, String>)
    ensures
        match c.topic {
            Some(t) => r matches Ok(MqObject::Topic(n)) && n@ == t@,
            None => match c.queue {
                Some(q) => r matches Ok(MqObject::Queue { name, inquire }) && name@ == q@ && inquire
                    == !c.disable_status_inq,
                None => r matches Err(e) && e@ == "Queue name is required for IBM MQ "@ + role_word(role),
            },
        },
{
    match &c.topic {
        Some(t) => Ok(MqObject::Topic(t.clone())),
        None => match &c.queue {
            Some(q) => Ok(MqObject::Queue { name: q.clone(), inquire: !c.disable_status_inq }),
            None => {
                let word = match role {
                    MqRole::Publisher => "publisher",
                    MqRole::Consumer => "consumer",
                };
                Err(concat2("Queue name is required for IBM MQ ", word))
            },
        },
    }
}

/// What a worker does when connecting or opening fails.
#[derive(Debug, PartialEq, Eq)]
pub enum ConnectStep {
    /// Report the failure to the caller that is waiting for the worker to start, and stop;
    /// the failure is worth retrying unless the client library is missing.
    FailStart { retryable: bool },
    /// Wait this many seconds and try again.
    RetryAfter(u64),
}

/// What a worker does when connecting or opening fails: while the caller still waits for
/// it to start, it reports the failure (not worth retrying when the client library is
/// missing, which will not fix itself) and stops; once running, it waits and retries.
pub fn after_connect_failure(starting: bool, library_missing: bool) -> (r: ConnectStep)
    ensures
        starting ==> r == (ConnectStep::FailStart { retryable: !library_missing }),
        !starting ==> r == ConnectStep::RetryAfter(RECONNECT_DELAY_SECS),
{
    if starting {
        ConnectStep::FailStart { retryable: !library_missing }
    } else {
        ConnectStep::RetryAfter(RECONNECT_DELAY_SECS)
    }
}

/// What one get from the queue gave.
#[derive(Debug)]
pub enum GetResult {
    /// A message with this body.
    Data(Vec<u8>),
    /// The get succeeded without a message.
    Nothing,
    /// The queue has no message available.
    NoMessage,
    /// The get failed, with this error.
    Failed(String),
}

/// The metadata a consumed message carries: the queue it was read from, where source
/// metadata is on and the worker reads a queue.
pub open spec fn read_metadata(queue: Option<Seq<char>>, source_metadata: bool) -> Map<Seq<char>, Seq<char>> {
    match queue {
        Some(q) => if source_metadata {
            Map::empty().insert(IBMMQ_QUEUE_KEY@, q)
        } else {
            Map::empty()
        },
        None => Map::empty(),
    }
}

/// A batch of gets under way: the messages read so far, how many gets were made, and how
/// the batch ended where it ended early.
#[derive(Debug)]
pub struct MqBatch {
    pub messages: Vec<CanonicalMessage>,
    pub attempts: usize,
    /// Set once a get finds the queue empty or fails.
    pub stopped: bool,
    /// The error of a failed get.
    pub failure: Option<String>,
}

/// How a batch of gets ended.
#[derive(Debug)]
pub enum BatchEnd {
    /// A get failed: back out what was read, answer with this error, and reconnect.
    Failed(String),
    /// Messages were read: hand them out under a commit that settles the syncpoint.
    Deliver(Vec<CanonicalMessage>),
    /// Nothing was read: answer with an empty batch that needs no commit.
    Empty,
}

impl MqBatch {
    /// A batch before its first get.
    pub fn new() -> (r: Self)
        ensures
            r.messages@.len() == 0,
            r.attempts == 0,
            !r.stopped,
            r.failure is None,
    {
        MqBatch { messages: Vec::new(), attempts: 0, stopped: false, failure: None }
    }

    /// Whether another get is due: the batch has not stopped and fewer than `max` gets were
    /// made.
    pub fn wants_more(&self, max: usize) -> (r: bool)
        ensures
            r == (!self.stopped && self.attempts < max),
    {
        !self.stopped && self.attempts < max
    }

    /// Takes what a get gave: a message is added (with the queue it came from where
    /// `source_metadata` is on), an empty queue stops the batch, a failure stops it with
    /// the error.
    pub fn take(&mut self, get: GetResult, queue: Option<&str>, source_metadata: bool)
        requires
            !old(self).stopped,
            old(self).attempts < usize::MAX,
        ensures
            final(self).attempts == old(self).attempts + 1,
            match get {
                GetResult::Data(d) => {
                    &&& final(self).messages@.len() == old(self).messages@.len() + 1
                    &&& final(self).messages@.drop_last() == old(self).messages@
                    &&& final(self).messages@.last().payload@ == d@
                    &&& final(self).messages@.last().metadata@ == read_metadata(
                        crate::http::opt_str_view(queue),
                        source_metadata,
                    )
                    &&& !final(self).stopped && final(self).failure == old(self).failure
                },
                GetResult::Nothing => final(self).messages@ == old(self).messages@ && !final(self).stopped
                    && final(self).failure == old(self).failure,
                GetResult::NoMessage => final(self).messages@ == old(self).messages@ && final(self).stopped
                    && final(self).failure == old(self).failure,
                GetResult::Failed(e) => final(self).messages@ == old(self).messages@ && final(self).stopped
                    && (final(self).failure matches Some(f) && f@ == "MQ get failed: "@ + e@),
            },
    {
        self.attempts = self.attempts + 1;
        match get {
            GetResult::Data(d) => {
                let mut message = CanonicalMessage::new(d, None);
                match queue {
                    Some(q) => {
                        if source_metadata {
                            message.metadata.insert(String::from_str(IBMMQ_QUEUE_KEY), String::from_str(q));
                        }
                    },
                    None => {},
                }
                let ghost before = self.messages@;
                self.messages.push(message);
                proof {
                    assert(self.messages@.drop_last() =~= before);
                }
            },
            GetResult::Nothing => {},
            GetResult::NoMessage => {
                self.stopped = true;
            },
            GetResult::Failed(e) => {
                self.stopped = true;
                self.failure = Some(concat2("MQ get failed: ", e.as_str()));
            },
        }
    }

    /// How the batch ended: a failed get fails it, whatever was read before; otherwise it
    /// delivers what was read, or is empty.
    pub fn finish(self) -> (r: BatchEnd)
        ensures
            match self.failure {
                Some(f) => r matches BatchEnd::Failed(e) && e@ == f@,
                None => if self.messages@.len() > 0 {
                    r matches BatchEnd::Deliver(ms) && ms@ == self.messages@
                } else {
                    r is Empty
                },
            },
    {
        match self.failure {
            Some(f) => BatchEnd::Failed(f),
            None => if self.messages.len() > 0 {
                BatchEnd::Deliver(self.messages)
            } else {
                BatchEnd::Empty
            },
        }
    }
}

/// How a delivered batch is settled, under the connection it was read on.
#[derive(Debug, Clone, Copy, PartialEq, Eq, Structural)]
pub enum SettleJob {
    Commit(u64),
    Backout(u64),
}

/// Whether any message of a batch was refused.
pub open spec fn any_nack(ds: Seq<MessageDisposition>) -> bool {
    exists|i: int| 0 <= i < ds.len() && ds[i] is Nack
}

/// How a batch read on connection `epoch` is settled: backed out where any message was
/// refused, else committed.
pub fn settle_job(dispositions: &Vec<MessageDisposition>, epoch: u64) -> (r: SettleJob)
    ensures
        r == if any_nack(dispositions@) {
            SettleJob::Backout(epoch)
        } else {
            SettleJob::Commit(epoch)
        },
{
    let mut i: usize = 0;
    while i < dispositions.len()
        invariant
            i <= dispositions@.len(),
            forall|j: int| 0 <= j < i ==> !(dispositions@[j] is Nack),
        decreases dispositions@.len() - i,
    {
        match &dispositions[i] {
            MessageDisposition::Nack => {
                return SettleJob::Backout(epoch);
            },
            _ => {},
        }
        i = i + 1;
    }
    SettleJob::Commit(epoch)
}

/// The word a settlement is named by in messages.
pub open spec fn settle_word(job: SettleJob) -> Seq<char> {
    match job {
        SettleJob::Commit(_) => "Commit"@,
        SettleJob::Backout(_) => "Backout"@,
    }
}

/// The connection a settlement belongs to.
pub open spec fn settle_epoch(job: SettleJob) -> u64 {
    match job {
        SettleJob::Commit(e) => e,
        SettleJob::Backout(e) => e,
    }
}

/// A consumer worker's state: which connection it is on, and whether that connection has
/// failed.
#[derive(Debug, PartialEq, Eq, Structural)]
pub struct ConsumerWorker {
    /// Counts connection attempts; a batch settles only on the connection it was read on.
    pub epoch: u64,
    pub connection_error: bool,
}

/// What a worker does after a job.
#[derive(Debug, PartialEq, Eq, Structural)]
pub enum WorkerStep {
    /// Take the next job.
    Continue,
    /// Back out whatever is open and connect again.
    BackoutAndReconnect,
}

impl ConsumerWorker {
    /// A worker before its first connection.
    pub fn new() -> (r: Self)
        ensures
            r.epoch == 0,
            !r.connection_error,
    {
        ConsumerWorker { epoch: 0, connection_error: false }
    }

    /// Starts a connection attempt: a new epoch, with no failure yet.
    pub fn begin_attempt(&mut self)
        requires
            old(self).epoch < u64::MAX,
        ensures
            final(self).epoch == old(self).epoch + 1,
            !final(self).connection_error,
    {
        self.epoch = self.epoch + 1;
        self.connection_error = false;
    }

    /// Whether a settlement may run: one from an earlier connection is refused, since its
    /// messages were backed out when that connection ended.
    pub fn stale_settlement(&self, job: SettleJob) -> (r: Option<String>)
        ensures
            settle_epoch(job) == self.epoch ==> r is None,
            settle_epoch(job) != self.epoch ==> (r matches Some(e) && e@ == settle_word(job)
                + " attempted for a stale connection after restart"@),
    {
        let (e, word) = match job {
            SettleJob::Commit(e) => (e, "Commit"),
            SettleJob::Backout(e) => (e, "Backout"),
        };
        if e == self.epoch {
            None
        } else {
            Some(concat2(word, " attempted for a stale connection after restart"))
        }
    }

    /// Records how a settlement went and gives the answer to its caller; a failed one marks
    /// the connection as failed.
    pub fn settled(&mut self, job: SettleJob, outcome: Result<(), String>) -> (r: Result<(), String>)
        ensures
            *final(self) == after_settle(*old(self), outcome is Ok),
            match outcome {
                Ok(()) => r is Ok,
                Err(e) => r matches Err(m) && m@ == settle_word(job) + " failed: "@ + e@,
            },
    {
        match outcome {
            Ok(()) => Ok(()),
            Err(e) => {
                self.connection_error = true;
                let word = match job {
                    SettleJob::Commit(_) => "Commit",
                    SettleJob::Backout(_) => "Backout",
                };
                let mut m = concat2(word, " failed: ");
                m.append(e.as_str());
                Err(m)
            },
        }
    }

    /// Records how a batch of gets ended: a failed one marks the connection as failed.
    pub fn batch_ended(&mut self, end: &BatchEnd)
        ensures
            final(self).epoch == old(self).epoch,
            final(self).connection_error == (old(self).connection_error || end is Failed),
    {
        match end {
            BatchEnd::Failed(_) => {
                self.connection_error = true;
            },
            _ => {},
        }
    }

    /// What to do after a job: reconnect once the connection has failed.
    pub fn after_job(&self) -> (r: WorkerStep)
        ensures
            r == step_of(*self),
    {
        if self.connection_error {
            WorkerStep::BackoutAndReconnect
        } else {
            WorkerStep::Continue
        }
    }
}

/// The worker after a settlement that succeeded (`ok`) or failed.
pub open spec fn after_settle(w: ConsumerWorker, ok: bool) -> ConsumerWorker {
    ConsumerWorker { epoch: w.epoch, connection_error: w.connection_error || !ok }
}

/// What a worker in state `w` does after a job.
pub open spec fn step_of(w: ConsumerWorker) -> WorkerStep {
    if w.connection_error {
        WorkerStep::BackoutAndReconnect
    } else {
        WorkerStep::Continue
    }
}

/// A settlement that fails sends the worker to back out and reconnect, whatever state it
/// was in.
pub proof fn lemma_failed_settlement_reconnects(w: ConsumerWorker)
    ensures
        step_of(after_settle(w, false)) == WorkerStep::BackoutAndReconnect,
{
}

/// Once the worker starts a new connection attempt, every settlement of a batch read on an
/// earlier connection is stale.
pub proof fn lemma_earlier_settlements_go_stale(job: SettleJob, epoch_before: u64)
    requires
        settle_epoch(job) <= epoch_before,
        epoch_before < u64::MAX,
    ensures
        settle_epoch(job) != epoch_before + 1,
{
}

/// Why an inquiry about a queue's state failed.
#[derive(Debug, Clone, Copy, PartialEq, Eq, Structural)]
pub enum InquiryFailure {
    /// The object was not opened for inquiry.
    NotOpenForInquire,
    /// The connection may not inquire.
    NotAuthorized,
    /// Anything else.
    Other,
}

/// Whether an inquiry failure leaves the endpoint healthy: an object opened without the
/// inquire option, or a connection without the right, still works.
pub open spec fn inquiry_failure_tolerated(f: InquiryFailure) -> bool {
    f is NotOpenForInquire || f is NotAuthorized
}

/// What a consumer worker reports: the queue depth and maximum depth where the inquiry
/// gave them; an inquiry failure that is not tolerated makes it unhealthy and names the
/// error.
pub fn consumer_status(c: &IbmMqConfig, inquiry: Result<(Option<usize>, Option<usize>), (InquiryFailure, String)>) -> (r: EndpointStatus)
    ensures
        r.target@ == target_of(*c),
        match inquiry {
            Ok((depth, max)) => r.healthy && r.pending == depth && r.capacity == max && r.error is None,
            Err((f, e)) => r.pending is None && r.capacity is None && if inquiry_failure_tolerated(f) {
                r.healthy && r.error is None
            } else {
                !r.healthy && (r.error matches Some(m) && m@ == "Failed to inquire queue status: "@ + e@)
            },
        },
{
    let target = mq_target(c);
    match inquiry {
        Ok((depth, max)) => EndpointStatus { healthy: true, target, pending: depth, capacity: max, error: None },
        Err((f, e)) => match f {
            InquiryFailure::NotOpenForInquire | InquiryFailure::NotAuthorized => EndpointStatus {
                healthy: true,
                target,
                pending: None,
                capacity: None,
                error: None,
            },
            InquiryFailure::Other => EndpointStatus {
                healthy: false,
                target,
                pending: None,
                capacity: None,
                error: Some(concat2("Failed to inquire queue status: ", e.as_str())),
            },
        },
    }
}

/// What a publisher worker reports: its job-queue depth as capacity, and, where the
/// inquiry of its object failed in a way that is not tolerated, that error.
pub fn publisher_status(c: &IbmMqConfig, inquiry: Result<(), (InquiryFailure, String)>) -> (r: EndpointStatus)
    ensures
        r.target@ == target_of(*c),
        r.pending is None,
        r.capacity == Some(queue_depth_of(c.internal_buffer_size)),
        match inquiry {
            Ok(()) => r.healthy && r.error is None,
            Err((f, e)) => if inquiry_failure_tolerated(f) {
                r.healthy && r.error is None
            } else {
                !r.healthy && (r.error matches Some(m) && m@ == "Failed to inquire object status: "@ + e@)
            },
        },
{
    let target = mq_target(c);
    let capacity = Some(job_queue_depth(c.internal_buffer_size));
    match inquiry {
        Err((InquiryFailure::Other, e)) => EndpointStatus {
            healthy: false,
            target,
            pending: None,
            capacity,
            error: Some(concat2("Failed to inquire object status: ", e.as_str())),
        },
        _ => EndpointStatus { healthy: true, target, pending: None, capacity, error: None },
    }
}

/// How a publisher's batch ended: the answer to its caller, and whether the syncpoint is
/// backed out.
#[derive(Debug)]
pub struct PublishEnd {
    pub result: Result<(), String>,
    pub backout: bool,
}

/// How a publisher's batch ends, given the first put that failed (if any) and, where every
/// put succeeded, how the commit went: a failed put or commit fails the batch and backs
/// out the syncpoint; otherwise the batch is acknowledged. A failed batch sends the worker
/// to reconnect.
pub fn publish_outcome(put_failure: Option<String>, commit: Result<(), String>) -> (r: PublishEnd)
    ensures
        match put_failure {
            Some(e) => r.backout && (r.result matches Err(m) && m@ == "MQ put failed: "@ + e@),
            None => match commit {
                Ok(()) => !r.backout && r.result is Ok,
                Err(e) => r.backout && (r.result matches Err(m) && m@ == "MQ commit failed: "@ + e@),
            },
        },
{
    match put_failure {
        Some(e) => PublishEnd { result: Err(concat2("MQ put failed: ", e.as_str())), backout: true },
        None => match commit {
            Ok(()) => PublishEnd { result: Ok(()), backout: false },
            Err(e) => PublishEnd { result: Err(concat2("MQ commit failed: ", e.as_str())), backout: true },
        },
    }
}

/// What a publisher worker answers to the jobs still queued when its connection failed:
/// each batch is refused, each status request is unhealthy.
pub fn reconnecting_batch_error() -> (r: String)
    ensures
        r@ == "MQ publisher reconnecting, batch rejected"@,
{
    String::from_str("MQ publisher reconnecting, batch rejected")
}

/// The status a publisher worker reports while it reconnects.
pub fn reconnecting_status(c: &IbmMqConfig) -> (r: EndpointStatus)
    ensures
        is_unhealthy_report(r, target_of(*c), "Publisher reconnecting"@),
{
    let target = mq_target(c);
    EndpointStatus {
        healthy: false,
        target,
        pending: None,
        capacity: None,
        error: Some(String::from_str("Publisher reconnecting")),
    }
}

} // verus!
