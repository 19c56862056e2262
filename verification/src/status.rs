//! What an endpoint reports of its health, and the report a caller gets when it asks a
//! worker thread and the worker does not answer.
use crate::text::concat2;
use vstd::prelude::*;
use vstd::string::*;

verus! {

/// An endpoint's health as it reports it.
#[derive(Debug)]
pub struct EndpointStatus {
    pub healthy: bool,
    /// The queue, topic or address the endpoint serves.
    pub target: String,
    /// Messages waiting, where the endpoint can tell.
    pub pending: Option<usize>,
    /// How many messages it can hold, where it can tell.
    pub capacity: Option<usize>,
    pub error: Option<String>,
}

/// An unhealthy report for `target` that names `error` and says nothing of depth.
pub open spec fn is_unhealthy_report(s: EndpointStatus, target: Seq<char>, error: Seq<char>) -> bool {
    &&& !s.healthy
    &&& s.target@ == target
    &&& s.pending is None
    &&& s.capacity is None
    &&& s.error matches Some(e) && e@ == error
}

/// The unhealthy report for `target` naming `error`.
pub fn unhealthy(target: &str, error: String) -> (r: EndpointStatus)
    ensures
        is_unhealthy_report(r, target@, error@),
{
    EndpointStatus { healthy: false, target: String::from_str(target), pending: None, capacity: None, error: Some(error) }
}

/// How a status request to a worker thread went.
#[derive(Debug)]
pub enum StatusExchange {
    /// The worker answered.
    Answered(EndpointStatus),
    /// The worker's job queue is closed.
    SendFailed,
    /// The job queue stayed full past the deadline.
    SendTimedOut,
    /// The worker dropped the request unanswered.
    ReplyDropped,
    /// No answer came before the deadline.
    ReplyTimedOut,
}

/// The error a status exchange that got no answer reports, for a worker called `worker`.
pub open spec fn exchange_error(exchange: StatusExchange, worker: Seq<char>) -> Seq<char> {
    match exchange {
        StatusExchange::Answered(_) => Seq::empty(),
        StatusExchange::SendFailed => worker + " thread disconnected"@,
        StatusExchange::SendTimedOut => "Status send timed out"@,
        StatusExchange::ReplyDropped => worker + " thread dropped status request"@,
        StatusExchange::ReplyTimedOut => "Status check timed out"@,
    }
}

/// The status an endpoint reports after asking its worker: the worker's answer, or an
/// unhealthy report for `target` that says how the exchange failed.
pub fn status_after_exchange(exchange: StatusExchange, worker: &str, target: &str) -> (r: EndpointStatus)
    ensures
        match exchange {
            StatusExchange::Answered(s) => r == s,
            _ => is_unhealthy_report(r, target@, exchange_error(exchange, worker@)),
        },
{
    match exchange {
        StatusExchange::Answered(s) => s,
        StatusExchange::SendFailed => unhealthy(target, concat2(worker, " thread disconnected")),
        StatusExchange::SendTimedOut => unhealthy(target, String::from_str("Status send timed out")),
        StatusExchange::ReplyDropped => unhealthy(target, concat2(worker, " thread dropped status request")),
        StatusExchange::ReplyTimedOut => unhealthy(target, String::from_str("Status check timed out")),
    }
}

} // verus!
