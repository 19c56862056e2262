//! What a publisher reports for a batch it sent message by message: every message acked, or
//! the replies it got and the messages that failed, each with its error.
use crate::message::CanonicalMessage;
use crate::publisher::PublisherError;
use crate::text::concat2;
use vstd::prelude::*;
use vstd::string::*;

verus! {

/// What sending one message gave.
#[derive(Debug)]
pub enum Sent {
    /// The message was taken.
    Ack,
    /// The message was answered with this reply.
    Response(CanonicalMessage),
}

/// What sending a batch gave.
#[derive(Debug)]
pub enum SentBatch {
    /// Every message was taken, none answered.
    Ack,
    /// Some messages were answered or failed.
    Partial {
        /// The replies, where there are any.
        responses: Option<Vec<CanonicalMessage>>,
        /// Each message that failed, with its error.
        failed: Vec<(CanonicalMessage, PublisherError)>,
    },
}

/// The replies among `outcomes`, in the order they came.
pub open spec fn responses_in(outcomes: Seq<(usize, Result<Sent, PublisherError>)>) -> Seq<CanonicalMessage>
    decreases outcomes.len(),
{
    if outcomes.len() == 0 {
        Seq::empty()
    } else {
        let before = responses_in(outcomes.drop_last());
        match outcomes.last().1 {
            Ok(Sent::Response(m)) => before.push(m),
            _ => before,
        }
    }
}

/// The failures among `outcomes`, in the order they came, each with the message of
/// `messages` it concerns.
pub open spec fn failures_in(
    messages: Seq<CanonicalMessage>,
    outcomes: Seq<(usize, Result<Sent, PublisherError>)>,
) -> Seq<(CanonicalMessage, PublisherError)>
    decreases outcomes.len(),
{
    if outcomes.len() == 0 {
        Seq::empty()
    } else {
        let before = failures_in(messages, outcomes.drop_last());
        match outcomes.last().1 {
            Err(e) => before.push((messages[outcomes.last().0 as int], e)),
            _ => before,
        }
    }
}

/// Whether every outcome names a message of the batch and no message failed twice.
pub open spec fn outcomes_fit(n: nat, outcomes: Seq<(usize, Result<Sent, PublisherError>)>) -> bool {
    &&& forall|k: int| 0 <= k < outcomes.len() ==> (#[trigger] outcomes[k]).0 < n
    &&& forall|a: int, b: int|
        0 <= a < b < outcomes.len() && (#[trigger] outcomes[a]).1 is Err && (#[trigger] outcomes[b]).1 is Err
            ==> outcomes[a].0 != outcomes[b].0
}

/// What a batch reports, given the replies and failures it met.
pub open spec fn batch_report(responses: Seq<CanonicalMessage>, failed: Seq<(CanonicalMessage, PublisherError)>, r: SentBatch) -> bool {
    if responses.len() == 0 && failed.len() == 0 {
        r is Ack
    } else {
        r matches SentBatch::Partial { responses: rs, failed: fs } && fs@ == failed && match rs {
            Some(v) => responses.len() > 0 && v@ == responses,
            None => responses.len() == 0,
        }
    }
}

fn reversed<T>(v: Vec<T>) -> (r: Vec<T>)
    ensures
        r@ == v@.reverse(),
{
    let mut rest = v;
    let mut out: Vec<T> = Vec::new();
    let ghost whole = rest@;
    while rest.len() > 0
        invariant
            whole == rest@ + out@.reverse(),
        decreases rest@.len(),
    {
        let ghost before_rest = rest@;
        let ghost before_out = out@;
        let x = rest.pop().unwrap();
        out.push(x);
        proof {
            assert(before_rest =~= rest@.push(x));
            assert(out@.reverse() =~= seq![x] + before_out.reverse());
            assert(whole =~= rest@ + out@.reverse());
        }
    }
    assert(whole =~= out@.reverse());
    assert(out@ =~= out@.reverse().reverse());
    out
}

fn into_slots(v: Vec<CanonicalMessage>) -> (r: Vec<Option<CanonicalMessage>>)
    ensures
        r@.len() == v@.len(),
        forall|j: int| 0 <= j < v@.len() ==> r@[j] == Some(#[trigger] v@[j]),
{
    let ghost whole = v@;
    let mut rev = reversed(v);
    let mut out: Vec<Option<CanonicalMessage>> = Vec::new();
    while rev.len() > 0
        invariant
            rev@.len() + out@.len() == whole.len(),
            forall|j: int| 0 <= j < rev@.len() ==> rev@[j] == whole[whole.len() - 1 - j],
            forall|j: int| 0 <= j < out@.len() ==> out@[j] == Some(#[trigger] whole[j]),
        decreases rev@.len(),
    {
        let m = rev.pop().unwrap();
        out.push(Some(m));
    }
    out
}

/// What a batch sent message by message reports, given each message's outcome as it came
/// (its place in the batch and what sending it gave): acked where nothing was answered and
/// nothing failed, else the replies (where any) and each failed message with its error.
pub fn sent_batch(messages: Vec<CanonicalMessage>, outcomes: Vec<(usize, Result<Sent, PublisherError>)>) -> (r: SentBatch)
    requires
        outcomes_fit(messages@.len(), outcomes@),
    ensures
        batch_report(responses_in(outcomes@), failures_in(messages@, outcomes@), r),
{
    let ghost msgs = messages@;
    let ghost outs = outcomes@;
    let n = outcomes.len();
    let mut slots = into_slots(messages);
    let mut pending = reversed(outcomes);
    let mut responses: Vec<CanonicalMessage> = Vec::new();
    let mut failed: Vec<(CanonicalMessage, PublisherError)> = Vec::new();
    let mut k: usize = 0;
    while pending.len() > 0
        invariant
            n == outs.len(),
            outcomes_fit(msgs.len(), outs),
            k + pending@.len() == n,
            forall|j: int| 0 <= j < pending@.len() ==> pending@[j] == outs[n - 1 - j],
            slots@.len() == msgs.len(),
            forall|i: int|
                0 <= i < msgs.len() ==> (#[trigger] slots@[i] == Some(msgs[i]) || (slots@[i] is None
                    && exists|j: int| 0 <= j < k && (#[trigger] outs[j]).0 == i && outs[j].1 is Err)),
            responses@ == responses_in(outs.subrange(0, k as int)),
            failed@ == failures_in(msgs, outs.subrange(0, k as int)),
        decreases pending@.len(),
    {
        let (idx, result) = pending.pop().unwrap();
        let ghost item = outs[k as int];
        assert(outs.subrange(0, k + 1).drop_last() =~= outs.subrange(0, k as int));
        assert(outs.subrange(0, k + 1).last() == item);
        match result {
            Ok(Sent::Ack) => {},
            Ok(Sent::Response(m)) => {
                responses.push(m);
            },
            Err(e) => {
                assert(slots@[idx as int] == Some(msgs[idx as int])) by {
                    if slots@[idx as int] is None {
                        let j = choose|j: int| 0 <= j < k && (#[trigger] outs[j]).0 == idx && outs[j].1 is Err;
                        assert(outs[j].0 != outs[k as int].0);
                    }
                }
                let slot = slots.remove(idx);
                slots.insert(idx, None);
                let m = slot.unwrap();
                failed.push((m, e));
                assert forall|i: int| 0 <= i < msgs.len() implies (#[trigger] slots@[i] == Some(msgs[i])
                    || (slots@[i] is None && exists|j: int| 0 <= j < k + 1 && (#[trigger] outs[j]).0 == i
                    && outs[j].1 is Err)) by {
                    if i == idx {
                        assert(outs[k as int].0 == i);
                    }
                }
            },
        }
        k = k + 1;
    }
    assert(outs.subrange(0, k as int) =~= outs);
    if responses.len() == 0 && failed.len() == 0 {
        SentBatch::Ack
    } else {
        SentBatch::Partial {
            responses: if responses.len() == 0 {
                None
            } else {
                Some(responses)
            },
            failed,
        }
    }
}

/// How waiting for one enqueued record's delivery went.
#[derive(Debug)]
pub enum Delivery {
    Delivered,
    /// The broker refused it, for this reason.
    Failed(String),
    /// The wait was dropped before an answer.
    Cancelled,
}

/// The error a delivery outcome reports, where it failed.
pub open spec fn delivery_error(d: Delivery) -> Option<Seq<char>> {
    match d {
        Delivery::Delivered => None,
        Delivery::Failed(e) => Some("Kafka delivery failed: "@ + e@),
        Delivery::Cancelled => Some("Kafka delivery future cancelled"@),
    }
}

/// A failure as plain values: the message and the text of a retryable error, or `None`
/// for an error not worth retrying.
pub open spec fn retry_view(f: (CanonicalMessage, PublisherError)) -> (CanonicalMessage, Option<Seq<char>>) {
    (
        f.0,
        match f.1 {
            PublisherError::Retryable(t) => Some(t@),
            PublisherError::NonRetryable(_) => None,
        },
    )
}

/// The failures of a batch sent in order, where records are enqueued one by one until one
/// is refused: the refused one and every one after it (not sent, to keep the order), then
/// each enqueued one whose delivery failed, in batch order. All are worth retrying.
pub open spec fn ordered_failures(
    messages: Seq<CanonicalMessage>,
    enqueued: nat,
    enqueue_error: Seq<char>,
    deliveries: Seq<Delivery>,
) -> Seq<(CanonicalMessage, Option<Seq<char>>)> {
    let refused = Seq::new(
        (messages.len() - enqueued) as nat,
        |i: int|
            (
                messages[enqueued + i],
                Some(
                    if i == 0 {
                        "Kafka enqueue failed: "@ + enqueue_error
                    } else {
                        "Batch aborted due to previous error"@
                    },
                ),
            ),
    );
    refused + delivery_failures(messages, deliveries, enqueued)
}

/// The delivery failures among the first `n` enqueued records, in order.
pub open spec fn delivery_failures(messages: Seq<CanonicalMessage>, deliveries: Seq<Delivery>, n: nat) -> Seq<
    (CanonicalMessage, Option<Seq<char>>),
>
    decreases n,
{
    if n == 0 {
        Seq::empty()
    } else {
        let before = delivery_failures(messages, deliveries, (n - 1) as nat);
        match delivery_error(deliveries[n - 1]) {
            Some(e) => before.push((messages[n - 1], Some(e))),
            None => before,
        }
    }
}

/// What a batch sent in order reports (see [`ordered_failures`]): acked where nothing
/// failed, else every failure and no replies. `enqueued` records were taken before
/// `enqueue_error` refused the next one (where any was refused), and `deliveries` says how
/// each taken one fared.
pub fn ordered_batch_report(
    messages: Vec<CanonicalMessage>,
    enqueued: usize,
    enqueue_error: Option<String>,
    deliveries: Vec<Delivery>,
) -> (r: SentBatch)
    requires
        enqueued <= messages@.len(),
        deliveries@.len() == enqueued,
        enqueue_error is None <==> enqueued == messages@.len(),
    ensures
        ({
            let fails = ordered_failures(
                messages@,
                enqueued as nat,
                match enqueue_error {
                    Some(e) => e@,
                    None => Seq::empty(),
                },
                deliveries@,
            );
            if fails.len() == 0 {
                r is Ack
            } else {
                r matches SentBatch::Partial { responses: None, failed } && failed@.map_values(
                    |f: (CanonicalMessage, PublisherError)| retry_view(f),
                ) == fails
            }
        }),
{
    let ghost msgs = messages@;
    let ghost ds = deliveries@;
    let ghost err_text = match enqueue_error {
        Some(ref e) => e@,
        None => Seq::<char>::empty(),
    };
    let ghost fails = ordered_failures(msgs, enqueued as nat, err_text, ds);
    let ghost refused_len = (msgs.len() - enqueued) as int;
    let n = messages.len();
    let mut slots = into_slots(messages);
    let mut failed: Vec<(CanonicalMessage, PublisherError)> = Vec::new();
    // The refused record and the ones after it come first.
    let mut i: usize = enqueued;
    while i < n
        invariant
            enqueued <= i <= n,
            n == msgs.len(),
            slots@.len() == n,
            forall|j: int| (0 <= j < enqueued || i <= j < n) ==> #[trigger] slots@[j] == Some(msgs[j]),
            err_text == match enqueue_error {
                Some(ref e) => e@,
                None => Seq::<char>::empty(),
            },
            fails == ordered_failures(msgs, enqueued as nat, err_text, ds),
            failed@.map_values(|f: (CanonicalMessage, PublisherError)| retry_view(f)) == fails.subrange(
                0,
                (i - enqueued) as int,
            ),
        decreases n - i,
    {
        let ghost before = failed@;
        let text = if i == enqueued {
            let mut t = String::from_str("Kafka enqueue failed: ");
            match &enqueue_error {
                Some(e) => t.append(e.as_str()),
                None => {},
            }
            t
        } else {
            String::from_str("Batch aborted due to previous error")
        };
        let slot = slots.remove(i);
        slots.insert(i, None);
        assert(slot == Some(msgs[i as int]));
        let msg = slot.unwrap();
        failed.push((msg, PublisherError::Retryable(text)));
        proof {
            assert(fails[(i - enqueued) as int] == retry_view((msg, PublisherError::Retryable(text))));
            assert(failed@.map_values(|f: (CanonicalMessage, PublisherError)| retry_view(f)) =~= before.map_values(
                |f: (CanonicalMessage, PublisherError)| retry_view(f),
            ).push(retry_view((msg, PublisherError::Retryable(text)))));
            assert(failed@.map_values(|f: (CanonicalMessage, PublisherError)| retry_view(f)) =~= fails.subrange(
                0,
                (i + 1 - enqueued) as int,
            ));
        }
        i = i + 1;
    }
    // Then each taken record whose delivery failed, in batch order.
    let mut k: usize = 0;
    while k < enqueued
        invariant
            k <= enqueued <= n,
            n == msgs.len(),
            deliveries@ == ds,
            ds.len() == enqueued,
            slots@.len() == n,
            forall|j: int| k <= j < enqueued ==> #[trigger] slots@[j] == Some(msgs[j]),
            fails == ordered_failures(msgs, enqueued as nat, err_text, ds),
            failed@.map_values(|f: (CanonicalMessage, PublisherError)| retry_view(f)) == fails.subrange(0, refused_len)
                + delivery_failures(msgs, ds, k as nat),
        decreases enqueued - k,
    {
        let ghost before = failed@;
        let text: Option<String> = match &deliveries[k] {
            Delivery::Delivered => None,
            Delivery::Failed(e) => Some(concat2("Kafka delivery failed: ", e.as_str())),
            Delivery::Cancelled => Some(String::from_str("Kafka delivery future cancelled")),
        };
        match text {
            Some(t) => {
                let slot = slots.remove(k);
                slots.insert(k, None);
                assert(slot == Some(msgs[k as int]));
                let msg = slot.unwrap();
                failed.push((msg, PublisherError::Retryable(t)));
                proof {
                    assert(failed@.map_values(|f: (CanonicalMessage, PublisherError)| retry_view(f)) =~= before.map_values(
                        |f: (CanonicalMessage, PublisherError)| retry_view(f),
                    ).push(retry_view((msg, PublisherError::Retryable(t)))));
                }
            },
            None => {},
        }
        k = k + 1;
    }
    assert(fails.subrange(0, refused_len) + delivery_failures(msgs, ds, enqueued as nat) =~= fails);
    if failed.len() == 0 {
        SentBatch::Ack
    } else {
        SentBatch::Partial { responses: None, failed }
    }
}

} // verus!
