//! What a Kafka consumer decides around each batch: when a batch fails, is empty or is
//! delivered; what it commits and which replies it publishes once the batch is settled;
//! and, in drain mode, whether every partition has been read to the end it had when the
//! drain began.
use crate::kafka::{drain_offset_reached, lemma_slot_from, slot_from};
use crate::kafka_batch::{opt_view, BatchParts, PrefetchError};
use crate::message::CanonicalMessage;
use crate::mq_worker::any_nack;
use crate::response::MessageDisposition;
use crate::text::str_eq;
use vstd::prelude::*;
use vstd::string::*;

verus! {

/// What becomes of an assembled batch.
#[derive(Debug)]
pub enum BatchVerdict {
    /// The stream ended before any record: the error ends the route.
    Fail(PrefetchError),
    /// Nothing arrived.
    Empty,
    /// These records go downstream (the error that ended the stream, if any, is held for
    /// the next call).
    Deliver(BatchParts),
}

/// What becomes of an assembled batch: an error with no record before it fails the call; an
/// error after records is held in `pending` for the next call, and the records are
/// delivered; a batch without records is empty.
pub fn settle_parts(parts: BatchParts, pending: &mut Option<PrefetchError>) -> (r: BatchVerdict)
    ensures
        match parts.terminal {
            Some(t) => if parts.messages@.len() == 0 {
                r == BatchVerdict::Fail(t) && *final(pending) == *old(pending)
            } else {
                *final(pending) == Some(t) && (r matches BatchVerdict::Deliver(p) && p.messages@
                    == parts.messages@ && p.offsets@ == parts.offsets@ && p.reply_infos@
                    == parts.reply_infos@ && p.terminal is None)
            },
            None => *final(pending) == *old(pending) && if parts.messages@.len() == 0 {
                r is Empty
            } else {
                r matches BatchVerdict::Deliver(p) && p.messages@ == parts.messages@ && p.offsets@
                    == parts.offsets@ && p.reply_infos@ == parts.reply_infos@ && p.terminal is None
            },
        },
{
    let BatchParts { messages, offsets, reply_infos, terminal } = parts;
    match terminal {
        Some(t) => {
            if messages.len() == 0 {
                BatchVerdict::Fail(t)
            } else {
                *pending = Some(t);
                BatchVerdict::Deliver(BatchParts { messages, offsets, reply_infos, terminal: None })
            }
        },
        None => {
            if messages.len() == 0 {
                BatchVerdict::Empty
            } else {
                BatchVerdict::Deliver(BatchParts { messages, offsets, reply_infos, terminal: None })
            }
        },
    }
}

/// The furthest offsets handed downstream after `offset` for `partition` of `topic` is: the
/// larger of it and what was held for that partition, or a new entry.
pub open spec fn raised(old: Seq<(String, i32, i64)>, new: Seq<(String, i32, i64)>, topic: Seq<char>, partition: i32, offset: i64) -> bool {
    match slot_from(old, topic, partition, 0) {
        Some(i) => new == old.update(i, (old[i].0, partition, if old[i].2 >= offset { old[i].2 } else { offset })),
        None => new.len() == old.len() + 1 && new.drop_last() == old && new.last().0@ == topic
            && new.last().1 == partition && new.last().2 == offset,
    }
}

/// Raises the offset held for `partition` of `topic` to `offset`, where it is below it.
pub fn raise_offset(offsets: &mut Vec<(String, i32, i64)>, topic: &str, partition: i32, offset: i64)
    ensures
        raised(old(offsets)@, final(offsets)@, topic@, partition, offset),
{
    let mut i: usize = 0;
    while i < offsets.len()
        invariant
            offsets@ == old(offsets)@,
            i <= offsets@.len(),
            slot_from(offsets@, topic@, partition, 0) == slot_from(offsets@, topic@, partition, i as nat),
        decreases offsets@.len() - i,
    {
        if offsets[i].1 == partition && str_eq(offsets[i].0.as_str(), topic) {
            let held = offsets[i].2;
            let t = offsets[i].0.clone();
            let top = if held >= offset {
                held
            } else {
                offset
            };
            offsets.set(i, (t, partition, top));
            return;
        }
        i = i + 1;
    }
    assert(slot_from(offsets@, topic@, partition, i as nat) is None);
    offsets.push((String::from_str(topic), partition, offset));
    assert(offsets@.drop_last() =~= old(offsets)@);
}

/// Whether `after` holds at least what `before` held.
pub open spec fn not_lower(before: Option<i64>, after: Option<i64>) -> bool {
    before matches Some(a) ==> (after matches Some(b) && b >= a)
}

/// The offset held for `partition` of `topic`, where one is.
pub open spec fn held_offset(s: Seq<(String, i32, i64)>, topic: Seq<char>, partition: i32) -> Option<i64> {
    match slot_from(s, topic, partition, 0) {
        Some(i) => Some(s[i].2),
        None => None,
    }
}

/// The offset held for `partition` of `topic` (see [`held_offset`]).
pub fn offset_held(offsets: &Vec<(String, i32, i64)>, topic: &str, partition: i32) -> (r: Option<i64>)
    ensures
        r == held_offset(offsets@, topic@, partition),
{
    let mut i: usize = 0;
    while i < offsets.len()
        invariant
            i <= offsets@.len(),
            slot_from(offsets@, topic@, partition, 0) == slot_from(offsets@, topic@, partition, i as nat),
        decreases offsets@.len() - i,
    {
        if offsets[i].1 == partition && str_eq(offsets[i].0.as_str(), topic) {
            return Some(offsets[i].2);
        }
        i = i + 1;
    }
    None
}

/// Two offset lists with the same partitions at the same places look each partition up at
/// the same place.
proof fn lemma_slot_same_keys(s: Seq<(String, i32, i64)>, u: Seq<(String, i32, i64)>, topic: Seq<char>, partition: i32, i: nat)
    requires
        s.len() == u.len(),
        forall|k: int| 0 <= k < s.len() ==> (#[trigger] s[k]).1 == u[k].1 && s[k].0@ == u[k].0@,
    ensures
        slot_from(s, topic, partition, i) == slot_from(u, topic, partition, i),
    decreases s.len() - i,
{
    if i < s.len() {
        lemma_slot_same_keys(s, u, topic, partition, i + 1);
    }
}

/// Looking a partition up in a list with one entry added last finds what the shorter list
/// finds, else the added entry where it is for that partition.
proof fn lemma_slot_pushed(s: Seq<(String, i32, i64)>, u: Seq<(String, i32, i64)>, topic: Seq<char>, partition: i32, i: nat)
    requires
        u.len() == s.len() + 1,
        u.drop_last() == s,
        i <= s.len(),
    ensures
        slot_from(u, topic, partition, i) == match slot_from(s, topic, partition, i) {
            Some(k) => Some(k),
            None => if u.last().1 == partition && u.last().0@ == topic {
                Some(s.len() as int)
            } else {
                None
            },
        },
    decreases s.len() - i,
{
    assert(u[s.len() as int] == u.last());
    if i < s.len() {
        assert(u[i as int] == s[i as int]) by {
            assert(u.drop_last()[i as int] == u[i as int]);
        }
        lemma_slot_pushed(s, u, topic, partition, i + 1);
    }
}

/// Raising an offset never lowers what is held for any partition, and the partition raised
/// holds at least the new offset afterwards.
pub proof fn lemma_raise_never_lowers(
    old: Seq<(String, i32, i64)>,
    new: Seq<(String, i32, i64)>,
    topic: Seq<char>,
    partition: i32,
    offset: i64,
    t2: Seq<char>,
    p2: i32,
)
    requires
        raised(old, new, topic, partition, offset),
    ensures
        held_offset(new, topic, partition) matches Some(h) && h >= offset,
        not_lower(held_offset(old, t2, p2), held_offset(new, t2, p2)),
{
    lemma_slot_from(old, topic, partition, 0);
    match slot_from(old, topic, partition, 0) {
        Some(i) => {
            lemma_slot_same_keys(old, new, topic, partition, 0);
            lemma_slot_same_keys(old, new, t2, p2, 0);
            lemma_slot_from(old, t2, p2, 0);
            if let Some(a) = slot_from(old, t2, p2, 0) {
                if a != i {
                    assert(new[a] == old[a]);
                }
            }
        },
        None => {
            lemma_slot_pushed(old, new, topic, partition, 0);
            lemma_slot_pushed(old, new, t2, p2, 0);
            lemma_slot_from(old, t2, p2, 0);
            if let Some(a) = slot_from(old, t2, p2, 0) {
                assert(new[a] == old[a]) by {
                    assert(new.drop_last()[a] == new[a]);
                }
            }
        },
    }
}

/// Records, in drain mode, how far each partition of a delivered batch has been handed
/// downstream: each offset of the batch raises the one held for its partition.
pub fn note_delivered(delivered: &mut Vec<(String, i32, i64)>, batch_offsets: &Vec<(String, i32, i64)>)
    ensures
        forall|k: int|
            0 <= k < batch_offsets@.len() ==> (held_offset(
                final(delivered)@,
                (#[trigger] batch_offsets@[k]).0@,
                batch_offsets@[k].1,
            ) matches Some(h) && h >= batch_offsets@[k].2),
        forall|t: Seq<char>, p: i32|
            not_lower(#[trigger] held_offset(old(delivered)@, t, p), held_offset(final(delivered)@, t, p)),
{
    let mut i: usize = 0;
    while i < batch_offsets.len()
        invariant
            i <= batch_offsets@.len(),
            forall|k: int|
                0 <= k < i ==> (held_offset(
                    delivered@,
                    (#[trigger] batch_offsets@[k]).0@,
                    batch_offsets@[k].1,
                ) matches Some(h) && h >= batch_offsets@[k].2),
            forall|t: Seq<char>, p: i32|
                not_lower(#[trigger] held_offset(old(delivered)@, t, p), held_offset(delivered@, t, p)),
        decreases batch_offsets@.len() - i,
    {
        let ghost before = delivered@;
        raise_offset(delivered, batch_offsets[i].0.as_str(), batch_offsets[i].1, batch_offsets[i].2);
        proof {
            let tk = batch_offsets@[i as int].0@;
            let pk = batch_offsets@[i as int].1;
            let ok = batch_offsets@[i as int].2;
            lemma_raise_never_lowers(before, delivered@, tk, pk, ok, tk, pk);
            assert forall|k: int|
                0 <= k < i + 1 implies (held_offset(
                delivered@,
                (#[trigger] batch_offsets@[k]).0@,
                batch_offsets@[k].1,
            ) matches Some(h) && h >= batch_offsets@[k].2) by {
                lemma_raise_never_lowers(
                    before,
                    delivered@,
                    tk,
                    pk,
                    ok,
                    batch_offsets@[k].0@,
                    batch_offsets@[k].1,
                );
            }
            assert forall|t: Seq<char>, p: i32|
                not_lower(#[trigger] held_offset(old(delivered)@, t, p), held_offset(delivered@, t, p)) by {
                lemma_raise_never_lowers(before, delivered@, tk, pk, ok, t, p);
                assert(not_lower(held_offset(old(delivered)@, t, p), held_offset(before, t, p)));
            }
        }
        i = i + 1;
    }
}

/// What settling a delivered batch does: whether it trips the consumer's nack latch, and
/// whether it commits the batch's offsets.
#[derive(Debug, PartialEq, Eq)]
pub struct SettleDecision {
    pub trip_latch: bool,
    pub commit: bool,
}

/// How a delivered batch is settled: a refused message trips the nack latch, and once the
/// latch has tripped nothing more is committed (the refused records must be read again);
/// otherwise a batch with records commits its offsets.
pub fn settle_decision(latch_tripped: bool, dispositions: &Vec<MessageDisposition>, messages_len: usize) -> (r: SettleDecision)
    ensures
        r.trip_latch == any_nack(dispositions@),
        r.commit == (!latch_tripped && !any_nack(dispositions@) && messages_len > 0),
{
    let mut nack = false;
    let mut i: usize = 0;
    while i < dispositions.len()
        invariant
            i <= dispositions@.len(),
            nack == exists|j: int| 0 <= j < i && (#[trigger] dispositions@[j]) is Nack,
        decreases dispositions@.len() - i,
    {
        match &dispositions[i] {
            MessageDisposition::Nack => {
                nack = true;
            },
            _ => {},
        }
        i = i + 1;
    }
    SettleDecision { trip_latch: nack, commit: !latch_tripped && !nack && messages_len > 0 }
}

/// A reply to publish: its topic, its body, and the correlation id it carries as a header.
#[derive(Debug)]
pub struct ReplyRecord {
    pub topic: String,
    pub payload: Vec<u8>,
    pub correlation_id: Option<String>,
}

/// A reply as plain values.
pub type ReplyView = (Seq<char>, Seq<u8>, Option<Seq<char>>);

/// The replies the first `n` messages of a batch ask for: each message answered with a
/// reply and carrying a `reply_to` gets one, to that topic, with its correlation id.
pub open spec fn replies_upto(
    infos: Seq<(Option<Seq<char>>, Option<Seq<char>>)>,
    ds: Seq<MessageDisposition>,
    n: nat,
) -> Seq<ReplyView>
    decreases n,
{
    if n == 0 {
        Seq::empty()
    } else {
        let before = replies_upto(infos, ds, (n - 1) as nat);
        match (infos[n - 1].0, ds[n - 1]) {
            (Some(rt), MessageDisposition::Reply(resp)) => before.push((rt, resp.payload@, infos[n - 1].1)),
            _ => before,
        }
    }
}

/// The positions `0..n` of a batch, in order.
pub open spec fn positions(n: nat) -> Seq<int> {
    Seq::new(n, |i: int| i)
}

/// Whether message `i` of a batch is answered: it names a reply topic and its disposition
/// is a reply.
pub open spec fn answered(
    infos: Seq<(Option<Seq<char>>, Option<Seq<char>>)>,
    ds: Seq<MessageDisposition>,
) -> spec_fn(int) -> bool {
    |i: int| infos[i].0 is Some && ds[i] is Reply
}

/// The reply message `i` sends: to its reply topic, the reply's payload, carrying its
/// correlation id.
pub open spec fn answer(
    infos: Seq<(Option<Seq<char>>, Option<Seq<char>>)>,
    ds: Seq<MessageDisposition>,
) -> spec_fn(int) -> ReplyView {
    |i: int| (infos[i].0->0, ds[i]->Reply_0.payload@, infos[i].1)
}

/// A settled batch publishes one reply for each of its first `n` messages that names a
/// reply topic and is answered with a reply, in message order, and no other: the replies
/// are the answered positions, each turned into its reply.
pub proof fn lemma_each_answered_message_gets_its_reply(
    infos: Seq<(Option<Seq<char>>, Option<Seq<char>>)>,
    ds: Seq<MessageDisposition>,
    n: nat,
)
    requires
        n <= infos.len(),
        n <= ds.len(),
    ensures
        replies_upto(infos, ds, n) == positions(n).filter(answered(infos, ds)).map_values(answer(infos, ds)),
        replies_upto(infos, ds, n).len() == positions(n).filter(answered(infos, ds)).len(),
    decreases n,
{
    if n == 0 {
        assert(positions(0) =~= Seq::<int>::empty());
        reveal(Seq::filter);
        assert(positions(0).filter(answered(infos, ds)) =~= Seq::<int>::empty());
        assert(positions(0).filter(answered(infos, ds)).map_values(answer(infos, ds)) =~= Seq::<ReplyView>::empty());
    } else {
        let k = (n - 1) as nat;
        lemma_each_answered_message_gets_its_reply(infos, ds, k);
        assert(positions(n) =~= positions(k).push(k as int));
        positions(k).lemma_filter_push(k as int, answered(infos, ds));
        let before = positions(k).filter(answered(infos, ds));
        if answered(infos, ds)(k as int) {
            assert(before.push(k as int).map_values(answer(infos, ds)) =~= before.map_values(answer(infos, ds)).push(
                answer(infos, ds)(k as int),
            ));
            match (infos[k as int].0, ds[k as int]) {
                (Some(rt), MessageDisposition::Reply(resp)) => {},
                _ => {},
            }
        } else {
            match (infos[k as int].0, ds[k as int]) {
                (Some(rt), MessageDisposition::Reply(resp)) => {},
                _ => {},
            }
        }
    }
}

/// The reply targets of a batch as plain values.
pub open spec fn infos_view(v: Seq<(Option<String>, Option<String>)>) -> Seq<(Option<Seq<char>>, Option<Seq<char>>)> {
    v.map_values(|r: (Option<String>, Option<String>)| (opt_view(r.0), opt_view(r.1)))
}

/// A reply record as plain values.
pub open spec fn reply_view(r: ReplyRecord) -> ReplyView {
    (r.topic@, r.payload@, opt_view(r.correlation_id))
}

/// The replies a settled batch publishes: message by message, as far as both the batch's
/// reply targets and the dispositions go (see [`replies_upto`]).
pub fn kafka_replies(reply_infos: &Vec<(Option<String>, Option<String>)>, dispositions: &Vec<MessageDisposition>) -> (r: Vec<ReplyRecord>)
    ensures
        r@.map_values(|x: ReplyRecord| reply_view(x)) == replies_upto(
            infos_view(reply_infos@),
            dispositions@,
            if reply_infos@.len() <= dispositions@.len() {
                reply_infos@.len()
            } else {
                dispositions@.len()
            },
        ),
        ({
            let n: nat = if reply_infos@.len() <= dispositions@.len() {
                reply_infos@.len()
            } else {
                dispositions@.len()
            };
            let (infos, ds) = (infos_view(reply_infos@), dispositions@);
            &&& r@.map_values(|x: ReplyRecord| reply_view(x)) == positions(n).filter(answered(infos, ds)).map_values(
                answer(infos, ds),
            )
            &&& r@.len() == positions(n).filter(answered(infos, ds)).len()
        }),
{
    proof {
        let n: nat = if reply_infos@.len() <= dispositions@.len() {
            reply_infos@.len()
        } else {
            dispositions@.len()
        };
        lemma_each_answered_message_gets_its_reply(infos_view(reply_infos@), dispositions@, n);
    }
    let n = if reply_infos.len() <= dispositions.len() {
        reply_infos.len()
    } else {
        dispositions.len()
    };
    let mut out: Vec<ReplyRecord> = Vec::new();
    let mut i: usize = 0;
    while i < n
        invariant
            n <= reply_infos@.len(),
            n <= dispositions@.len(),
            i <= n,
            out@.map_values(|x: ReplyRecord| reply_view(x)) == replies_upto(infos_view(reply_infos@), dispositions@, i as nat),
        decreases n - i,
    {
        let ghost before = out@;
        let info = &reply_infos[i];
        assert(infos_view(reply_infos@)[i as int] == (opt_view(info.0), opt_view(info.1)));
        match (&info.0, &dispositions[i]) {
            (Some(rt), MessageDisposition::Reply(resp)) => {
                let record = ReplyRecord {
                    topic: rt.clone(),
                    payload: resp.payload.clone(),
                    correlation_id: match &info.1 {
                        Some(c) => Some(c.clone()),
                        None => None,
                    },
                };
                out.push(record);
                assert(out@.map_values(|x: ReplyRecord| reply_view(x)) =~= before.map_values(
                    |x: ReplyRecord| reply_view(x),
                ).push(reply_view(record)));
            },
            _ => {},
        }
        i = i + 1;
    }
    out
}

/// How long a failed watermark lookup holds further lookups off, in milliseconds.
pub const WATERMARK_RETRY_BACKOFF_MS: u64 = 5000;

/// What a drain knows of its partitions: the end each must reach (read from the broker
/// once), how far each has been handed downstream, and until when a failed lookup holds
/// further ones off.
#[derive(Debug)]
pub struct DrainState {
    pub targets: Vec<(String, i32, i64)>,
    pub delivered: Vec<(String, i32, i64)>,
    /// A monotonic clock reading, in milliseconds.
    pub watermark_retry_at_ms: Option<u64>,
}

/// How to find the end a partition must reach.
#[derive(Debug, PartialEq, Eq)]
pub enum TargetLookup {
    /// It was read before.
    Known(i64),
    /// A recent lookup failed: count the partition as not drained without asking.
    BackingOff,
    /// Ask the broker for its high watermark.
    Fetch,
}

/// How a drain's idle wait goes on.
#[derive(Debug, PartialEq, Eq)]
pub enum IdleStep {
    /// Every partition has reached its end: the source is drained.
    Drained,
    /// The consumer never became ready before the deadline: treat the source as empty.
    GiveUp,
    /// Wait for records again.
    Wait,
}

/// Where a drain stands.
#[derive(Debug, Clone, Copy, PartialEq, Eq, Structural)]
pub enum DrainReadiness {
    /// No partitions are assigned yet.
    NotStarted,
    /// Some partition has not reached its end, or where it stands is unknown.
    Starting,
    /// Every assigned partition has reached its end.
    Drained,
}

/// How a drain's idle wait goes on: drained when every partition has reached its end; else
/// it gives up at the deadline, and waits before it.
pub fn idle_step(readiness: DrainReadiness, now_ms: u64, deadline_ms: u64) -> (r: IdleStep)
    ensures
        r == if readiness == DrainReadiness::Drained {
            IdleStep::Drained
        } else if now_ms >= deadline_ms {
            IdleStep::GiveUp
        } else {
            IdleStep::Wait
        },
{
    match readiness {
        DrainReadiness::Drained => IdleStep::Drained,
        _ => if now_ms >= deadline_ms {
            IdleStep::GiveUp
        } else {
            IdleStep::Wait
        },
    }
}

impl DrainState {
    /// A drain that knows nothing yet.
    pub fn new() -> (r: Self)
        ensures
            r.targets@.len() == 0,
            r.delivered@.len() == 0,
            r.watermark_retry_at_ms is None,
    {
        DrainState { targets: Vec::new(), delivered: Vec::new(), watermark_retry_at_ms: None }
    }

    /// How to find the end `partition` of `topic` must reach at clock reading `now_ms`: the
    /// end read before, else nothing while a failed lookup holds lookups off, else a fetch.
    pub fn target_lookup(&self, topic: &str, partition: i32, now_ms: u64) -> (r: TargetLookup)
        ensures
            r == match held_offset(self.targets@, topic@, partition) {
                Some(h) => TargetLookup::Known(h),
                None => if self.watermark_retry_at_ms matches Some(at) && now_ms < at {
                    TargetLookup::BackingOff
                } else {
                    TargetLookup::Fetch
                },
            },
    {
        match offset_held(&self.targets, topic, partition) {
            Some(h) => TargetLookup::Known(h),
            None => match self.watermark_retry_at_ms {
                Some(at) => if now_ms < at {
                    TargetLookup::BackingOff
                } else {
                    TargetLookup::Fetch
                },
                None => TargetLookup::Fetch,
            },
        }
    }

    /// Records a watermark lookup made at `now_ms`: a high watermark becomes the
    /// partition's end and lifts any hold-off; a failure holds further lookups off for
    /// [`WATERMARK_RETRY_BACKOFF_MS`]. Gives the end, where there is one.
    pub fn watermark_fetched(&mut self, topic: &str, partition: i32, high: Option<i64>, now_ms: u64) -> (r: Option<i64>)
        ensures
            r == high,
            final(self).delivered@ == old(self).delivered@,
            match high {
                Some(h) => final(self).watermark_retry_at_ms is None && crate::kafka::offset_recorded(
                    old(self).targets@,
                    final(self).targets@,
                    topic@,
                    partition,
                    h,
                ),
                None => final(self).targets@ == old(self).targets@ && final(self).watermark_retry_at_ms
                    == Some(
                    if now_ms + WATERMARK_RETRY_BACKOFF_MS > u64::MAX {
                        u64::MAX
                    } else {
                        (now_ms + WATERMARK_RETRY_BACKOFF_MS) as u64
                    },
                ),
            },
    {
        match high {
            Some(h) => {
                self.watermark_retry_at_ms = None;
                crate::kafka::record_offset(&mut self.targets, topic, partition, h);
                Some(h)
            },
            None => {
                let at = if now_ms > u64::MAX - WATERMARK_RETRY_BACKOFF_MS {
                    u64::MAX
                } else {
                    now_ms + WATERMARK_RETRY_BACKOFF_MS
                };
                self.watermark_retry_at_ms = Some(at);
                None
            },
        }
    }

    /// Whether `partition` of `topic` has reached its end `high`, by what was handed
    /// downstream or by the end-of-partition positions `eof` (see [`drain_offset_reached`]).
    pub fn partition_drained(&self, topic: &str, partition: i32, high: i64, eof: &Vec<(String, i32, i64)>) -> (r: bool)
        ensures
            r == (high == 0 || (held_offset(self.delivered@, topic@, partition) matches Some(d) && d >= high)
                || (held_offset(eof@, topic@, partition) matches Some(e) && e >= high)),
    {
        let delivered = offset_held(&self.delivered, topic, partition);
        let at_eof = offset_held(eof, topic, partition);
        drain_offset_reached(high, delivered, at_eof)
    }
}

/// Records the end-of-partition position of `partition`, as the consumer's positions give
/// it (topic, partition, offset where it is a concrete offset): each concrete offset of that
/// partition raises the one held for it, and the others are left alone.
pub fn record_partition_eof(eof: &mut Vec<(String, i32, i64)>, positions: &Vec<(String, i32, Option<i64>)>, partition: i32)
    ensures
        forall|k: int|
            0 <= k < positions@.len() && (#[trigger] positions@[k]).1 == partition && positions@[k].2 is Some
                ==> (held_offset(final(eof)@, positions@[k].0@, partition) matches Some(h) && h
                >= positions@[k].2.unwrap()),
        forall|t: Seq<char>, p: i32|
            not_lower(#[trigger] held_offset(old(eof)@, t, p), held_offset(final(eof)@, t, p)),
        forall|t: Seq<char>, p: i32|
            p != partition ==> #[trigger] held_offset(final(eof)@, t, p) == held_offset(old(eof)@, t, p),
{
    let mut i: usize = 0;
    while i < positions.len()
        invariant
            i <= positions@.len(),
            forall|k: int|
                0 <= k < i && (#[trigger] positions@[k]).1 == partition && positions@[k].2 is Some ==> (
                held_offset(eof@, positions@[k].0@, partition) matches Some(h) && h
                    >= positions@[k].2.unwrap()),
            forall|t: Seq<char>, p: i32|
                not_lower(#[trigger] held_offset(old(eof)@, t, p), held_offset(eof@, t, p)),
            forall|t: Seq<char>, p: i32|
                p != partition ==> #[trigger] held_offset(eof@, t, p) == held_offset(old(eof)@, t, p),
        decreases positions@.len() - i,
    {
        if positions[i].1 == partition {
            match positions[i].2 {
                Some(offset) => {
                    let ghost before = eof@;
                    let ghost tk = positions@[i as int].0@;
                    raise_offset(eof, positions[i].0.as_str(), partition, offset);
                    proof {
                        lemma_raise_never_lowers(before, eof@, tk, partition, offset, tk, partition);
                        assert forall|k: int|
                            0 <= k < i + 1 && (#[trigger] positions@[k]).1 == partition
                                && positions@[k].2 is Some implies (held_offset(
                            eof@,
                            positions@[k].0@,
                            partition,
                        ) matches Some(h) && h >= positions@[k].2.unwrap()) by {
                            lemma_raise_never_lowers(before, eof@, tk, partition, offset, positions@[k].0@, partition);
                        }
                        assert forall|t: Seq<char>, p: i32|
                            not_lower(#[trigger] held_offset(old(eof)@, t, p), held_offset(eof@, t, p)) by {
                            lemma_raise_never_lowers(before, eof@, tk, partition, offset, t, p);
                        }
                        assert forall|t: Seq<char>, p: i32|
                            p != partition implies #[trigger] held_offset(eof@, t, p) == held_offset(old(eof)@, t, p) by {
                            lemma_raise_leaves_others(before, eof@, tk, partition, offset, t, p);
                        }
                    }
                },
                None => {},
            }
        }
        i = i + 1;
    }
}

/// Raising the offset of one partition leaves every other partition's as it was.
pub proof fn lemma_raise_leaves_others(
    old: Seq<(String, i32, i64)>,
    new: Seq<(String, i32, i64)>,
    topic: Seq<char>,
    partition: i32,
    offset: i64,
    t2: Seq<char>,
    p2: i32,
)
    requires
        raised(old, new, topic, partition, offset),
        !(t2 == topic && p2 == partition),
    ensures
        held_offset(new, t2, p2) == held_offset(old, t2, p2),
{
    lemma_slot_from(old, topic, partition, 0);
    match slot_from(old, topic, partition, 0) {
        Some(i) => {
            lemma_slot_same_keys(old, new, t2, p2, 0);
            lemma_slot_from(old, t2, p2, 0);
            if let Some(a) = slot_from(old, t2, p2, 0) {
                assert(a != i);
                assert(new[a] == old[a]);
            }
        },
        None => {
            lemma_slot_pushed(old, new, t2, p2, 0);
            lemma_slot_from(old, t2, p2, 0);
            if let Some(a) = slot_from(old, t2, p2, 0) {
                assert(new[a] == old[a]) by {
                    assert(new.drop_last()[a] == new[a]);
                }
            }
        },
    }
}

/// The payload bytes the prefetch channel holds against its limit.
#[derive(Debug)]
pub struct ByteBudget {
    pub limit: usize,
    pub used: usize,
}

impl ByteBudget {
    /// A budget of `limit` bytes with nothing held.
    pub fn new(limit: usize) -> (r: Self)
        ensures
            r.limit == limit,
            r.used == 0,
    {
        ByteBudget { limit, used: 0 }
    }

    /// Whether the reader may queue another record: only while what is held is under the
    /// limit, so one record is always admitted, however large.
    pub fn admits(&self) -> (r: bool)
        ensures
            r == (self.used < self.limit),
    {
        self.used < self.limit
    }

    /// Charges an admitted record's payload.
    pub fn charge(&mut self, bytes: usize)
        requires
            old(self).used + bytes <= usize::MAX,
        ensures
            final(self).used == old(self).used + bytes,
            final(self).limit == old(self).limit,
    {
        self.used = self.used + bytes;
    }

    /// Gives a record's payload back once the record is taken off the channel.
    pub fn release(&mut self, bytes: usize)
        requires
            bytes <= old(self).used,
        ensures
            final(self).used == old(self).used - bytes,
            final(self).limit == old(self).limit,
    {
        self.used = self.used - bytes;
    }
}

/// What settling one message read on its own does.
#[derive(Debug)]
pub struct SingleSettle {
    pub trip_latch: bool,
    /// The reply to publish, where the message asks for one.
    pub reply: Option<ReplyRecord>,
    pub commit: bool,
}

/// How one message read on its own is settled: a refusal trips the nack latch and does
/// nothing else; once the latch has tripped nothing is done; otherwise a reply goes to the
/// message's `reply_to` (with its correlation id) where it was answered, and its offset is
/// committed.
pub fn settle_single(
    latch_tripped: bool,
    disposition: &MessageDisposition,
    reply_to: Option<&str>,
    correlation_id: Option<&str>,
) -> (r: SingleSettle)
    ensures
        r.trip_latch == disposition is Nack,
        r.commit == (!(disposition is Nack) && !latch_tripped),
        match r.reply {
            Some(rec) => !(disposition is Nack) && !latch_tripped && crate::http::opt_str_view(reply_to) == Some(rec.topic@)
                && (disposition matches MessageDisposition::Reply(resp) && rec.payload@ == resp.payload@)
                && opt_view(rec.correlation_id) == crate::http::opt_str_view(correlation_id),
            None => disposition is Nack || latch_tripped || reply_to is None || !(disposition is Reply),
        },
{
    match disposition {
        MessageDisposition::Nack => SingleSettle { trip_latch: true, reply: None, commit: false },
        _ => {
            if latch_tripped {
                return SingleSettle { trip_latch: false, reply: None, commit: false };
            }
            let reply = match (disposition, reply_to) {
                (MessageDisposition::Reply(resp), Some(rt)) => Some(
                    ReplyRecord {
                        topic: String::from_str(rt),
                        payload: resp.payload.clone(),
                        correlation_id: match correlation_id {
                            Some(c) => Some(String::from_str(c)),
                            None => None,
                        },
                    },
                ),
                _ => None,
            };
            SingleSettle { trip_latch: false, reply, commit: true }
        },
    }
}

/// Why a read from a consumer failed.
#[derive(Debug, PartialEq, Eq)]
pub enum ConsumerError {
    /// The source has nothing more to give.
    EndOfStream,
    /// The connection failed, for the reason given; the route reconnects.
    Connection(String),
}

/// The read error the reason the prefetcher stopped becomes.
pub fn terminal_to_consumer_error(terminal: PrefetchError) -> (r: ConsumerError)
    ensures
        match terminal {
            PrefetchError::EndOfStream => r == ConsumerError::EndOfStream,
            PrefetchError::Connection(e) => r == ConsumerError::Connection(e),
        },
{
    match terminal {
        PrefetchError::EndOfStream => ConsumerError::EndOfStream,
        PrefetchError::Connection(e) => ConsumerError::Connection(e),
    }
}

/// The check a consumer makes before each read: once a batch was refused, reads fail so
/// the route reconnects and replays from the last committed offset.
pub fn nack_latch_check(tripped: bool) -> (r: Result<(), ConsumerError>)
    ensures
        !tripped ==> r is Ok,
        tripped ==> (r matches Err(ConsumerError::Connection(e)) && e@
            == "Kafka batch was nacked; reconnecting to replay from the last committed offset"@),
{
    if tripped {
        Err(
            ConsumerError::Connection(
                String::from_str("Kafka batch was nacked; reconnecting to replay from the last committed offset"),
            ),
        )
    } else {
        Ok(())
    }
}

} // verus!
