//! How a consumer of an in-memory queue cuts the batches its channel carries into batches
//! of the size a route asks for, and what committing a batch does with each message.
use crate::message::CanonicalMessage;
use crate::response::MessageDisposition;
use crate::digits::{decimal, decimal_u64};
use vstd::prelude::*;
use vstd::string::*;

verus! {

/// What a channel batch leaves over once a receive has taken what it asked for, in order.
#[derive(Debug)]
pub struct PendingMessages {
    pending: Vec<CanonicalMessage>,
}

impl View for PendingMessages {
    type V = Seq<CanonicalMessage>;

    closed spec fn view(&self) -> Seq<CanonicalMessage> {
        self.pending@
    }
}

impl PendingMessages {
    /// Nothing left over.
    pub fn new() -> (r: Self)
        ensures
            r@ == Seq::<CanonicalMessage>::empty(),
    {
        PendingMessages { pending: Vec::new() }
    }

    /// Whether nothing is left over.
    pub fn is_empty(&self) -> (r: bool)
        ensures
            r == (self@.len() == 0),
    {
        self.pending.len() == 0
    }

    /// How many messages are left over.
    pub fn len(&self) -> (r: usize)
        ensures
            r == self@.len(),
    {
        self.pending.len()
    }

    /// Puts messages back, after those already waiting.
    pub fn requeue(&mut self, more: Vec<CanonicalMessage>)
        ensures
            final(self)@ == old(self)@ + more@,
    {
        let mut more = more;
        self.pending.append(&mut more);
    }

    /// Moves the first waiting messages into a receive, as many as it has room for.
    pub fn take_into(&mut self, messages: &mut Vec<CanonicalMessage>, max_messages: usize)
        requires
            old(messages)@.len() <= max_messages,
        ensures
            ({
                let room = max_messages - old(messages)@.len();
                let n = if old(self)@.len() < room { old(self)@.len() as int } else { room as int };
                &&& final(messages)@ == old(messages)@ + old(self)@.take(n)
                &&& final(self)@ == old(self)@.skip(n)
            }),
    {
        let room = max_messages - messages.len();
        let mut taken = self.take(room);
        messages.append(&mut taken);
    }

    /// Cuts a receive back to `max_messages`, what is over being left over in place of
    /// what was waiting before.
    pub fn keep_overflow(&mut self, messages: &mut Vec<CanonicalMessage>, max_messages: usize)
        ensures
            old(messages)@.len() > max_messages ==> final(messages)@ == old(messages)@.take(max_messages as int)
                && final(self)@ == old(messages)@.skip(max_messages as int),
            old(messages)@.len() <= max_messages ==> final(messages)@ == old(messages)@ && final(self)@ == old(self)@,
    {
        if messages.len() > max_messages {
            let rest = messages.split_off(max_messages);
            self.pending = rest;
        }
    }

    /// Holds a batch just read off the channel.
    pub fn refill(&mut self, batch: Vec<CanonicalMessage>)
        requires
            old(self)@.len() == 0,
        ensures
            final(self)@ == batch@,
    {
        self.pending = batch;
    }

    /// Takes the first `max_messages` messages left over, or all of them where there are
    /// fewer.
    pub fn take(&mut self, max_messages: usize) -> (r: Vec<CanonicalMessage>)
        ensures
            ({
                let n = if old(self)@.len() < max_messages { old(self)@.len() as int } else { max_messages as int };
                &&& r@ == old(self)@.take(n)
                &&& final(self)@ == old(self)@.skip(n)
            }),
    {
        let n = if self.pending.len() < max_messages { self.pending.len() } else { max_messages };
        let mut taken: Vec<CanonicalMessage> = Vec::new();
        std::mem::swap(&mut taken, &mut self.pending);
        let rest = taken.split_off(n);
        self.pending = rest;
        assert(taken@ =~= old(self)@.take(n as int));
        taken
    }

    /// Adds a batch read off the channel to a receive that has room: all of it where it
    /// fits within `max_messages`, else what fits, the rest left over. Says whether the
    /// batch fitted, so that the receive may read on.
    pub fn top_up(&mut self, messages: &mut Vec<CanonicalMessage>, next: Vec<CanonicalMessage>, max_messages: usize) -> (r: bool)
        requires
            old(self)@.len() == 0,
            old(messages)@.len() <= max_messages,
        ensures
            r == (old(messages)@.len() + next@.len() <= max_messages),
            r ==> final(messages)@ == old(messages)@ + next@ && final(self)@.len() == 0,
            !r ==> ({
                let fits = max_messages - old(messages)@.len();
                &&& final(messages)@ == old(messages)@ + next@.take(fits)
                &&& final(self)@ == next@.skip(fits)
            }),
    {
        let mut next = next;
        if next.len() > max_messages - messages.len() {
            let needed = max_messages - messages.len();
            let rest = next.split_off(needed);
            messages.append(&mut next);
            self.pending = rest;
            false
        } else {
            messages.append(&mut next);
            true
        }
    }
}

/// The start of a receive from a memory transport: messages put back after a nack come
/// first, then those left over from an earlier read, up to `max_messages` in all. Says
/// whether the receive must wait on the transport, which it does only where it has nothing
/// yet, so a redelivery is never held up by a new frame.
pub fn start_transport_receive(
    requeued: &mut PendingMessages,
    leftover: &mut PendingMessages,
    max_messages: usize,
) -> (r: (Vec<CanonicalMessage>, bool))
    ensures
        ({
            let n1 = if old(requeued)@.len() < max_messages { old(requeued)@.len() as int } else { max_messages as int };
            let room = max_messages - n1;
            let n2 = if old(leftover)@.len() < room { old(leftover)@.len() as int } else { room };
            &&& r.0@ == old(requeued)@.take(n1) + old(leftover)@.take(n2)
            &&& final(requeued)@ == old(requeued)@.skip(n1)
            &&& final(leftover)@ == old(leftover)@.skip(n2)
            &&& r.0@.len() <= max_messages
            &&& r.1 == (r.0@.len() == 0)
        }),
{
    let mut messages = requeued.take(max_messages);
    let ghost first = messages@;
    if messages.len() < max_messages {
        leftover.take_into(&mut messages, max_messages);
    } else {
        proof {
            assert(leftover@.take(0) =~= Seq::<CanonicalMessage>::empty());
            assert(leftover@.skip(0) =~= leftover@);
            assert(messages@ =~= first + leftover@.take(0));
        }
    }
    let wait = messages.len() == 0;
    (messages, wait)
}

/// Redelivery comes first: with the messages `nacked` put back after a nack, a receive of
/// at least one message takes the first of them, in order, as many as fit, and does not
/// wait on the transport.
pub proof fn lemma_nacked_redelivered_first(
    nacked: Seq<CanonicalMessage>,
    leftover: Seq<CanonicalMessage>,
    max_messages: usize,
    got: Seq<CanonicalMessage>,
)
    requires
        max_messages >= 1,
        nacked.len() > 0,
        ({
            let n1 = if nacked.len() < max_messages { nacked.len() as int } else { max_messages as int };
            let room = max_messages - n1;
            let n2 = if leftover.len() < room { leftover.len() as int } else { room };
            got == nacked.take(n1) + leftover.take(n2)
        }),
    ensures
        got.len() > 0,
        ({
            let n1 = if nacked.len() < max_messages { nacked.len() as int } else { max_messages as int };
            got.take(n1) == nacked.take(n1)
        }),
{
    let n1 = if nacked.len() < max_messages { nacked.len() as int } else { max_messages as int };
    assert(got.take(n1) =~= nacked.take(n1));
}

/// Whether a receive reads on from the channel: while it holds fewer than half the
/// messages it asked for.
pub fn reads_on(received: usize, max_messages: usize) -> (r: bool)
    ensures
        r == (received < max_messages / 2),
{
    received < max_messages / 2
}

/// The `correlation_id` each message of a batch carries.
pub fn correlation_ids(messages: &Vec<CanonicalMessage>) -> (r: Vec<Option<String>>)
    ensures
        r@.len() == messages@.len(),
        forall|i: int| 0 <= i < r@.len() ==> (match #[trigger] r@[i] {
            Some(c) => messages@[i].metadata@.contains_key("correlation_id"@) && messages@[i].metadata@["correlation_id"@] == c@,
            None => !messages@[i].metadata@.contains_key("correlation_id"@),
        }),
{
    proof {
        reveal_strlit("correlation_id");
    }
    let mut out: Vec<Option<String>> = Vec::new();
    let mut i: usize = 0;
    while i < messages.len()
        invariant
            i <= messages@.len(),
            out@.len() == i,
            forall|k: int| 0 <= k < i ==> (match #[trigger] out@[k] {
                Some(c) => messages@[k].metadata@.contains_key("correlation_id"@) && messages@[k].metadata@["correlation_id"@] == c@,
                None => !messages@[k].metadata@.contains_key("correlation_id"@),
            }),
        decreases messages@.len() - i,
    {
        let c = match messages[i].metadata.get("correlation_id") {
            Some(v) => Some(v.clone()),
            None => None,
        };
        out.push(c);
        i = i + 1;
    }
    out
}

/// A copy of a message.
pub fn copy_message(m: &CanonicalMessage) -> (r: CanonicalMessage)
    ensures
        r.payload@ == m.payload@,
        r.metadata@ == m.metadata@,
        r.message_id == m.message_id,
{
    let payload = m.payload.clone();
    assert(payload@ =~= m.payload@);
    CanonicalMessage { payload, metadata: m.metadata.clone(), message_id: m.message_id }
}

/// Why a commit was refused: it settled a different number of messages than the batch
/// held.
#[derive(Debug, PartialEq, Eq)]
pub struct DispositionCountMismatch {
    pub expected: usize,
    pub got: usize,
}

impl DispositionCountMismatch {
    /// The sentence the refusal is reported with.
    pub fn message(&self) -> (r: String)
        ensures
            r@ == "Memory batch commit received mismatched disposition count: expected "@ + decimal(
                self.expected as nat,
            ) + ", got "@ + decimal(self.got as nat),
    {
        let mut s = String::from_str("Memory batch commit received mismatched disposition count: expected ");
        let e = decimal_u64(self.expected as u64);
        s.append(e.as_str());
        s.append(", got ");
        let g = decimal_u64(self.got as u64);
        s.append(g.as_str());
        proof {
            reveal_strlit("Memory batch commit received mismatched disposition count: expected ");
            reveal_strlit(", got ");
        }
        s
    }

    /// The sentence the refusal is reported with by a consumer of a memory transport.
    pub fn transport_message(&self) -> (r: String)
        ensures
            r@ == "Memory transport batch commit received mismatched disposition count: expected "@ + decimal(
                self.expected as nat,
            ) + ", got "@ + decimal(self.got as nat),
    {
        let mut s = String::from_str("Memory transport batch commit received mismatched disposition count: expected ");
        let e = decimal_u64(self.expected as u64);
        s.append(e.as_str());
        s.append(", got ");
        let g = decimal_u64(self.got as u64);
        s.append(g.as_str());
        proof {
            reveal_strlit("Memory transport batch commit received mismatched disposition count: expected ");
            reveal_strlit(", got ");
        }
        s
    }
}

/// What committing a batch does: the replies to hand back, in order, each carrying the
/// correlation id of the message it answers where it has none of its own; and the
/// messages to put back on the channel.
#[derive(Debug)]
pub struct CommitPlan {
    pub replies: Vec<CanonicalMessage>,
    pub requeue: Vec<CanonicalMessage>,
}

/// The metadata a reply is handed back with: its own, with the correlation id of the
/// message it answers where it has none.
pub open spec fn reply_metadata(reply: Map<Seq<char>, Seq<char>>, cid: Option<Option<String>>) -> Map<Seq<char>, Seq<char>> {
    match cid {
        Some(Some(c)) => if !reply.contains_key("correlation_id"@) {
            reply.insert("correlation_id"@, c@)
        } else {
            reply
        },
        _ => reply,
    }
}

/// The replies among a batch's dispositions, each with its position.
pub open spec fn reply_positions(d: Seq<MessageDisposition>) -> Seq<int>
    decreases d.len(),
{
    if d.len() == 0 {
        Seq::empty()
    } else if d.last() is Reply {
        reply_positions(d.drop_last()).push(d.len() - 1)
    } else {
        reply_positions(d.drop_last())
    }
}

/// The positions of the nacked messages of a batch that has a copy of them.
pub open spec fn requeue_positions(d: Seq<MessageDisposition>, retained: nat) -> Seq<int>
    decreases d.len(),
{
    if d.len() == 0 {
        Seq::empty()
    } else if d.last() is Nack && d.len() - 1 < retained {
        requeue_positions(d.drop_last(), retained).push(d.len() - 1)
    } else {
        requeue_positions(d.drop_last(), retained)
    }
}

/// What committing a batch of `expected` messages does with their dispositions: it is
/// refused where their number differs; else each reply is handed back (see
/// [`reply_metadata`]) and each nacked message of which a copy was kept is put back, both
/// in batch order.
pub fn plan_commit(
    dispositions: Vec<MessageDisposition>,
    expected: usize,
    correlation_ids: &Vec<Option<String>>,
    retained: &Vec<CanonicalMessage>,
) -> (r: Result<CommitPlan, DispositionCountMismatch>)
    ensures
        match r {
            Err(e) => dispositions@.len() != expected && e.expected == expected && e.got == dispositions@.len(),
            Ok(plan) => {
                let replies = reply_positions(dispositions@);
                let requeued = requeue_positions(dispositions@, retained@.len());
                &&& dispositions@.len() == expected
                &&& plan.replies@.len() == replies.len()
                &&& forall|k: int| 0 <= k < replies.len() ==> (dispositions@[#[trigger] replies[k]] matches MessageDisposition::Reply(m)
                    && plan.replies@[k].payload == m.payload && plan.replies@[k].message_id == m.message_id
                    && plan.replies@[k].metadata@ == reply_metadata(m.metadata@, if replies[k] < correlation_ids@.len() {
                        Some(correlation_ids@[replies[k]])
                    } else {
                        None
                    }))
                &&& plan.requeue@.len() == requeued.len()
                &&& forall|k: int| 0 <= k < requeued.len() ==> (plan.requeue@[k].payload@ == retained@[#[trigger] requeued[k]].payload@
                    && plan.requeue@[k].metadata@ == retained@[requeued[k]].metadata@
                    && plan.requeue@[k].message_id == retained@[requeued[k]].message_id)
            },
        },
{
    if dispositions.len() != expected {
        return Err(DispositionCountMismatch { expected, got: dispositions.len() });
    }
    proof {
        reveal_strlit("correlation_id");
    }
    let ghost ds = dispositions@;
    let mut replies: Vec<CanonicalMessage> = Vec::new();
    let mut requeue: Vec<CanonicalMessage> = Vec::new();
    let mut rest = dispositions;
    let mut taken: Vec<MessageDisposition> = Vec::new();
    let mut i: usize = 0;
    let n = rest.len();
    assert(ds.take(0) =~= Seq::<MessageDisposition>::empty());
    while i < n
        invariant
            n == ds.len(),
            i <= n,
            rest@ == ds.skip(i as int),
            replies@.len() == reply_positions(ds.take(i as int)).len(),
            forall|k: int| 0 <= k < reply_positions(ds.take(i as int)).len() ==> (ds[#[trigger] reply_positions(ds.take(i as int))[k]] matches MessageDisposition::Reply(m)
                && replies@[k].payload == m.payload && replies@[k].message_id == m.message_id
                && replies@[k].metadata@ == reply_metadata(m.metadata@, if reply_positions(ds.take(i as int))[k] < correlation_ids@.len() {
                    Some(correlation_ids@[reply_positions(ds.take(i as int))[k]])
                } else {
                    None
                })),
            forall|k: int| 0 <= k < reply_positions(ds.take(i as int)).len() ==> 0 <= #[trigger] reply_positions(ds.take(i as int))[k] < i,
            requeue@.len() == requeue_positions(ds.take(i as int), retained@.len()).len(),
            forall|k: int| 0 <= k < requeue_positions(ds.take(i as int), retained@.len()).len() ==> 0 <= #[trigger] requeue_positions(ds.take(i as int), retained@.len())[k] < retained@.len()
                && requeue@[k].payload@ == retained@[requeue_positions(ds.take(i as int), retained@.len())[k]].payload@
                && requeue@[k].metadata@ == retained@[requeue_positions(ds.take(i as int), retained@.len())[k]].metadata@
                && requeue@[k].message_id == retained@[requeue_positions(ds.take(i as int), retained@.len())[k]].message_id,
        decreases n - i,
    {
        let ghost pre = ds.take(i as int);
        let ghost next = ds.take(i + 1);
        assert(next.drop_last() =~= pre);
        assert(next.last() == ds[i as int]);
        let d = rest.remove(0);
        assert(d == ds[i as int]);
        assert(rest@ =~= ds.skip(i + 1));
        match d {
            MessageDisposition::Reply(m) => {
                let ghost given = m;
                let mut reply = m;
                if !reply.metadata.contains_key("correlation_id") && i < correlation_ids.len() {
                    match &correlation_ids[i] {
                        Some(c) => {
                            reply.metadata.insert(String::from_str("correlation_id"), c.clone());
                        },
                        None => {},
                    }
                }
                assert(reply.metadata@ == reply_metadata(given.metadata@, if (i as int) < correlation_ids@.len() {
                    Some(correlation_ids@[i as int])
                } else {
                    None
                }));
                replies.push(reply);
            },
            MessageDisposition::Nack => {
                if i < retained.len() {
                    requeue.push(copy_message(&retained[i]));
                }
            },
            MessageDisposition::Ack => {},
        }
        i = i + 1;
    }
    assert(ds.take(n as int) =~= ds);
    Ok(CommitPlan { replies, requeue })
}

/// How a commit of a batch ends: the answer to the committer, the replies to hand back,
/// and the messages put back on the channel.
#[derive(Debug)]
pub struct CommitOutcome {
    pub result: Result<(), DispositionCountMismatch>,
    pub replies: Vec<CanonicalMessage>,
    pub requeue: Vec<CanonicalMessage>,
}

/// Whether `got` holds copies of `kept`, in order.
pub open spec fn copies_of(got: Seq<CanonicalMessage>, kept: Seq<CanonicalMessage>) -> bool {
    &&& got.len() == kept.len()
    &&& forall|k: int| 0 <= k < kept.len() ==> (#[trigger] got[k]).payload@ == kept[k].payload@
        && got[k].metadata@ == kept[k].metadata@ && got[k].message_id == kept[k].message_id
}

/// Copies of every message of a batch, in order: what goes back on the channel when a
/// batch is dropped without being committed.
pub fn requeue_all(kept: &Vec<CanonicalMessage>) -> (r: Vec<CanonicalMessage>)
    ensures
        copies_of(r@, kept@),
{
    let mut out: Vec<CanonicalMessage> = Vec::new();
    let mut i: usize = 0;
    while i < kept.len()
        invariant
            i <= kept@.len(),
            copies_of(out@, kept@.subrange(0, i as int)),
        decreases kept@.len() - i,
    {
        out.push(copy_message(&kept[i]));
        i = i + 1;
    }
    assert(kept@.subrange(0, i as int) =~= kept@);
    out
}

/// Commits a batch of `expected` messages with `dispositions`, where `retained` holds the
/// copies kept for redelivery. A count that differs is refused and every kept message goes
/// back on the channel, in order, as the batch stays unsettled; otherwise the replies are
/// handed back and the nacked messages put back as [`plan_commit`] says.
pub fn settle_commit(
    dispositions: Vec<MessageDisposition>,
    expected: usize,
    correlation_ids: &Vec<Option<String>>,
    retained: &Vec<CanonicalMessage>,
) -> (r: CommitOutcome)
    ensures
        dispositions@.len() != expected ==> {
            &&& r.result == Err::<(), DispositionCountMismatch>(
                DispositionCountMismatch { expected, got: dispositions@.len() as usize },
            )
            &&& r.replies@.len() == 0
            &&& copies_of(r.requeue@, retained@)
        },
        dispositions@.len() == expected ==> {
            let requeued = requeue_positions(dispositions@, retained@.len());
            &&& r.result is Ok
            &&& r.replies@.len() == reply_positions(dispositions@).len()
            &&& r.requeue@.len() == requeued.len()
            &&& forall|k: int| 0 <= k < requeued.len() ==> (r.requeue@[k].payload@ == retained@[#[trigger] requeued[k]].payload@
                && r.requeue@[k].metadata@ == retained@[requeued[k]].metadata@
                && r.requeue@[k].message_id == retained@[requeued[k]].message_id)
        },
{
    match plan_commit(dispositions, expected, correlation_ids, retained) {
        Ok(plan) => CommitOutcome { result: Ok(()), replies: plan.replies, requeue: plan.requeue },
        Err(e) => CommitOutcome { result: Err(e), replies: Vec::new(), requeue: requeue_all(retained) },
    }
}

/// The correlation ids that requests are waiting on for their replies.
#[derive(Debug)]
pub struct WaiterRegistry {
    ids: Vec<String>,
}

impl View for WaiterRegistry {
    type V = Set<Seq<char>>;

    closed spec fn view(&self) -> Set<Seq<char>> {
        Set::new(|c: Seq<char>| exists|i: int| 0 <= i < self.ids@.len() && (#[trigger] self.ids@[i])@ == c)
    }
}

/// Where a reply goes.
#[derive(Debug, PartialEq, Eq)]
pub enum ReplyRoute {
    /// To the request waiting on this correlation id, which stops waiting.
    Waiter(String),
    /// Onto the shared response channel.
    Channel,
}

/// Where a reply carrying `cid` goes while `waiting` holds the ids waited on: to its waiter,
/// which then waits no more, else onto the channel.
pub open spec fn routed(waiting: Set<Seq<char>>, cid: Option<Seq<char>>) -> (bool, Set<Seq<char>>) {
    match cid {
        Some(c) => if waiting.contains(c) {
            (true, waiting.remove(c))
        } else {
            (false, waiting)
        },
        None => (false, waiting),
    }
}

impl WaiterRegistry {
    #[verifier::type_invariant]
    closed spec fn distinct(self) -> bool {
        forall|i: int, j: int| 0 <= i < j < self.ids@.len() ==> (#[trigger] self.ids@[i])@ != (#[trigger] self.ids@[j])@
    }

    /// Nobody waiting.
    pub fn new() -> (r: Self)
        ensures
            r@ == Set::<Seq<char>>::empty(),
    {
        let r = WaiterRegistry { ids: Vec::new() };
        assert(r@ =~= Set::<Seq<char>>::empty());
        r
    }

    fn position(&self, cid: &str) -> (r: Option<usize>)
        ensures
            r matches Some(i) ==> i < self.ids@.len() && self.ids@[i as int]@ == cid@,
            r is None ==> !self@.contains(cid@),
    {
        let mut i: usize = 0;
        while i < self.ids.len()
            invariant
                i <= self.ids@.len(),
                forall|j: int| 0 <= j < i ==> (#[trigger] self.ids@[j])@ != cid@,
            decreases self.ids@.len() - i,
        {
            if crate::text::str_eq(self.ids[i].as_str(), cid) {
                return Some(i);
            }
            i = i + 1;
        }
        None
    }

    /// Whether a request waits on `cid`.
    pub fn contains(&self, cid: &str) -> (r: bool)
        ensures
            r == self@.contains(cid@),
    {
        match self.position(cid) {
            Some(i) => {
                assert(self.ids@[i as int]@ == cid@);
                true
            },
            None => false,
        }
    }

    /// Makes a request wait on `cid`; refused where one already does.
    pub fn register(&mut self, cid: &str) -> (r: Result<(), String>)
        ensures
            old(self)@.contains(cid@) ==> final(self)@ == old(self)@ && (r matches Err(e) && e@
                == "Correlation ID "@ + cid@ + " already registered"@),
            !old(self)@.contains(cid@) ==> final(self)@ == old(self)@.insert(cid@) && r is Ok,
    {
        proof {
            use_type_invariant(&*self);
        }
        if self.contains(cid) {
            let mut e = String::from_str("Correlation ID ");
            e.append(cid);
            e.append(" already registered");
            return Err(e);
        }
        let ghost before = self.ids@;
        let ghost old_view = self@;
        let mut ids: Vec<String> = Vec::new();
        std::mem::swap(&mut ids, &mut self.ids);
        ids.push(String::from_str(cid));
        proof {
            assert forall|i: int, j: int| 0 <= i < j < ids@.len() implies (#[trigger] ids@[i])@ != (#[trigger] ids@[j])@ by {
                if j == before.len() {
                    assert(ids@[i] == before[i]);
                } else {
                    assert(ids@[i] == before[i] && ids@[j] == before[j]);
                }
            }
        }
        self.ids = ids;
        proof {
            assert forall|c: Seq<char>| #[trigger] self@.contains(c) == old_view.insert(cid@).contains(c) by {
                if old_view.contains(c) {
                    let i = choose|i: int| 0 <= i < before.len() && (#[trigger] before[i])@ == c;
                    assert(self.ids@[i] == before[i]);
                }
                if c == cid@ {
                    assert(self.ids@[before.len() as int]@ == c);
                }
                if self@.contains(c) {
                    let i = choose|i: int| 0 <= i < self.ids@.len() && (#[trigger] self.ids@[i])@ == c;
                    if i < before.len() {
                        assert(self.ids@[i] == before[i]);
                    }
                }
            }
            assert(self@ =~= old_view.insert(cid@));
        }
        Ok(())
    }

    /// Stops a request waiting on `cid`; says whether one was.
    pub fn remove(&mut self, cid: &str) -> (r: bool)
        ensures
            r == old(self)@.contains(cid@),
            final(self)@ == old(self)@.remove(cid@),
    {
        proof {
            use_type_invariant(&*self);
        }
        let ghost old_view = self@;
        match self.position(cid) {
            Some(i) => {
                let ghost before = self.ids@;
                let mut ids: Vec<String> = Vec::new();
                std::mem::swap(&mut ids, &mut self.ids);
                ids.remove(i);
                proof {
                    assert forall|a: int, b: int| 0 <= a < b < ids@.len() implies (#[trigger] ids@[a])@ != (#[trigger] ids@[b])@ by {
                        let a0 = if a < i { a } else { a + 1 };
                        let b0 = if b < i { b } else { b + 1 };
                        assert(ids@[a] == before[a0] && ids@[b] == before[b0]);
                    }
                }
                self.ids = ids;
                proof {
                    assert(old_view.contains(cid@)) by {
                        assert(before[i as int]@ == cid@);
                    }
                    assert forall|c: Seq<char>| #[trigger] self@.contains(c) == old_view.remove(cid@).contains(c) by {
                        if self@.contains(c) {
                            let k = choose|k: int| 0 <= k < self.ids@.len() && (#[trigger] self.ids@[k])@ == c;
                            let k0 = if k < i { k } else { k + 1 };
                            assert(self.ids@[k] == before[k0]);
                            assert(k0 != i);
                        }
                        if old_view.remove(cid@).contains(c) {
                            let k = choose|k: int| 0 <= k < before.len() && (#[trigger] before[k])@ == c;
                            assert(k != i);
                            let k1 = if k < i { k } else { k - 1 };
                            assert(self.ids@[k1] == before[k]);
                        }
                    }
                    assert(self@ =~= old_view.remove(cid@));
                }
                true
            },
            None => {
                assert(self@ =~= old_view.remove(cid@));
                false
            },
        }
    }

    /// Where `reply` goes (see [`routed`]): to the request waiting on its correlation id,
    /// which then stops waiting, else onto the response channel.
    pub fn route_reply(&mut self, reply: &CanonicalMessage) -> (r: ReplyRoute)
        ensures
            ({
                let cid = if reply.metadata@.contains_key("correlation_id"@) {
                    Some(reply.metadata@["correlation_id"@])
                } else {
                    None
                };
                &&& final(self)@ == routed(old(self)@, cid).1
                &&& (routed(old(self)@, cid).0 <==> (r matches ReplyRoute::Waiter(c) && Some(c@) == cid))
                &&& (!routed(old(self)@, cid).0 <==> r is Channel)
            }),
    {
        match reply.metadata.get("correlation_id") {
            Some(cid) => {
                if self.remove(cid.as_str()) {
                    ReplyRoute::Waiter(cid.clone())
                } else {
                    ReplyRoute::Channel
                }
            },
            None => ReplyRoute::Channel,
        }
    }
}

/// A reply reaches the request waiting on its correlation id once: a second reply with the
/// same id, or any reply once the request gave up waiting, goes onto the channel.
pub proof fn lemma_reply_reaches_its_waiter_once(waiting: Set<Seq<char>>, cid: Seq<char>)
    ensures
        routed(waiting.insert(cid), Some(cid)).0,
        !routed(routed(waiting.insert(cid), Some(cid)).1, Some(cid)).0,
        !routed(waiting.insert(cid).remove(cid), Some(cid)).0,
{
}

/// What an in-memory topic is held in.
#[derive(Debug, Clone, Copy, PartialEq, Eq, Structural)]
pub enum MemoryBackend {
    /// An event store every subscriber reads all of.
    Log,
    /// A channel whose consumers compete for messages.
    Queue,
}

/// The refusal of a subscriber on a topic already held as a queue.
pub open spec fn queue_active_text(topic: Seq<char>) -> Seq<char> {
    "Topic '"@ + topic + "' is already active as a Queue (MemoryChannel), but Subscriber mode (EventStore) was requested."@
}

/// The refusal of a queue consumer on a topic already held as a log.
pub open spec fn log_active_text(topic: Seq<char>) -> Seq<char> {
    "Topic '"@ + topic + "' is already active as a Subscriber Log (EventStore), but Queue mode (MemoryChannel) was requested."@
}

fn quoted_topic(topic: &str, rest: &str) -> (r: String)
    ensures
        r@ == "Topic '"@ + topic@ + rest@,
{
    let mut t = String::from_str("Topic '");
    t.append(topic);
    t.append(rest);
    t
}

/// Where a publisher on `topic` writes: a subscriber publisher writes the log, refused
/// where the topic is already a queue; any other publisher writes the log where one exists
/// (so a topic never splits in two), else the queue.
pub fn publisher_backend(topic: &str, subscribe_mode: bool, channel_exists: bool, store_exists: bool) -> (r: Result<MemoryBackend, String>)
    ensures
        subscribe_mode && channel_exists ==> (r matches Err(e) && e@ == queue_active_text(topic@)),
        subscribe_mode && !channel_exists ==> r == Ok::<MemoryBackend, String>(MemoryBackend::Log),
        !subscribe_mode ==> r == Ok::<MemoryBackend, String>(
            if store_exists {
                MemoryBackend::Log
            } else {
                MemoryBackend::Queue
            },
        ),
{
    if subscribe_mode {
        if channel_exists {
            return Err(quoted_topic(topic, "' is already active as a Queue (MemoryChannel), but Subscriber mode (EventStore) was requested."));
        }
        Ok(MemoryBackend::Log)
    } else if store_exists {
        Ok(MemoryBackend::Log)
    } else {
        Ok(MemoryBackend::Queue)
    }
}

/// Where a consumer on `topic` reads: a subscriber reads the log, refused where the topic
/// is already a queue; any other consumer reads the queue, refused where the topic is
/// already a log (it would see every message, not compete for them).
pub fn consumer_backend(topic: &str, subscribe_mode: bool, channel_exists: bool, store_exists: bool) -> (r: Result<MemoryBackend, String>)
    ensures
        subscribe_mode && channel_exists ==> (r matches Err(e) && e@ == queue_active_text(topic@)),
        subscribe_mode && !channel_exists ==> r == Ok::<MemoryBackend, String>(MemoryBackend::Log),
        !subscribe_mode && store_exists ==> (r matches Err(e) && e@ == log_active_text(topic@)),
        !subscribe_mode && !store_exists ==> r == Ok::<MemoryBackend, String>(MemoryBackend::Queue),
{
    if subscribe_mode {
        if channel_exists {
            return Err(quoted_topic(topic, "' is already active as a Queue (MemoryChannel), but Subscriber mode (EventStore) was requested."));
        }
        Ok(MemoryBackend::Log)
    } else if store_exists {
        Err(quoted_topic(topic, "' is already active as a Subscriber Log (EventStore), but Queue mode (MemoryChannel) was requested."))
    } else {
        Ok(MemoryBackend::Queue)
    }
}

/// What an IPC memory endpoint refuses: subscribing, and, for a publisher, request-reply.
pub fn ipc_memory_check(publisher: bool, subscribe_mode: bool, request_reply: bool) -> (r: Result<(), String>)
    ensures
        subscribe_mode ==> (r matches Err(e) && e@ == (if publisher {
            "IPC memory publishers do not support subscribe_mode"@
        } else {
            "IPC memory consumers do not support subscribe_mode"@
        })),
        !subscribe_mode && publisher && request_reply ==> (r matches Err(e) && e@
            == "IPC memory publishers do not yet support request_reply"@),
        !subscribe_mode && !(publisher && request_reply) ==> r is Ok,
{
    if subscribe_mode {
        if publisher {
            return Err(String::from_str("IPC memory publishers do not support subscribe_mode"));
        }
        return Err(String::from_str("IPC memory consumers do not support subscribe_mode"));
    }
    if publisher && request_reply {
        return Err(String::from_str("IPC memory publishers do not yet support request_reply"));
    }
    Ok(())
}

} // verus!
