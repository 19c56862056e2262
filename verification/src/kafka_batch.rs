//! How a Kafka consumer turns what its prefetcher has read into one batch: the records that
//! are ready, up to the batch size, the offset to commit for each partition, where each
//! record asks its reply to go, and the error that ended the stream, held back until the
//! records read before it are delivered.
use crate::kafka::{offset_recorded, record_offset, slot_from};
use crate::message::CanonicalMessage;
use vstd::prelude::*;

verus! {

/// Why the prefetcher stopped.
#[derive(Debug, PartialEq, Eq)]
pub enum PrefetchError {
    /// The stream ended.
    EndOfStream,
    /// The connection failed, for the reason given.
    Connection(String),
}

/// A record the prefetcher read: the message it became and where it was read.
#[derive(Debug)]
pub struct Prefetched {
    pub message: CanonicalMessage,
    pub topic: String,
    pub partition: i32,
    pub offset: i64,
}

/// An offset to commit, as plain values: topic, partition, offset.
pub type OffsetView = (Seq<char>, i32, i64);

pub open spec fn offsets_view(s: Seq<(String, i32, i64)>) -> Seq<OffsetView> {
    s.map_values(|e: (String, i32, i64)| (e.0@, e.1, e.2))
}

/// The first position, from `i` on, of the entry for `partition` of `topic`.
pub open spec fn slot_in(v: Seq<OffsetView>, topic: Seq<char>, partition: i32, i: nat) -> Option<int>
    decreases v.len() - i,
{
    if i >= v.len() {
        None
    } else if v[i as int].1 == partition && v[i as int].0 == topic {
        Some(i as int)
    } else {
        slot_in(v, topic, partition, i + 1)
    }
}

/// The offsets after recording `offset` for `partition` of `topic`: that partition's entry
/// takes it, or it is added last.
pub open spec fn with_offset(v: Seq<OffsetView>, topic: Seq<char>, partition: i32, offset: i64) -> Seq<OffsetView> {
    match slot_in(v, topic, partition, 0) {
        Some(i) => v.update(i, (v[i].0, partition, offset)),
        None => v.push((topic, partition, offset)),
    }
}

proof fn lemma_slot_views(s: Seq<(String, i32, i64)>, topic: Seq<char>, partition: i32, i: nat)
    ensures
        slot_from(s, topic, partition, i) == slot_in(offsets_view(s), topic, partition, i),
    decreases s.len() - i,
{
    if i < s.len() {
        lemma_slot_views(s, topic, partition, i + 1);
    }
}

proof fn lemma_recorded_view(
    old: Seq<(String, i32, i64)>,
    new: Seq<(String, i32, i64)>,
    topic: Seq<char>,
    partition: i32,
    offset: i64,
)
    requires
        offset_recorded(old, new, topic, partition, offset),
    ensures
        offsets_view(new) == with_offset(offsets_view(old), topic, partition, offset),
{
    lemma_slot_views(old, topic, partition, 0);
    crate::kafka::lemma_slot_from(old, topic, partition, 0);
    match slot_from(old, topic, partition, 0) {
        Some(i) => {
            assert(offsets_view(new) =~= with_offset(offsets_view(old), topic, partition, offset));
        },
        None => {
            assert forall|k: int| 0 <= k < old.len() implies #[trigger] new[k] == old[k] by {
                assert(new.drop_last()[k] == new[k]);
            }
            assert(new[new.len() - 1] == new.last());
            assert(offsets_view(new) =~= with_offset(offsets_view(old), topic, partition, offset));
        },
    }
}

/// The value metadata holds under `key`, where it holds one.
pub open spec fn value_of(m: Map<Seq<char>, Seq<char>>, key: Seq<char>) -> Option<Seq<char>> {
    if m.contains_key(key) {
        Some(m[key])
    } else {
        None
    }
}

/// Where a message asks its reply to go: its `reply_to` and `correlation_id`.
pub open spec fn reply_info_of(m: CanonicalMessage) -> (Option<Seq<char>>, Option<Seq<char>>) {
    (value_of(m.metadata@, "reply_to"@), value_of(m.metadata@, "correlation_id"@))
}

/// A batch as plain values: its messages, its offsets, its reply targets, and the error
/// held back.
pub type BatchView = (Seq<CanonicalMessage>, Seq<OffsetView>, Seq<(Option<Seq<char>>, Option<Seq<char>>)>, Option<PrefetchError>);

/// The batch after taking `item`.
pub open spec fn batch_step(b: BatchView, item: Result<Prefetched, PrefetchError>) -> BatchView {
    match item {
        Ok(p) => (
            b.0.push(p.message),
            with_offset(b.1, p.topic@, p.partition, p.offset),
            b.2.push(reply_info_of(p.message)),
            b.3,
        ),
        Err(e) => (b.0, b.1, b.2, Some(e)),
    }
}

/// The batch that taking `items` in order makes.
pub open spec fn batch_of(items: Seq<Result<Prefetched, PrefetchError>>) -> BatchView
    decreases items.len(),
{
    if items.len() == 0 {
        (Seq::empty(), Seq::empty(), Seq::empty(), None)
    } else {
        batch_step(batch_of(items.drop_last()), items.last())
    }
}

pub open spec fn opt_view(o: Option<String>) -> Option<Seq<char>> {
    match o {
        Some(s) => Some(s@),
        None => None,
    }
}

/// A batch being taken off the prefetch channel.
#[derive(Debug)]
pub struct BatchParts {
    pub messages: Vec<CanonicalMessage>,
    pub offsets: Vec<(String, i32, i64)>,
    /// For each message, its `reply_to` and `correlation_id`.
    pub reply_infos: Vec<(Option<String>, Option<String>)>,
    /// The error that ended the stream, delivered once the messages before it are.
    pub terminal: Option<PrefetchError>,
}

impl View for BatchParts {
    type V = BatchView;

    open spec fn view(&self) -> BatchView {
        (
            self.messages@,
            offsets_view(self.offsets@),
            self.reply_infos@.map_values(|r: (Option<String>, Option<String>)| (opt_view(r.0), opt_view(r.1))),
            self.terminal,
        )
    }
}

fn get_text(m: &CanonicalMessage, key: &str) -> (r: Option<String>)
    ensures
        opt_view(r) == value_of(m.metadata@, key@),
{
    match m.metadata.get(key) {
        Some(v) => Some(v.clone()),
        None => None,
    }
}

impl BatchParts {
    /// An empty batch.
    pub fn new() -> (r: Self)
        ensures
            r@ == batch_of(Seq::empty()),
    {
        let r = BatchParts { messages: Vec::new(), offsets: Vec::new(), reply_infos: Vec::new(), terminal: None };
        assert(r@.2 =~= Seq::<(Option<Seq<char>>, Option<Seq<char>>)>::empty());
        assert(r@.1 =~= Seq::<OffsetView>::empty());
        r
    }

    /// Whether the batch takes another item: no error yet, and room for more messages.
    pub fn wants_more(&self, max_messages: usize) -> (r: bool)
        ensures
            r == (self.terminal is None && self.messages@.len() < max_messages),
    {
        self.terminal.is_none() && self.messages.len() < max_messages
    }

    /// Takes one item into the batch: a record joins it, an error ends it.
    pub fn take(&mut self, item: Result<Prefetched, PrefetchError>)
        ensures
            final(self)@ == batch_step(old(self)@, item),
    {
        let ghost before = self@;
        let ghost it = item;
        match item {
            Ok(p) => {
                let reply_to = get_text(&p.message, "reply_to");
                let correlation_id = get_text(&p.message, "correlation_id");
                let ghost old_replies = self.reply_infos@;
                self.reply_infos.push((reply_to, correlation_id));
                let ghost old_offsets = self.offsets@;
                record_offset(&mut self.offsets, p.topic.as_str(), p.partition, p.offset);
                proof {
                    lemma_recorded_view(old_offsets, self.offsets@, p.topic@, p.partition, p.offset);
                    reveal_strlit("reply_to");
                    reveal_strlit("correlation_id");
                }
                self.messages.push(p.message);
                assert(self@.2 =~= before.2.push(reply_info_of(p.message)));
                assert(self@ == batch_step(before, it));
            },
            Err(e) => {
                self.terminal = Some(e);
            },
        }
    }
}

/// The prefetch channel's receiving end.
#[verifier::external_type_specification]
#[verifier::external_body]
#[verifier::reject_recursive_types(T)]
pub struct ExReceiver<T>(async_channel::Receiver<T>);

/// Calls `async_channel::Receiver::try_recv`: the next item where one is ready. Other tasks
/// fill the channel, so nothing is stated of what comes back.
#[verifier::external_body]
fn try_take<T>(rx: &async_channel::Receiver<T>) -> Option<T> {
    rx.try_recv().ok()
}

/// Whether taking the items of `all` in order ever went on past the point where the batch
/// stops: past an error, or past `max_messages` records.
pub open spec fn overran(all: Seq<Result<Prefetched, PrefetchError>>, max_messages: usize) -> bool {
    exists|i: int| 0 <= i < all.len() - 1 && (all[i] is Err || i + 1 >= max_messages)
}

/// Takes `first` plus whatever else is already waiting on the channel, one item at a time,
/// until the batch holds `max_messages` records, an error ends it, or nothing more is
/// ready; what is not taken stays on the channel for the next batch.
pub fn assemble_batch(
    first: Result<Prefetched, PrefetchError>,
    rx: &async_channel::Receiver<Result<Prefetched, PrefetchError>>,
    max_messages: usize,
) -> (r: BatchParts)
    ensures
        exists|taken: Seq<Result<Prefetched, PrefetchError>>|
            r@ == #[trigger] batch_of(seq![first] + taken) && !overran(seq![first] + taken, max_messages),
{
    let ghost mut taken: Seq<Result<Prefetched, PrefetchError>> = Seq::empty();
    let first_failed = first.is_err();
    let mut parts = BatchParts::new();
    parts.take(first);
    proof {
        assert((seq![first] + taken).drop_last() =~= Seq::<Result<Prefetched, PrefetchError>>::empty());
        assert(seq![first] + taken =~= seq![first]);
        assert((seq![first] + taken).last() == first);
    }
    assert(parts@ == batch_of(seq![first] + taken));
    if first_failed {
        return parts;
    }
    while parts.wants_more(max_messages)
        invariant
            parts@ == batch_of(seq![first] + taken),
            !overran(seq![first] + taken, max_messages),
            forall|i: int| 0 <= i < taken.len() + 1 ==> (#[trigger] (seq![first] + taken)[i]) is Ok,
            parts.messages@.len() == taken.len() + 1,
        decreases max_messages - parts.messages@.len(),
    {
        match try_take(rx) {
            Some(item) => {
                let ghost before = seq![first] + taken;
                let ghost n = before.len();
                proof {
                    taken = taken.push(item);
                    assert((seq![first] + taken).drop_last() =~= before);
                    assert((seq![first] + taken).last() == item);
                    let all = seq![first] + taken;
                    assert forall|i: int| 0 <= i < all.len() - 1 implies !(all[i] is Err || i + 1 >= max_messages) by {
                        assert(all[i] == before[i]);
                    }
                }
                let is_err = item.is_err();
                parts.take(item);
                assert(parts@ == batch_of(seq![first] + taken));
                if is_err {
                    return parts;
                }
                proof {
                    let all = seq![first] + taken;
                    assert forall|i: int| 0 <= i < taken.len() + 1 implies (#[trigger] all[i]) is Ok by {
                        if i < n {
                            assert(all[i] == before[i]);
                        }
                    }
                }
            },
            None => {
                return parts;
            },
        }
    }
    parts
}

} // verus!
