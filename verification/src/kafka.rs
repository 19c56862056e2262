//! The record-level rules of the Kafka endpoint: the key and headers a message is published
//! with, how a consumed record becomes a message again, and the per-partition bookkeeping of
//! a batch and of a drain.
use crate::digits::{
    all_digits, be_bytes, be_bytes_u128, be_u128, be_value, decimal_i64, digits_value, hex32,
    hex_fixed, lemma_be_bytes_roundtrip, lemma_hex32_roundtrip, parse_u128, parse_u128_text,
    signed_decimal,
};
use crate::message::{
    entries_map, is_source_key, is_source_metadata_key, keys_distinct, CanonicalMessage,
};
use crate::text::{bytes_text, has_prefix, lossy_text, str_eq, strip_prefix};
use vstd::prelude::*;
use vstd::string::*;

verus! {

/// Metadata flag marking a compacted-topic tombstone (a record with no value).
pub const KAFKA_TOMBSTONE_KEY: &'static str = "mqb.kafka.tombstone";

/// The record header that carries a message's id.
pub const MESSAGE_ID_HEADER: &'static str = "mq_bridge.message_id";

/// The id a UUID text denotes, where it is one.
pub uninterp spec fn uuid_value(text: Seq<char>) -> Option<u128>;

/// Reads a UUID in any of the forms `uuid` writes (simple, hyphenated, URN, braced).
///
/// Calls `uuid::Uuid::parse_str` and `as_u128`. The value is named by [`uuid_value`], a
/// function of the text alone; of the simple form, 32 hexadecimal digits in either case, it
/// states what the crate's parser shows: the digits read as one big-endian number.
#[verifier::external_body]
pub(crate) fn uuid_from_text(text: &str) -> (r: Option<u128>)
    ensures
        r == uuid_value(text@),
        text@.len() == 32 && all_digits(text@, 16) ==> r == Some(digits_value(text@, 16) as u128),
{
    match uuid::Uuid::parse_str(text) {
        Ok(u) => Some(u.as_u128()),
        Err(_) => None,
    }
}

/// The id an id header's text gives, given what it reads as a UUID: the UUID; else, after a
/// `0x` or `0X`, hexadecimal digits; else 32 hexadecimal digits; else a decimal number.
pub open spec fn id_from_text(text: Seq<char>, as_uuid: Option<u128>) -> Option<u128> {
    match as_uuid {
        Some(v) => Some(v),
        None => if has_prefix(text, "0x"@) || has_prefix(text, "0X"@) {
            parse_u128(text.subrange(2, text.len() as int), 16)
        } else if text.len() == 32 && all_digits(text, 16) {
            parse_u128(text, 16)
        } else {
            parse_u128(text, 10)
        },
    }
}

/// The id an id header's text gives, given `as_uuid`, what the text reads as a UUID.
pub fn message_id_from_text(text: &str, as_uuid: Option<u128>) -> (r: Option<u128>)
    ensures
        r == id_from_text(text@, as_uuid),
{
    proof {
        reveal_strlit("0x");
        reveal_strlit("0X");
    }
    if let Some(v) = as_uuid {
        return Some(v);
    }
    match strip_prefix(text, "0x") {
        Some(hex) => parse_u128_text(hex, 16),
        None => match strip_prefix(text, "0X") {
            Some(hex) => parse_u128_text(hex, 16),
            None => {
                if text.unicode_len() == 32 && all_hex(text) {
                    parse_u128_text(text, 16)
                } else {
                    parse_u128_text(text, 10)
                }
            },
        },
    }
}

fn all_hex(text: &str) -> (r: bool)
    ensures
        r == (text@.len() > 0 && forall|i: int|
            0 <= i < text@.len() ==> crate::digits::is_radix_digit(#[trigger] text@[i], 16)),
{
    let n = text.unicode_len();
    if n == 0 {
        return false;
    }
    let mut i: usize = 0;
    while i < n
        invariant
            n == text@.len(),
            i <= n,
            forall|k: int| 0 <= k < i ==> crate::digits::is_radix_digit(#[trigger] text@[k], 16),
        decreases n - i,
    {
        let c = text.get_char(i);
        if !(('0' <= c && c <= '9') || ('a' <= c && c <= 'f') || ('A' <= c && c <= 'F')) {
            assert(!crate::digits::is_radix_digit(text@[i as int], 16));
            return false;
        }
        i = i + 1;
    }
    true
}

/// One record as read from a topic: what the conversion into a message reads of it.
pub struct KafkaRecord {
    /// The value; `None` for a tombstone.
    pub payload: Option<Vec<u8>>,
    pub key: Option<Vec<u8>>,
    /// The headers in record order: name and optional value.
    pub headers: Vec<(String, Option<Vec<u8>>)>,
    pub topic: String,
    pub partition: i32,
    pub offset: i64,
}

/// Whether a header name carries a message id.
pub open spec fn is_id_header(name: Seq<char>) -> bool {
    name == "message_id"@ || name == MESSAGE_ID_HEADER@
}

/// The id one header gives, if it is an id header whose value reads as an id.
pub open spec fn id_of_header(h: (String, Option<Vec<u8>>)) -> Option<u128> {
    match h.1 {
        Some(v) => if is_id_header(h.0@) {
            id_from_text(bytes_text(v@), uuid_value(bytes_text(v@)))
        } else {
            None
        },
        None => None,
    }
}

/// The id of the first header, from position `i` on, that gives one.
pub open spec fn header_id_from(hs: Seq<(String, Option<Vec<u8>>)>, i: nat) -> Option<u128>
    decreases hs.len() - i,
{
    if i >= hs.len() {
        None
    } else {
        match id_of_header(hs[i as int]) {
            Some(v) => Some(v),
            None => header_id_from(hs, i + 1),
        }
    }
}

/// The id made of a record's position: the partition in the high 64 bits, the offset in the
/// low 64.
pub open spec fn position_id(partition: i32, offset: i64) -> u128 {
    (((partition as u32) as u128) << 64u128) | ((offset as u64) as u128)
}

/// The id a consumed record gets: from its id header; else from a 16-byte key, read
/// big-endian; else from its position.
pub open spec fn record_id(r: KafkaRecord) -> u128 {
    match header_id_from(r.headers@, 0) {
        Some(id) => id,
        None => match r.key {
            Some(k) => if k@.len() == 16 {
                be_value(k@) as u128
            } else {
                position_id(r.partition, r.offset)
            },
            None => position_id(r.partition, r.offset),
        },
    }
}

/// The metadata the headers `hs` make: each name not reserved for source provenance holds
/// its value as text, a later header replacing an earlier one of the same name.
pub open spec fn header_metadata(hs: Seq<(String, Option<Vec<u8>>)>) -> Map<Seq<char>, Seq<char>>
    decreases hs.len(),
{
    if hs.len() == 0 {
        Map::empty()
    } else {
        let m = header_metadata(hs.drop_last());
        let h = hs.last();
        if is_source_key(h.0@) {
            m
        } else {
            m.insert(
                h.0@,
                bytes_text(
                    match h.1 {
                        Some(v) => v@,
                        None => Seq::empty(),
                    },
                ),
            )
        }
    }
}

/// The metadata of the message a record becomes: its headers, and the tombstone flag where
/// the record has no value.
pub open spec fn record_metadata(r: KafkaRecord) -> Map<Seq<char>, Seq<char>> {
    if r.payload is None {
        header_metadata(r.headers@).insert(KAFKA_TOMBSTONE_KEY@, "true"@)
    } else {
        header_metadata(r.headers@)
    }
}

fn copy_bytes(s: &[u8]) -> (r: Vec<u8>)
    ensures
        r@ == s@,
{
    let mut out: Vec<u8> = Vec::new();
    let mut i: usize = 0;
    while i < s.len()
        invariant
            i <= s@.len(),
            out@ == s@.subrange(0, i as int),
        decreases s@.len() - i,
    {
        out.push(s[i]);
        i = i + 1;
        assert(out@ =~= s@.subrange(0, i as int));
    }
    assert(s@.subrange(0, s@.len() as int) =~= s@);
    out
}

fn id_of_header_exec(h: &(String, Option<Vec<u8>>)) -> (r: Option<u128>)
    ensures
        r == id_of_header(*h),
{
    match &h.1 {
        Some(v) => {
            let name = h.0.as_str();
            if str_eq(name, "message_id") || str_eq(name, MESSAGE_ID_HEADER) {
                let text = lossy_text(v.as_slice());
                let as_uuid = uuid_from_text(text.as_str());
                message_id_from_text(text.as_str(), as_uuid)
            } else {
                None
            }
        },
        None => None,
    }
}

/// Turns one consumed record into a message: its value (empty for a tombstone), the id it
/// carries, and its headers as metadata.
pub fn to_canonical(record: &KafkaRecord) -> (r: CanonicalMessage)
    ensures
        r.payload@ == match record.payload {
            Some(p) => p@,
            None => Seq::empty(),
        },
        r.message_id == record_id(*record),
        header_id_from(record.headers@, 0) is None && record.key is None ==> r.message_id as int
            == (record.partition as u32) as int * 0x1_0000_0000_0000_0000 + (record.offset as u64) as int,
        r.metadata@ == record_metadata(*record),
{
    proof {
        if header_id_from(record.headers@, 0) is None && record.key is None {
            lemma_record_without_id_is_named_by_position(*record);
        }
    }
    let hs = &record.headers;
    let mut found: Option<u128> = None;
    let mut i: usize = 0;
    while i < hs.len()
        invariant
            i <= hs@.len(),
            hs@ == record.headers@,
            header_id_from(hs@, 0) == match found {
                Some(v) => Some(v),
                None => header_id_from(hs@, i as nat),
            },
        decreases hs@.len() - i,
    {
        if found.is_none() {
            found = id_of_header_exec(&hs[i]);
        }
        i = i + 1;
    }
    let id: u128 = match found {
        Some(v) => v,
        None => match &record.key {
            Some(k) => {
                if k.len() == 16 {
                    be_u128(k.as_slice())
                } else {
                    ((record.partition as u32 as u128) << 64u128) | (record.offset as u64 as u128)
                }
            },
            None => ((record.partition as u32 as u128) << 64u128) | (record.offset as u64 as u128),
        },
    };
    let payload = match &record.payload {
        Some(p) => copy_bytes(p.as_slice()),
        None => Vec::new(),
    };
    let mut message = CanonicalMessage::new(payload, Some(id));
    let mut j: usize = 0;
    while j < hs.len()
        invariant
            j <= hs@.len(),
            hs@ == record.headers@,
            message.metadata@ == header_metadata(hs@.subrange(0, j as int)),
            message.message_id == id,
            message.payload@ == match record.payload {
                Some(p) => p@,
                None => Seq::empty(),
            },
        decreases hs@.len() - j,
    {
        let ghost pre = hs@.subrange(0, j + 1);
        assert(pre.drop_last() =~= hs@.subrange(0, j as int));
        let name = hs[j].0.as_str();
        assert(pre.last() == hs@[j as int]);
        if !is_source_metadata_key(name) {
            let value = match &hs[j].1 {
                Some(v) => lossy_text(v.as_slice()),
                None => {
                    let nothing: Vec<u8> = Vec::new();
                    assert(nothing@ =~= Seq::<u8>::empty());
                    lossy_text(nothing.as_slice())
                },
            };
            message.metadata.insert(String::from_str(name), value);
        }
        j = j + 1;
    }
    assert(hs@.subrange(0, hs@.len() as int) =~= hs@);
    if record.payload.is_none() {
        message.metadata.insert(String::from_str(KAFKA_TOMBSTONE_KEY), String::from_str("true"));
    }
    message
}

/// Turns a record into a message stamped with where it was read: topic, partition, offset.
pub fn to_canonical_with_source_metadata(record: &KafkaRecord) -> (r: CanonicalMessage)
    ensures
        r.payload@ == match record.payload {
            Some(p) => p@,
            None => Seq::empty(),
        },
        r.message_id == record_id(*record),
        r.metadata@ == record_metadata(*record).insert(
            "mqb.src.kafka_topic"@,
            record.topic@,
        ).insert("mqb.src.kafka_partition"@, signed_decimal(record.partition as int)).insert(
            "mqb.src.kafka_offset"@,
            signed_decimal(record.offset as int),
        ),
{
    let mut message = to_canonical(record);
    message.metadata.insert(
        String::from_str("mqb.src.kafka_topic"),
        String::from_str(record.topic.as_str()),
    );
    message.metadata.insert(
        String::from_str("mqb.src.kafka_partition"),
        decimal_i64(record.partition as i64),
    );
    message.metadata.insert(String::from_str("mqb.src.kafka_offset"), decimal_i64(record.offset));
    message
}

/// The key a message is published with: the value of the configured metadata field where
/// it is set and present, else the message id as 16 big-endian bytes.
pub open spec fn record_key_of(partition_key: Option<Seq<char>>, m: CanonicalMessage) -> Seq<u8> {
    match partition_key {
        Some(f) => if m.metadata@.contains_key(f) {
            vstd::utf8::encode_utf8(m.metadata@[f])
        } else {
            be_bytes(m.message_id as nat, 16)
        },
        None => be_bytes(m.message_id as nat, 16),
    }
}

/// Chooses the record key for a message (see [`record_key_of`]).
pub fn record_key(partition_key: Option<&str>, message: &CanonicalMessage) -> (r: Vec<u8>)
    ensures
        r@ == record_key_of(
            match partition_key {
                Some(f) => Some(f@),
                None => None,
            },
            *message,
        ),
{
    match partition_key {
        Some(f) => match message.metadata.get(f) {
            Some(v) => copy_bytes(v.as_str().as_bytes()),
            None => be_bytes_u128(message.message_id),
        },
        None => be_bytes_u128(message.message_id),
    }
}

/// Whether a message is flagged as a compacted-topic tombstone.
pub fn is_tombstone(message: &CanonicalMessage) -> (r: bool)
    ensures
        r == (message.metadata@.contains_key(KAFKA_TOMBSTONE_KEY@)
            && message.metadata@[KAFKA_TOMBSTONE_KEY@] == "true"@),
{
    match message.metadata.get(KAFKA_TOMBSTONE_KEY) {
        Some(v) => str_eq(v.as_str(), "true"),
        None => false,
    }
}

/// Whether a metadata key is kept off published records: the tombstone flag, which is
/// re-expressed by omitting the value, and source provenance.
pub open spec fn unpublished_key(k: Seq<char>) -> bool {
    k == KAFKA_TOMBSTONE_KEY@ || is_source_key(k)
}

/// `hs` are the headers a message with id `id` and metadata `m` is published with: the id
/// header first, then each publishable metadata entry once, its value as UTF-8.
pub open spec fn published_headers(hs: Seq<(String, Vec<u8>)>, id: u128, m: Map<Seq<char>, Seq<char>>) -> bool {
    &&& hs.len() >= 1
    &&& hs[0].0@ == MESSAGE_ID_HEADER@
    &&& hs[0].1@ == vstd::utf8::encode_utf8(hex_fixed(id as nat, 32))
    &&& forall|i: int|
        1 <= i < hs.len() ==> !unpublished_key(#[trigger] hs[i].0@) && m.contains_key(hs[i].0@)
            && hs[i].1@ == vstd::utf8::encode_utf8(m[hs[i].0@])
    &&& forall|i: int, j: int| 1 <= i < j < hs.len() ==> #[trigger] hs[i].0@ != #[trigger] hs[j].0@
    &&& forall|k: Seq<char>|
        #[trigger] m.contains_key(k) && !unpublished_key(k) ==> exists|i: int|
            1 <= i < hs.len() && #[trigger] hs[i].0@ == k
}

/// The headers to publish with a message: its id, then its metadata.
pub fn message_headers(message: &CanonicalMessage) -> (r: Vec<(String, Vec<u8>)>)
    ensures
        published_headers(r@, message.message_id, message.metadata@),
{
    let id_text = hex32(message.message_id);
    let mut out: Vec<(String, Vec<u8>)> = Vec::new();
    out.push((String::from_str(MESSAGE_ID_HEADER), copy_bytes(id_text.as_str().as_bytes())));
    let entries = message.metadata.entries();
    let ghost m = message.metadata@;
    let mut i: usize = 0;
    while i < entries.len()
        invariant
            keys_distinct(entries@),
            entries_map(entries@) == m,
            i <= entries@.len(),
            out@.len() >= 1,
            out@[0].0@ == MESSAGE_ID_HEADER@,
            out@[0].1@ == vstd::utf8::encode_utf8(hex_fixed(message.message_id as nat, 32)),
            forall|a: int|
                1 <= a < out@.len() ==> !unpublished_key(#[trigger] out@[a].0@) && exists|b: int|
                    0 <= b < i && out@[a].0@ == entries@[b].0@ && out@[a].1@
                        == vstd::utf8::encode_utf8(entries@[b].1@),
            forall|a: int, c: int|
                1 <= a < c < out@.len() ==> #[trigger] out@[a].0@ != #[trigger] out@[c].0@,
            forall|b: int|
                0 <= b < i && !unpublished_key(#[trigger] entries@[b].0@) ==> exists|a: int|
                    1 <= a < out@.len() && out@[a].0@ == entries@[b].0@,
        decreases entries@.len() - i,
    {
        let key = entries[i].0.as_str();
        if !str_eq(key, KAFKA_TOMBSTONE_KEY) && !is_source_metadata_key(key) {
            let ghost before = out@;
            out.push((String::from_str(key), copy_bytes(entries[i].1.as_str().as_bytes())));
            proof {
                assert forall|a: int, c: int| 1 <= a < c < out@.len() implies #[trigger] out@[a].0@
                    != #[trigger] out@[c].0@ by {
                    if c == out@.len() - 1 {
                        let b = choose|b: int|
                            0 <= b < i && before[a].0@ == entries@[b].0@ && before[a].1@
                                == vstd::utf8::encode_utf8(entries@[b].1@);
                        assert(b != i as int);
                    }
                }
                assert forall|a: int|
                    1 <= a < out@.len() implies !unpublished_key(#[trigger] out@[a].0@) && exists|
                        b: int,
                    |
                        0 <= b < i + 1 && out@[a].0@ == entries@[b].0@ && out@[a].1@
                            == vstd::utf8::encode_utf8(entries@[b].1@) by {
                    if a == out@.len() - 1 {
                        assert(out@[a].0@ == entries@[i as int].0@);
                    } else {
                        assert(out@[a] == before[a]);
                    }
                }
                assert forall|b: int|
                    0 <= b < i + 1 && !unpublished_key(#[trigger] entries@[b].0@) implies exists|
                        a: int,
                    | 1 <= a < out@.len() && out@[a].0@ == entries@[b].0@ by {
                    if b == i as int {
                        assert(out@[out@.len() - 1].0@ == entries@[b].0@);
                    } else {
                        let a = choose|a: int|
                            1 <= a < before.len() && before[a].0@ == entries@[b].0@;
                        assert(out@[a] == before[a]);
                    }
                }
            }
        }
        i = i + 1;
    }
    proof {
        assert forall|a: int|
            1 <= a < out@.len() implies !unpublished_key(#[trigger] out@[a].0@) && m.contains_key(
            out@[a].0@,
        ) && out@[a].1@ == vstd::utf8::encode_utf8(m[out@[a].0@]) by {
            let b = choose|b: int|
                0 <= b < entries@.len() && out@[a].0@ == entries@[b].0@ && out@[a].1@
                    == vstd::utf8::encode_utf8(entries@[b].1@);
            crate::message::lemma_entries_at(entries@, b);
        }
        assert forall|k: Seq<char>| #[trigger] m.contains_key(k) && !unpublished_key(k) implies exists|
            i: int,
        | 1 <= i < out@.len() && #[trigger] out@[i].0@ == k by {
            crate::message::lemma_entries_dom(entries@, k);
            let b = choose|b: int| 0 <= b < entries@.len() && entries@[b].0@ == k;
            assert(!unpublished_key(entries@[b].0@));
        }
    }
    out
}

/// The first position, from `i` on, of the entry recorded for `partition` of `topic`.
pub open spec fn slot_from(s: Seq<(String, i32, i64)>, topic: Seq<char>, partition: i32, i: nat) -> Option<
    int,
>
    decreases s.len() - i,
{
    if i >= s.len() {
        None
    } else if s[i as int].1 == partition && s[i as int].0@ == topic {
        Some(i as int)
    } else {
        slot_from(s, topic, partition, i + 1)
    }
}

/// What recording `offset` for `partition` of `topic` does to the batch's offsets `old`:
/// the entry for that partition takes the new offset, or a new entry is added last.
pub open spec fn offset_recorded(
    old: Seq<(String, i32, i64)>,
    new: Seq<(String, i32, i64)>,
    topic: Seq<char>,
    partition: i32,
    offset: i64,
) -> bool {
    match slot_from(old, topic, partition, 0) {
        Some(i) => new == old.update(i, (old[i].0, partition, offset)),
        None => new.len() == old.len() + 1 && new.drop_last() == old && new.last().0@ == topic
            && new.last().1 == partition && new.last().2 == offset,
    }
}

/// Records the offset to commit for one partition of a batch, replacing the offset already
/// recorded for that partition.
pub fn record_offset(offsets: &mut Vec<(String, i32, i64)>, topic: &str, partition: i32, offset: i64)
    ensures
        offset_recorded(old(offsets)@, final(offsets)@, topic@, partition, offset),
{
    let mut i: usize = 0;
    while i < offsets.len()
        invariant
            offsets@ == old(offsets)@,
            i <= offsets@.len(),
            slot_from(offsets@, topic@, partition, 0) == slot_from(offsets@, topic@, partition, i as nat),
        decreases offsets@.len() - i,
    {
        if offsets[i].1 == partition && str_eq(offsets[i].0.as_str(), topic) {
            let t = offsets[i].0.clone();
            offsets.set(i, (t, partition, offset));
            return;
        }
        i = i + 1;
    }
    assert(slot_from(offsets@, topic@, partition, i as nat) is None);
    offsets.push((String::from_str(topic), partition, offset));
    assert(offsets@.drop_last() =~= old(offsets)@);
}

/// Whether no two entries of a batch's offsets are for the same partition of a topic.
pub open spec fn one_entry_per_partition(s: Seq<(String, i32, i64)>) -> bool {
    forall|i: int, j: int|
        0 <= i < j < s.len() ==> !((#[trigger] s[i]).1 == (#[trigger] s[j]).1 && s[i].0@
            == s[j].0@)
}

pub(crate) proof fn lemma_slot_from(s: Seq<(String, i32, i64)>, topic: Seq<char>, partition: i32, i: nat)
    ensures
        match slot_from(s, topic, partition, i) {
            Some(k) => i <= k < s.len() && s[k].1 == partition && s[k].0@ == topic,
            None => forall|k: int|
                i <= k < s.len() ==> !((#[trigger] s[k]).1 == partition && s[k].0@ == topic),
        },
    decreases s.len() - i,
{
    if i < s.len() {
        lemma_slot_from(s, topic, partition, i + 1);
    }
}

/// Recording offsets keeps exactly one entry per partition: the entry for the partition
/// just recorded holds the offset just recorded, every other entry stays as it was and in
/// place, and the list grows by one, at its end, exactly where the partition had no entry.
pub proof fn lemma_record_offset_keeps_one_entry(
    old: Seq<(String, i32, i64)>,
    new: Seq<(String, i32, i64)>,
    topic: Seq<char>,
    partition: i32,
    offset: i64,
)
    requires
        one_entry_per_partition(old),
        offset_recorded(old, new, topic, partition, offset),
    ensures
        one_entry_per_partition(new),
        exists|i: int|
            0 <= i < new.len() && (#[trigger] new[i]).1 == partition && new[i].0@ == topic
                && new[i].2 == offset,
        forall|j: int|
            0 <= j < new.len() && (#[trigger] new[j]).1 == partition && new[j].0@ == topic ==> new[j].2 == offset,
        forall|j: int|
            0 <= j < old.len() && !((#[trigger] old[j]).1 == partition && old[j].0@ == topic) ==> new[j] == old[j],
        new.len() <= old.len() + 1,
        new.len() == old.len() + 1 <==> forall|j: int|
            0 <= j < old.len() ==> !((#[trigger] old[j]).1 == partition && old[j].0@ == topic),
{
    lemma_slot_from(old, topic, partition, 0);
    match slot_from(old, topic, partition, 0) {
        Some(i) => {
            assert(new[i].1 == partition && new[i].0@ == topic && new[i].2 == offset);
            assert forall|a: int, b: int| 0 <= a < b < new.len() implies !((#[trigger] new[a]).1
                == (#[trigger] new[b]).1 && new[a].0@ == new[b].0@) by {
                assert(old[a].1 == new[a].1 && old[a].0@ == new[a].0@);
                assert(old[b].1 == new[b].1 && old[b].0@ == new[b].0@);
            }
        },
        None => {
            let last = new.len() - 1;
            assert(new[last].1 == partition && new[last].0@ == topic && new[last].2 == offset);
            assert forall|a: int, b: int| 0 <= a < b < new.len() implies !((#[trigger] new[a]).1
                == (#[trigger] new[b]).1 && new[a].0@ == new[b].0@) by {
                assert(new[a] == old[a]);
                if b < last {
                    assert(new[b] == old[b]);
                }
            }
        },
    }
}

/// Whether a drain has taken a partition to its target `high`: the topic held nothing, or
/// the pipeline was handed the record before it, or the ordered stream reported the end of
/// the partition there. A fetch position alone is no such barrier.
pub fn drain_offset_reached(high: i64, delivered: Option<i64>, eof: Option<i64>) -> (r: bool)
    ensures
        r == (high == 0 || (delivered matches Some(d) && d >= high) || (eof matches Some(e) && e
            >= high)),
{
    high == 0 || match delivered {
        Some(d) => d >= high,
        None => false,
    } || match eof {
        Some(e) => e >= high,
        None => false,
    }
}

/// How many records may wait between the broker client and the pipeline when no override
/// is configured: four batches, but no fewer than 8192 and no more than 262144.
pub open spec fn default_prefetch_capacity(max_messages: nat) -> nat {
    let want = max_messages * 4;
    if want < 8192 {
        8192
    } else if want > 262_144 {
        262_144
    } else {
        want
    }
}

/// The prefetch capacity: a positive `configured` override, else the default for batches
/// of `max_messages`.
pub fn prefetch_capacity(configured: Option<usize>, max_messages: usize) -> (r: usize)
    requires
        (configured matches Some(n) && n > 0) || max_messages * 4 <= usize::MAX,
    ensures
        r == match configured {
            Some(n) => if n > 0 {
                n as nat
            } else {
                default_prefetch_capacity(max_messages as nat)
            },
            None => default_prefetch_capacity(max_messages as nat),
        },
{
    match configured {
        Some(n) => {
            if n > 0 {
                return n;
            }
        },
        None => {},
    }
    let want = max_messages * 4;
    if want < 8192 {
        8192
    } else if want > 262_144 {
        262_144
    } else {
        want
    }
}

/// The text of a published id header reads back as the id, whether or not the UUID reader
/// takes it (it takes 32 hexadecimal digits as exactly their big-endian value).
pub proof fn lemma_id_header_roundtrip(id: u128, as_uuid: Option<u128>)
    requires
        as_uuid is None || as_uuid == Some(id),
    ensures
        id_from_text(hex_fixed(id as nat, 32), as_uuid) == Some(id),
{
    let t = hex_fixed(id as nat, 32);
    lemma_hex32_roundtrip(id);
    reveal_strlit("0x");
    reveal_strlit("0X");
    if as_uuid is None {
        assert(crate::digits::is_radix_digit(t[1], 16));
        assert(!has_prefix(t, "0x"@)) by {
            if has_prefix(t, "0x"@) {
                assert(t.subrange(0, 2)[1] == t[1]);
            }
        }
        assert(!has_prefix(t, "0X"@)) by {
            if has_prefix(t, "0X"@) {
                assert(t.subrange(0, 2)[1] == t[1]);
            }
        }
        assert(t[0] != '+') by {
            assert(crate::digits::is_radix_digit(t[0], 16));
        }
    }
}

/// A message published with id `id` is read back with that id: the record's first header
/// is the id header it was published with, and the UUID reader either refuses its text or
/// reads it as the id.
pub proof fn lemma_published_id_is_recovered(r: KafkaRecord, id: u128)
    requires
        r.headers@.len() >= 1,
        r.headers@[0].0@ == MESSAGE_ID_HEADER@,
        r.headers@[0].1 matches Some(v) && v@ == vstd::utf8::encode_utf8(hex_fixed(id as nat, 32)),
        uuid_value(hex_fixed(id as nat, 32)) is None || uuid_value(hex_fixed(id as nat, 32)) == Some(
            id,
        ),
    ensures
        record_id(r) == id,
{
    let t = hex_fixed(id as nat, 32);
    vstd::utf8::encode_utf8_valid_utf8(t);
    vstd::utf8::encode_utf8_decode_utf8(t);
    lemma_id_header_roundtrip(id, uuid_value(t));
    assert(vstd::utf8::decode_utf8(vstd::utf8::encode_utf8(t)) == t);
}

/// Reading back the key a message is published with, where no partition key applies, gives
/// its id.
pub proof fn lemma_record_key_carries_id(m: CanonicalMessage)
    ensures
        record_key_of(None, m).len() == 16,
        be_value(record_key_of(None, m)) == m.message_id,
{
    lemma_be_bytes_roundtrip(m.message_id);
}

/// A count an environment override sets: a decimal number above zero, as `str::parse`
/// reads it; anything else sets none.
pub open spec fn positive_count(value: Option<Seq<char>>) -> Option<usize> {
    match value {
        Some(v) => match parse_u128(v, 10) {
            Some(n) => if 0 < n && n <= usize::MAX {
                Some(n as usize)
            } else {
                None
            },
            None => None,
        },
        None => None,
    }
}

/// The count an environment override sets (see [`positive_count`]).
pub fn env_count(value: Option<&str>) -> (r: Option<usize>)
    ensures
        r == positive_count(crate::http::opt_str_view(value)),
{
    match value {
        Some(v) => match parse_u128_text(v, 10) {
            Some(n) => if 0 < n && n <= usize::MAX as u128 {
                Some(n as usize)
            } else {
                None
            },
            None => None,
        },
        None => None,
    }
}

/// How many payload bytes may wait in the prefetch channel: the override where it sets a
/// count, else 64 MiB.
pub fn prefetch_byte_budget(value: Option<&str>) -> (r: usize)
    ensures
        r == match positive_count(crate::http::opt_str_view(value)) {
            Some(n) => n,
            None => 67108864usize,
        },
{
    match env_count(value) {
        Some(n) => n,
        None => 67108864,
    }
}

/// How long a draining consumer waits to be given its partitions, in milliseconds: the
/// override where it is a decimal `u64`, else 30 s.
pub fn drain_join_timeout_ms(value: Option<&str>) -> (r: u64)
    ensures
        r == match crate::http::opt_str_view(value) {
            Some(v) => match parse_u128(v, 10) {
                Some(n) => if n <= u64::MAX { n as u64 } else { 30000u64 },
                None => 30000u64,
            },
            None => 30000u64,
        },
{
    match value {
        Some(v) => match parse_u128_text(v, 10) {
            Some(n) => if n <= u64::MAX as u128 {
                n as u64
            } else {
                30000
            },
            None => 30000,
        },
        None => 30000,
    }
}

/// A record that carries no id, neither in a header nor in a 16-byte key, is named by its
/// position: its partition (as an unsigned 32-bit number) times 2^64, plus its offset (as
/// an unsigned 64-bit number). Records at the same offset of different partitions, or at
/// different offsets of one partition, so never share an id.
pub proof fn lemma_record_without_id_is_named_by_position(r: KafkaRecord)
    requires
        header_id_from(r.headers@, 0) is None,
        match r.key {
            Some(k) => k@.len() != 16,
            None => true,
        },
    ensures
        record_id(r) as int == (r.partition as u32) as int * 0x1_0000_0000_0000_0000 + (r.offset as u64) as int,
{
    let p: u32 = r.partition as u32;
    let o: u64 = r.offset as u64;
    assert((((p as u128) << 64u128) | (o as u128)) == (p as u128) * 0x1_0000_0000_0000_0000u128 + (o as u128))
        by (bit_vector);
}

/// Two records without an id of their own get the same id only where they stand at the
/// same partition and offset.
pub proof fn lemma_positions_name_records_apart(a: KafkaRecord, b: KafkaRecord)
    requires
        header_id_from(a.headers@, 0) is None,
        header_id_from(b.headers@, 0) is None,
        a.key is None,
        b.key is None,
        record_id(a) == record_id(b),
    ensures
        a.partition == b.partition,
        a.offset == b.offset,
{
    lemma_record_without_id_is_named_by_position(a);
    lemma_record_without_id_is_named_by_position(b);
    let (pa, oa, pb, ob) = (a.partition as u32, a.offset as u64, b.partition as u32, b.offset as u64);
    assert(pa as int * 0x1_0000_0000_0000_0000 + oa as int == pb as int * 0x1_0000_0000_0000_0000 + ob as int);
    assert(pa == pb && oa == ob) by (nonlinear_arith)
        requires
            pa as int * 0x1_0000_0000_0000_0000 + oa as int == pb as int * 0x1_0000_0000_0000_0000 + ob as int,
            oa < 0x1_0000_0000_0000_0000,
            ob < 0x1_0000_0000_0000_0000,
    ;
    let (xa, xb, ya, yb) = (a.partition, b.partition, a.offset, b.offset);
    assert(xa == xb) by (bit_vector)
        requires
            xa as u32 == xb as u32,
    ;
    assert(ya == yb) by (bit_vector)
        requires
            ya as u64 == yb as u64,
    ;
}

} // verus!
