//! The message every endpoint carries, and its string-keyed metadata.
use crate::text::{has_prefix, starts_with, str_eq};
use vstd::prelude::*;
use vstd::string::*;

verus! {

/// Prefix of the metadata keys that describe where a message was read from. Publishers never
/// forward such keys.
pub const SOURCE_METADATA_PREFIX: &'static str = "mqb.src.";

/// The map that a list of distinct-keyed entries stands for.
pub open spec fn entries_map(s: Seq<(String, String)>) -> Map<Seq<char>, Seq<char>>
    decreases s.len(),
{
    if s.len() == 0 {
        Map::empty()
    } else {
        entries_map(s.drop_last()).insert(s.last().0@, s.last().1@)
    }
}

/// No two entries share a key.
pub open spec fn keys_distinct(s: Seq<(String, String)>) -> bool {
    forall|i: int, j: int| 0 <= i < s.len() && 0 <= j < s.len() && i != j ==> s[i].0@ != s[j].0@
}

pub proof fn lemma_entries_dom(s: Seq<(String, String)>, k: Seq<char>)
    ensures
        entries_map(s).contains_key(k) <==> exists|i: int| 0 <= i < s.len() && s[i].0@ == k,
    decreases s.len(),
{
    if s.len() > 0 {
        lemma_entries_dom(s.drop_last(), k);
        if entries_map(s.drop_last()).contains_key(k) {
            let i = choose|i: int| 0 <= i < s.drop_last().len() && s.drop_last()[i].0@ == k;
            assert(s[i].0@ == k);
        }
        if exists|i: int| 0 <= i < s.len() && s[i].0@ == k {
            let i = choose|i: int| 0 <= i < s.len() && s[i].0@ == k;
            if i < s.len() - 1 {
                assert(s.drop_last()[i].0@ == k);
            }
        }
    }
}

pub proof fn lemma_entries_at(s: Seq<(String, String)>, i: int)
    requires
        keys_distinct(s),
        0 <= i < s.len(),
    ensures
        entries_map(s).contains_key(s[i].0@),
        entries_map(s)[s[i].0@] == s[i].1@,
    decreases s.len(),
{
    if i < s.len() - 1 {
        lemma_entries_at(s.drop_last(), i);
    }
}

proof fn lemma_entries_update(s: Seq<(String, String)>, i: int, v: String)
    requires
        keys_distinct(s),
        0 <= i < s.len(),
    ensures
        entries_map(s.update(i, (s[i].0, v))) == entries_map(s).insert(s[i].0@, v@),
    decreases s.len(),
{
    let t = s.update(i, (s[i].0, v));
    if i == s.len() - 1 {
        assert(t.drop_last() =~= s.drop_last());
        assert(entries_map(t) =~= entries_map(s).insert(s[i].0@, v@));
    } else {
        assert(t.drop_last() =~= s.drop_last().update(i, (s[i].0, v)));
        lemma_entries_update(s.drop_last(), i, v);
        assert(s.last().0@ != s[i].0@);
        assert(entries_map(t) =~= entries_map(s).insert(s[i].0@, v@));
    }
}

proof fn lemma_entries_remove(s: Seq<(String, String)>, i: int)
    requires
        keys_distinct(s),
        0 <= i < s.len(),
    ensures
        entries_map(s.remove(i)) == entries_map(s).remove(s[i].0@),
    decreases s.len(),
{
    let t = s.remove(i);
    if i == s.len() - 1 {
        assert(t =~= s.drop_last());
        lemma_entries_dom(s.drop_last(), s[i].0@);
        if entries_map(s.drop_last()).contains_key(s[i].0@) {
            let j = choose|j: int| 0 <= j < s.drop_last().len() && s.drop_last()[j].0@ == s[i].0@;
            assert(s[j].0@ == s[i].0@);
        }
        assert(entries_map(t) =~= entries_map(s).remove(s[i].0@));
    } else {
        assert(t.drop_last() =~= s.drop_last().remove(i));
        assert(t.last() == s.last());
        lemma_entries_remove(s.drop_last(), i);
        assert(s.last().0@ != s[i].0@);
        assert(entries_map(t) =~= entries_map(s).remove(s[i].0@));
    }
}

/// String-keyed message metadata: each key holds one value, and inserting a key that is
/// already there replaces its value.
#[derive(Debug)]
pub struct Metadata {
    entries: Vec<(String, String)>,
}

impl View for Metadata {
    type V = Map<Seq<char>, Seq<char>>;

    closed spec fn view(&self) -> Map<Seq<char>, Seq<char>> {
        entries_map(self.entries@)
    }
}

impl Clone for Metadata {
    fn clone(&self) -> (r: Self)
        ensures
            r@ == self@,
    {
        proof {
            use_type_invariant(self);
        }
        let mut out: Vec<(String, String)> = Vec::new();
        let mut i: usize = 0;
        while i < self.entries.len()
            invariant
                i <= self.entries@.len(),
                out@ == self.entries@.subrange(0, i as int),
            decreases self.entries@.len() - i,
        {
            let k = self.entries[i].0.clone();
            let v = self.entries[i].1.clone();
            out.push((k, v));
            assert(out@ =~= self.entries@.subrange(0, i + 1));
            i = i + 1;
        }
        assert(out@ =~= self.entries@);
        Metadata { entries: out }
    }
}

impl Metadata {
    #[verifier::type_invariant]
    closed spec fn wf(self) -> bool {
        keys_distinct(self.entries@)
    }

    /// Empty metadata.
    pub fn new() -> (r: Self)
        ensures
            r@ == Map::<Seq<char>, Seq<char>>::empty(),
    {
        Metadata { entries: Vec::new() }
    }

    fn position(&self, key: &str) -> (r: Option<usize>)
        ensures
            r matches Some(i) ==> i < self.entries@.len() && self.entries@[i as int].0@ == key@,
            r is None ==> forall|i: int|
                0 <= i < self.entries@.len() ==> self.entries@[i].0@ != key@,
    {
        let mut i: usize = 0;
        while i < self.entries.len()
            invariant
                i <= self.entries@.len(),
                forall|j: int| 0 <= j < i ==> self.entries@[j].0@ != key@,
            decreases self.entries@.len() - i,
        {
            if str_eq(self.entries[i].0.as_str(), key) {
                return Some(i);
            }
            i = i + 1;
        }
        None
    }

    /// The value held under `key`.
    pub fn get(&self, key: &str) -> (r: Option<&String>)
        ensures
            r matches Some(v) ==> self@.contains_key(key@) && self@[key@] == v@,
            r is None ==> !self@.contains_key(key@),
    {
        proof {
            use_type_invariant(self);
            lemma_entries_dom(self.entries@, key@);
        }
        match self.position(key) {
            Some(i) => {
                proof {
                    lemma_entries_at(self.entries@, i as int);
                }
                Some(&self.entries[i].1)
            },
            None => None,
        }
    }

    /// Whether a value is held under `key`.
    pub fn contains_key(&self, key: &str) -> (r: bool)
        ensures
            r == self@.contains_key(key@),
    {
        self.get(key).is_some()
    }

    /// Holds `value` under `key`, replacing what was there.
    pub fn insert(&mut self, key: String, value: String)
        ensures
            final(self)@ == old(self)@.insert(key@, value@),
    {
        proof {
            use_type_invariant(&*self);
            lemma_entries_dom(self.entries@, key@);
        }
        match self.position(key.as_str()) {
            Some(i) => {
                let ghost before = self.entries@;
                let mut e: Vec<(String, String)> = Vec::new();
                std::mem::swap(&mut e, &mut self.entries);
                let k = e[i].0.clone();
                e.set(i, (k, value));
                proof {
                    assert(e@ =~= before.update(i as int, (before[i as int].0, value)));
                    lemma_entries_update(before, i as int, value);
                    assert forall|a: int, b: int|
                        0 <= a < e@.len() && 0 <= b < e@.len() && a != b implies e@[a].0@
                        != e@[b].0@ by {
                        assert(e@[a].0@ == before[a].0@);
                        assert(e@[b].0@ == before[b].0@);
                    }
                }
                self.entries = e;
            },
            None => {
                let ghost before = self.entries@;
                let mut e: Vec<(String, String)> = Vec::new();
                std::mem::swap(&mut e, &mut self.entries);
                e.push((key, value));
                proof {
                    assert(e@.drop_last() =~= before);
                }
                self.entries = e;
            },
        }
    }

    /// Takes the value held under `key` out of the metadata.
    pub fn remove(&mut self, key: &str) -> (r: Option<String>)
        ensures
            r matches Some(v) ==> old(self)@.contains_key(key@) && old(self)@[key@] == v@,
            r is None ==> !old(self)@.contains_key(key@),
            final(self)@ == old(self)@.remove(key@),
    {
        proof {
            use_type_invariant(&*self);
            lemma_entries_dom(self.entries@, key@);
        }
        match self.position(key) {
            Some(i) => {
                let ghost before = self.entries@;
                proof {
                    lemma_entries_at(before, i as int);
                    lemma_entries_remove(before, i as int);
                }
                let mut e: Vec<(String, String)> = Vec::new();
                std::mem::swap(&mut e, &mut self.entries);
                let (_, v) = e.remove(i);
                proof {
                    assert forall|a: int, b: int|
                        0 <= a < e@.len() && 0 <= b < e@.len() && a != b implies e@[a].0@
                        != e@[b].0@ by {
                        let a0 = if a < i { a } else { a + 1 };
                        let b0 = if b < i { b } else { b + 1 };
                        assert(e@[a] == before[a0]);
                        assert(e@[b] == before[b0]);
                    }
                    assert(e@ =~= before.remove(i as int));
                }
                self.entries = e;
                Some(v)
            },
            None => {
                assert(old(self)@.remove(key@) =~= old(self)@);
                None
            },
        }
    }

    /// The number of keys.
    pub fn len(&self) -> (r: usize)
        ensures
            r == self@.dom().len(),
    {
        proof {
            use_type_invariant(self);
            lemma_entries_len(self.entries@);
        }
        self.entries.len()
    }

    /// Whether no key is held.
    pub fn is_empty(&self) -> (r: bool)
        ensures
            r == (self@.dom().len() == 0),
    {
        self.len() == 0
    }

    /// The entries in the order they are held.
    pub closed spec fn entry_seq(&self) -> Seq<(String, String)> {
        self.entries@
    }

    /// Every key and its value, each key once, in the order they are held.
    pub fn entries(&self) -> (r: &Vec<(String, String)>)
        ensures
            r@ == self.entry_seq(),
            keys_distinct(r@),
            entries_map(r@) == self@,
    {
        proof {
            use_type_invariant(self);
        }
        &self.entries
    }
}

proof fn lemma_entries_len(s: Seq<(String, String)>)
    requires
        keys_distinct(s),
    ensures
        entries_map(s).dom().finite(),
        entries_map(s).dom().len() == s.len(),
    decreases s.len(),
{
    if s.len() > 0 {
        lemma_entries_len(s.drop_last());
        lemma_entries_dom(s.drop_last(), s.last().0@);
        if entries_map(s.drop_last()).contains_key(s.last().0@) {
            let j = choose|j: int|
                0 <= j < s.drop_last().len() && s.drop_last()[j].0@ == s.last().0@;
            assert(s[j].0@ == s[s.len() - 1].0@);
        }
    }
}

/// Whether `key` is reserved for source provenance.
pub open spec fn is_source_key(key: Seq<char>) -> bool {
    has_prefix(key, SOURCE_METADATA_PREFIX@)
}

/// Whether `key` names source provenance (`mqb.src.*`), which is never forwarded.
pub fn is_source_metadata_key(key: &str) -> (r: bool)
    ensures
        r == is_source_key(key@),
{
    starts_with(key, SOURCE_METADATA_PREFIX)
}

/// A fresh time-ordered message id.
///
/// Calls `fast_uuid_v7::gen_id`, which returns a UUIDv7 built from the clock and a random
/// counter; nothing is stated of the value.
#[verifier::external_body]
fn fresh_message_id() -> u128 {
    fast_uuid_v7::gen_id()
}

/// A message: its payload bytes, its metadata and its id.
#[derive(Debug, Clone)]
pub struct CanonicalMessage {
    pub payload: Vec<u8>,
    pub metadata: Metadata,
    pub message_id: u128,
}

impl CanonicalMessage {
    /// A message with `payload`, no metadata, and `message_id` or else a fresh id.
    pub fn new(payload: Vec<u8>, message_id: Option<u128>) -> (r: Self)
        ensures
            r.payload@ == payload@,
            r.metadata@ == Map::<Seq<char>, Seq<char>>::empty(),
            message_id matches Some(id) ==> r.message_id == id,
    {
        let id = match message_id {
            Some(id) => id,
            None => fresh_message_id(),
        };
        CanonicalMessage { payload, metadata: Metadata::new(), message_id: id }
    }

    /// The same message with `value` held under `key`.
    pub fn with_metadata_kv(self, key: &str, value: &str) -> (r: Self)
        ensures
            r.payload == self.payload,
            r.message_id == self.message_id,
            r.metadata@ == self.metadata@.insert(key@, value@),
    {
        let mut m = self;
        m.metadata.insert(String::from_str(key), String::from_str(value));
        m
    }
}

} // verus!
