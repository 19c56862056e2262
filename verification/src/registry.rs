//! Named endpoints and publishers that `ref` endpoints point at.
use crate::models::Endpoint;
use crate::text::str_eq;
use vstd::prelude::*;
use vstd::string::*;

verus! {

/// The endpoint most recently registered under `name`.
pub open spec fn lookup_endpoint(s: Seq<(String, Endpoint)>, name: Seq<char>) -> Option<Endpoint>
    decreases s.len(),
{
    if s.len() == 0 {
        None
    } else if s.last().0@ == name {
        Some(s.last().1)
    } else {
        lookup_endpoint(s.drop_last(), name)
    }
}

/// Endpoints registered by name, and the names of registered publishers.
pub struct Registry {
    endpoints: Vec<(String, Endpoint)>,
    publishers: Vec<String>,
}

impl Registry {
    /// The endpoint registered under `name`, if any.
    pub closed spec fn endpoint_named(&self, name: Seq<char>) -> Option<Endpoint> {
        lookup_endpoint(self.endpoints@, name)
    }

    /// Whether a publisher is registered under `name`.
    pub closed spec fn publisher_named(&self, name: Seq<char>) -> bool {
        exists|i: int| 0 <= i < self.publishers@.len() && self.publishers@[i]@ == name
    }

    /// A registry with nothing in it.
    pub fn new() -> (r: Self)
        ensures
            forall|n: Seq<char>| #[trigger] r.endpoint_named(n) is None,
            forall|n: Seq<char>| !#[trigger] r.publisher_named(n),
    {
        Registry { endpoints: Vec::new(), publishers: Vec::new() }
    }

    /// Registers `endpoint` under `name`, replacing what was registered there.
    pub fn register_endpoint(&mut self, name: &str, endpoint: Endpoint)
        ensures
            forall|n: Seq<char>|
                #[trigger] final(self).endpoint_named(n) == if n == name@ {
                    Some(endpoint)
                } else {
                    old(self).endpoint_named(n)
                },
            forall|n: Seq<char>|
                #[trigger] final(self).publisher_named(n) == old(self).publisher_named(n),
    {
        let ghost before = self.endpoints@;
        self.endpoints.push((String::from_str(name), endpoint));
        assert(self.endpoints@.drop_last() =~= before);
        assert(self.publishers@ =~= old(self).publishers@);
    }

    /// Registers a publisher under `name`.
    pub fn register_publisher(&mut self, name: &str)
        ensures
            forall|n: Seq<char>|
                #[trigger] final(self).publisher_named(n) == (n == name@ || old(
                    self,
                ).publisher_named(n)),
            forall|n: Seq<char>|
                #[trigger] final(self).endpoint_named(n) == old(self).endpoint_named(n),
    {
        let ghost before = self.publishers@;
        self.publishers.push(String::from_str(name));
        assert forall|n: Seq<char>|
            #[trigger] self.publisher_named(n) == (n == name@ || old(self).publisher_named(n)) by {
            if n == name@ {
                assert(self.publishers@[before.len() as int]@ == n);
            }
            if old(self).publisher_named(n) {
                let i = choose|i: int| 0 <= i < before.len() && before[i]@ == n;
                assert(self.publishers@[i]@ == n);
            }
        }
    }

    /// The endpoint registered under `name`, if any.
    pub fn get_endpoint(&self, name: &str) -> (r: Option<&Endpoint>)
        ensures
            r matches Some(e) ==> self.endpoint_named(name@) == Some(*e),
            r is None ==> self.endpoint_named(name@) is None,
    {
        let mut i = self.endpoints.len();
        assert(self.endpoints@.subrange(0, i as int) =~= self.endpoints@);
        while i > 0
            invariant
                i <= self.endpoints@.len(),
                lookup_endpoint(self.endpoints@, name@) == lookup_endpoint(
                    self.endpoints@.subrange(0, i as int),
                    name@,
                ),
            decreases i,
        {
            let ghost pre = self.endpoints@.subrange(0, i as int);
            assert(pre.drop_last() =~= self.endpoints@.subrange(0, i - 1));
            if str_eq(self.endpoints[i - 1].0.as_str(), name) {
                return Some(&self.endpoints[i - 1].1);
            }
            i = i - 1;
        }
        None
    }

    /// Whether a publisher is registered under `name`.
    pub fn has_publisher(&self, name: &str) -> (r: bool)
        ensures
            r == self.publisher_named(name@),
    {
        let mut i: usize = 0;
        while i < self.publishers.len()
            invariant
                i <= self.publishers@.len(),
                forall|j: int| 0 <= j < i ==> self.publishers@[j]@ != name@,
            decreases self.publishers@.len() - i,
        {
            if str_eq(self.publishers[i].as_str(), name) {
                return true;
            }
            i = i + 1;
        }
        false
    }
}

} // verus!
