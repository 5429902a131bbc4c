//! Per-request state passed through the rule engine.

use std::collections::HashMap;

use vstd::prelude::*;

use crate::provider::ProviderId;
use crate::score::Score;

use crate::text::{str_lowercase, to_lowercase};

verus! {

broadcast use vstd::std_specs::hash::group_hash_axioms;

/// An IP address, as its integer value.
#[derive(Debug, Clone, Copy, PartialEq, Eq, Hash, Structural)]
pub enum IpAddress {
    /// An IPv4 address.
    V4(u32),
    /// An IPv6 address.
    V6(u128),
}

/// Request headers: names (lower-cased by whoever fills the map) to values.
#[derive(Debug)]
pub struct HeaderMap {
    entries: Vec<(String, String)>,
}

/// The value under `name` in a list of header entries (the first such entry).
pub open spec fn header_lookup(entries: Seq<(String, String)>, name: Seq<char>) -> Option<Seq<char>>
    decreases entries.len(),
{
    if entries.len() == 0 {
        None
    } else if entries[0].0@ == name {
        Some(entries[0].1@)
    } else {
        header_lookup(entries.drop_first(), name)
    }
}

impl HeaderMap {
    /// The value of header `name`, if present.
    pub closed spec fn spec_get(&self, name: Seq<char>) -> Option<Seq<char>> {
        header_lookup(self.entries@, name)
    }

    /// An empty header map.
    pub fn new() -> (r: HeaderMap)
        ensures
            forall|n: Seq<char>| r.spec_get(n) is None,
    {
        HeaderMap { entries: Vec::new() }
    }

    fn position(&self, name: &str) -> (r: Option<usize>)
        ensures
            match r {
                Some(i) => i < self.entries@.len() && self.entries@[i as int].0@ == name@
                    && forall|j: int| 0 <= j < i ==> self.entries@[j].0@ != name@,
                None => forall|j: int| 0 <= j < self.entries@.len() ==> self.entries@[j].0@ != name@,
            },
    {
        let mut i: usize = 0;
        while i < self.entries.len()
            invariant
                i <= self.entries@.len(),
                forall|j: int| 0 <= j < i ==> self.entries@[j].0@ != name@,
            decreases self.entries.len() - i,
        {
            if crate::value::str_eq(self.entries[i].0.as_str(), name) {
                return Some(i);
            }
            i = i + 1;
        }
        None
    }

    proof fn lemma_lookup(entries: Seq<(String, String)>, name: Seq<char>, i: int)
        requires
            0 <= i < entries.len(),
            entries[i].0@ == name,
            forall|j: int| 0 <= j < i ==> entries[j].0@ != name,
        ensures
            header_lookup(entries, name) == Some(entries[i].1@),
        decreases i,
    {
        if i > 0 {
            Self::lemma_lookup(entries.drop_first(), name, i - 1);
        }
    }

    proof fn lemma_lookup_none(entries: Seq<(String, String)>, name: Seq<char>)
        requires
            forall|j: int| 0 <= j < entries.len() ==> entries[j].0@ != name,
        ensures
            header_lookup(entries, name) is None,
        decreases entries.len(),
    {
        if entries.len() > 0 {
            Self::lemma_lookup_none(entries.drop_first(), name);
        }
    }

    /// The value of header `name`, if present.
    pub fn get(&self, name: &str) -> (r: Option<&String>)
        ensures
            match r {
                Some(v) => self.spec_get(name@) == Some(v@),
                None => self.spec_get(name@) is None,
            },
    {
        match self.position(name) {
            Some(i) => {
                proof {
                    Self::lemma_lookup(self.entries@, name@, i as int);
                }
                Some(&self.entries[i].1)
            },
            None => {
                proof {
                    Self::lemma_lookup_none(self.entries@, name@);
                }
                None
            },
        }
    }

    /// Sets the header whose name is `name` lower-cased to `value`, replacing
    /// an earlier value: header names are matched without regard to case.
    pub fn insert_lowercased(&mut self, name: &str, value: String)
        ensures
            final(self).spec_get(str_lowercase(name@)) == Some(value@),
            forall|n: Seq<char>| n != str_lowercase(name@) ==> final(self).spec_get(n) == old(self).spec_get(n),
    {
        let lower = to_lowercase(name);
        self.insert(lower, value);
    }

    /// Sets header `name` to `value`, replacing an earlier value.
    pub fn insert(&mut self, name: String, value: String)
        ensures
            final(self).spec_get(name@) == Some(value@),
            forall|n: Seq<char>| n != name@ ==> final(self).spec_get(n) == old(self).spec_get(n),
    {
        match self.position(name.as_str()) {
            Some(i) => {
                let ghost old_entries = self.entries@;
                let ghost nm = name@;
                self.entries.set(i, (name, value));
                proof {
                    Self::lemma_lookup(self.entries@, nm, i as int);
                    assert forall|n: Seq<char>| n != nm implies header_lookup(self.entries@, n)
                        == header_lookup(old_entries, n) by {
                        Self::lemma_lookup_other(old_entries, self.entries@, n, i as int);
                    }
                }
            },
            None => {
                let ghost old_entries = self.entries@;
                let ghost nm = name@;
                let ghost vv = value@;
                self.entries.push((name, value));
                proof {
                    Self::lemma_lookup(self.entries@, nm, old_entries.len() as int);
                    assert forall|n: Seq<char>| n != nm implies header_lookup(self.entries@, n)
                        == header_lookup(old_entries, n) by {
                        Self::lemma_lookup_push(old_entries, self.entries@, n);
                    }
                }
            },
        }
    }

    proof fn lemma_lookup_other(a: Seq<(String, String)>, b: Seq<(String, String)>, n: Seq<char>, i: int)
        requires
            a.len() == b.len(),
            0 <= i < a.len(),
            a[i].0@ != n,
            b[i].0@ != n,
            forall|j: int| 0 <= j < a.len() && j != i ==> a[j] == b[j],
        ensures
            header_lookup(b, n) == header_lookup(a, n),
        decreases a.len(),
    {
        if a.len() > 0 && i > 0 {
            Self::lemma_lookup_other(a.drop_first(), b.drop_first(), n, i - 1);
        } else if a.len() > 0 {
            assert(a.drop_first() =~= b.drop_first());
        }
    }

    proof fn lemma_lookup_push(a: Seq<(String, String)>, b: Seq<(String, String)>, n: Seq<char>)
        requires
            b.len() == a.len() + 1,
            b[a.len() as int].0@ != n,
            forall|j: int| 0 <= j < a.len() ==> a[j] == b[j],
        ensures
            header_lookup(b, n) == header_lookup(a, n),
        decreases a.len(),
    {
        if a.len() > 0 {
            Self::lemma_lookup_push(a.drop_first(), b.drop_first(), n);
        } else {
            assert(b.drop_first().len() == 0);
            assert(header_lookup(b.drop_first(), n) is None);
        }
    }
}

/// Per-request mutable state passed through the rule engine.
///
/// Plugins read from it (IP, URI, headers, body) and may write to `metadata`
/// for downstream consumers.  `cache` is managed by the engine so that each
/// provider is evaluated at most once per request.
#[derive(Debug)]
pub struct RequestContext {
    /// IP address of the connecting client.
    pub client_ip: IpAddress,
    /// Request URI (path + query).
    pub uri: String,
    /// HTTP method (e.g. `"GET"`, `"POST"`).
    pub method: String,
    /// Lower-cased header map.
    pub headers: HeaderMap,
    /// Request body, or `None` if not buffered or over the size limit.
    pub body: Option<Vec<u8>>,
    /// Score cache, keyed by provider id, filled by the engine.
    pub cache: HashMap<u64, Score>,
    /// String metadata written by sensors for downstream providers, keyed by provider id.
    pub metadata: HashMap<u64, String>,
    /// Score of the provider whose evaluation triggered the current action.
    pub current_score: Score,
}

impl RequestContext {
    /// Creates a context from the three fields available before headers are parsed.
    pub fn new(client_ip: IpAddress, method: String, uri: String) -> (r: RequestContext)
        ensures
            r.client_ip == client_ip,
            r.method@ == method@,
            r.uri@ == uri@,
            forall|n: Seq<char>| r.headers.spec_get(n) is None,
            r.body is None,
            r.cache@ == Map::<u64, Score>::empty(),
            r.metadata@ == Map::<u64, String>::empty(),
            r.current_score == Score(0),
    {
        RequestContext {
            client_ip,
            uri,
            method,
            headers: HeaderMap::new(),
            body: None,
            cache: HashMap::new(),
            metadata: HashMap::new(),
            current_score: Score(0),
        }
    }
}

/// The cached score of provider `id`, or `Score(0)` if it has not been evaluated.
pub open spec fn cached_score(cache: Map<u64, Score>, id: ProviderId) -> Score {
    if cache.contains_key(id.0) { cache[id.0] } else { Score(0) }
}

} // verus!
