//! The response cache consulted before any backend involvement: an exact
//! byte sequence (a client's full framed initial message) maps to an exact
//! byte sequence (the response to write back). The proxy core only reads
//! entries; population is an outside responsibility.

use vstd::prelude::*;

verus! {

/// First-match lookup in an association list of byte-sequence pairs.
pub open spec fn lookup(entries: Seq<(Vec<u8>, Vec<u8>)>, key: Seq<u8>) -> Option<Seq<u8>>
    decreases entries.len(),
{
    if entries.len() == 0 {
        None
    } else if entries[0].0@ == key {
        Some(entries[0].1@)
    } else {
        lookup(entries.skip(1), key)
    }
}

/// Maps each framed initial message to the response it should receive.
/// Newer entries for the same key shadow older ones.
pub struct ResponseCache {
    entries: Vec<(Vec<u8>, Vec<u8>)>,
}

impl View for ResponseCache {
    type V = Map<Seq<u8>, Seq<u8>>;

    closed spec fn view(&self) -> Map<Seq<u8>, Seq<u8>> {
        Map::new(
            |k: Seq<u8>| lookup(self.entries@, k) is Some,
            |k: Seq<u8>| lookup(self.entries@, k).unwrap(),
        )
    }
}

/// Byte-for-byte equality of two buffers.
fn bytes_equal(a: &Vec<u8>, b: &Vec<u8>) -> (r: bool)
    ensures
        r == (a@ == b@),
{
    if a.len() != b.len() {
        return false;
    }
    let mut i: usize = 0;
    while i < a.len()
        invariant
            i <= a@.len(),
            a@.len() == b@.len(),
            forall|j: int| 0 <= j < i ==> a@[j] == b@[j],
        decreases a@.len() - i,
    {
        if a[i] != b[i] {
            return false;
        }
        i += 1;
    }
    proof {
        assert(a@ =~= b@);
    }
    true
}

impl ResponseCache {
    /// An empty cache.
    pub fn new() -> (r: Self)
        ensures
            r@ == Map::<Seq<u8>, Seq<u8>>::empty(),
    {
        let r = ResponseCache { entries: Vec::new() };
        proof {
            assert(r@ =~= Map::<Seq<u8>, Seq<u8>>::empty());
        }
        r
    }

    /// Looks a captured initial message up by its exact bytes.
    pub fn get(&self, key: &Vec<u8>) -> (r: Option<&Vec<u8>>)
        ensures
            match r {
                Some(v) => self@.contains_key(key@) && v@ == self@[key@],
                None => !self@.contains_key(key@),
            },
    {
        let n = self.entries.len();
        let mut i: usize = 0;
        proof {
            assert(self.entries@.skip(0) =~= self.entries@);
        }
        while i < n
            invariant
                i <= n,
                n == self.entries@.len(),
                lookup(self.entries@, key@) == lookup(self.entries@.skip(i as int), key@),
            decreases n - i,
        {
            let ghost tail = self.entries@.skip(i as int);
            proof {
                assert(tail[0] == self.entries@[i as int]);
                assert(tail.skip(1) =~= self.entries@.skip(i as int + 1));
            }
            let entry = &self.entries[i];
            if bytes_equal(&entry.0, key) {
                return Some(&entry.1);
            }
            i += 1;
        }
        None
    }

    /// Records the response for an exact initial message, shadowing any
    /// earlier entry for the same bytes.
    pub fn insert(&mut self, key: Vec<u8>, response: Vec<u8>)
        ensures
            final(self)@ == old(self)@.insert(key@, response@),
    {
        let ghost prior = self.entries@;
        self.entries.insert(0, (key, response));
        proof {
            assert(self.entries@.skip(1) =~= prior);
            assert forall|k: Seq<u8>|
                lookup(self.entries@, k) == if k == key@ {
                    Some(response@)
                } else {
                    lookup(prior, k)
                } by {
                assert(self.entries@[0].0@ == key@);
            }
            assert(self@ =~= old(self)@.insert(key@, response@));
        }
    }
}

} // verus!
