use crate::bytemap::{bound_view, pairs_view, sorted_range_of, ByteMap};
use crate::bytes::copy_bytes;
use crate::imports::utf8_text;
use vstd::prelude::*;
use vstd::utf8::{decode_utf8, encode_utf8, valid_utf8};

verus! {

/// Direction of a range scan.
#[derive(Debug, Clone, Copy, PartialEq, Eq)]
pub enum Order {
    Ascending,
    Descending,
}

/// `s` back to front.
pub open spec fn reversed<T>(s: Seq<T>) -> Seq<T> {
    Seq::new(s.len(), |k: int| s[s.len() - 1 - k])
}

/// An in-memory key-value store: the storage collaborator the host reads and
/// writes contract state through.
pub struct ThreadSafeStorage {
    data: ByteMap<Vec<u8>>,
}

impl View for ThreadSafeStorage {
    type V = Map<Seq<u8>, Seq<u8>>;

    closed spec fn view(&self) -> Map<Seq<u8>, Seq<u8>> {
        self.data@.map_values(|v: Vec<u8>| v@)
    }
}

impl ThreadSafeStorage {
    pub closed spec fn wf(&self) -> bool {
        self.data.wf()
    }

    pub fn new() -> (r: Self)
        ensures
            r.wf(),
            r@ == Map::<Seq<u8>, Seq<u8>>::empty(),
    {
        let r = ThreadSafeStorage { data: ByteMap::new() };
        assert(r@ =~= Map::<Seq<u8>, Seq<u8>>::empty());
        r
    }

    pub fn get(&self, key: &[u8]) -> (r: Option<Vec<u8>>)
        requires
            self.wf(),
        ensures
            r.is_some() <==> self@.contains_key(key@),
            r.is_some() ==> r.unwrap()@ == self@[key@],
    {
        match self.data.get(key) {
            Some(v) => Some(copy_bytes(v.as_slice())),
            None => None,
        }
    }

    pub fn set(&mut self, key: &[u8], value: &[u8])
        requires
            old(self).wf(),
        ensures
            final(self).wf(),
            final(self)@ == old(self)@.insert(key@, value@),
    {
        let v = copy_bytes(value);
        self.data.insert(key, v);
        assert(self@ =~= old(self)@.insert(key@, value@));
    }

    pub fn remove(&mut self, key: &[u8])
        requires
            old(self).wf(),
        ensures
            final(self).wf(),
            final(self)@ == old(self)@.remove(key@),
    {
        self.data.remove(key);
        assert(self@ =~= old(self)@.remove(key@));
    }
}

impl ThreadSafeStorage {
    /// The entries with keys in `[start, end)` (an absent bound is open), in
    /// increasing key order, or decreasing for `Order::Descending`.
    pub fn range(&self, start: Option<&[u8]>, end: Option<&[u8]>, order: Order) -> (r: Vec<(Vec<u8>, Vec<u8>)>)
        requires
            self.wf(),
        ensures
            order == Order::Ascending ==> sorted_range_of(pairs_view(r@), self@, bound_view(start), bound_view(end)),
            order == Order::Descending ==> sorted_range_of(
                reversed(pairs_view(r@)),
                self@,
                bound_view(start),
                bound_view(end),
            ),
    {
        let mut asc = self.data.sorted_range(start, end);
        assert(self.data@.map_values(|v: Vec<u8>| v@) == self@);
        match order {
            Order::Ascending => asc,
            Order::Descending => {
                let ghost orig = asc@;
                let mut desc: Vec<(Vec<u8>, Vec<u8>)> = Vec::new();
                while asc.len() > 0
                    invariant
                        asc@.len() <= orig.len(),
                        asc@ == orig.subrange(0, asc@.len() as int),
                        desc@ == reversed(orig.subrange(asc@.len() as int, orig.len() as int)),
                    decreases asc@.len(),
                {
                    let e = asc.pop().unwrap();
                    desc.push(e);
                    assert(asc@ =~= orig.subrange(0, asc@.len() as int));
                    assert(desc@ =~= reversed(orig.subrange(asc@.len() as int, orig.len() as int)));
                }
                proof {
                    assert(orig.subrange(0, orig.len() as int) =~= orig);
                    assert(reversed(pairs_view(desc@)) =~= pairs_view(orig));
                }
                desc
            },
        }
    }
}

impl Default for ThreadSafeStorage {
    fn default() -> (r: Self)
        ensures
            r.wf(),
            r@ == Map::<Seq<u8>, Seq<u8>>::empty(),
    {
        Self::new()
    }
}

/// The address and signature collaborator used in tests: every address is
/// valid and every signature verifies.
#[derive(Clone, Copy, Debug)]
pub struct ThreadSafeApi;

impl ThreadSafeApi {
    pub fn new() -> Self {
        ThreadSafeApi
    }

    /// Validation outcome for `human`: always accepted.
    pub fn addr_validate(&self, _human: &str) -> (r: bool)
        ensures
            r,
    {
        true
    }

    /// The canonical form of `human`: its UTF-8 bytes.
    pub fn addr_canonicalize(&self, human: &str) -> (r: Vec<u8>)
        ensures
            r@ == encode_utf8(human@),
    {
        copy_bytes(human.as_bytes())
    }

    /// The human form of `canonical`: its text, when it is valid UTF-8.
    pub fn addr_humanize(&self, canonical: &[u8]) -> (r: Option<String>)
        ensures
            r is Some == valid_utf8(canonical@),
            r is Some ==> r.unwrap()@ == decode_utf8(canonical@),
    {
        utf8_text(copy_bytes(canonical))
    }

    /// Verification outcome for any message, signature and key: always a
    /// valid signature.
    pub fn verify(&self, _message: &[u8], _signature: &[u8], _public_key: &[u8]) -> (r: Result<bool, ()>)
        ensures
            r == Ok::<bool, ()>(true),
    {
        Ok(true)
    }
}

/// The chain-query collaborator used in tests: every query succeeds with an
/// empty answer.
#[derive(Clone, Copy, Debug)]
pub struct ThreadSafeQuerier;

impl ThreadSafeQuerier {
    pub fn new() -> Self {
        ThreadSafeQuerier
    }

    pub fn raw_query(&self, _request: &[u8]) -> (r: Result<Vec<u8>, String>)
        ensures
            r.is_ok() && r.unwrap()@ == Seq::<u8>::empty(),
    {
        Ok(Vec::new())
    }
}

} // verus!
