use crate::bytemap::ByteMap;
use crate::bytes::copy_bytes;
use vstd::prelude::*;

verus! {

/// An account address of the simulated chain.
#[derive(Debug, Clone, Default)]
pub struct Address(pub Vec<u8>);

impl Address {
    pub fn as_bytes(&self) -> (r: &[u8])
        ensures
            r@ == self.0@,
    {
        self.0.as_slice()
    }

    pub fn new(bytes: Vec<u8>) -> (r: Self)
        ensures
            r.0@ == bytes@,
    {
        Address(bytes)
    }

    pub fn to_vec(&self) -> (r: Vec<u8>)
        ensures
            r@ == self.0@,
    {
        copy_bytes(self.0.as_slice())
    }
}

/// A key-value store representing the state of the simulated chain.
pub struct SimpleState {
    state: ByteMap<Vec<u8>>,
}

impl View for SimpleState {
    type V = Map<Seq<u8>, Seq<u8>>;

    closed spec fn view(&self) -> Map<Seq<u8>, Seq<u8>> {
        self.state@.map_values(|v: Vec<u8>| v@)
    }
}

impl SimpleState {
    pub closed spec fn wf(&self) -> bool {
        self.state.wf()
    }

    pub fn new() -> (r: SimpleState)
        ensures
            r.wf(),
            r@ == Map::<Seq<u8>, Seq<u8>>::empty(),
    {
        let r = SimpleState { state: ByteMap::new() };
        assert(r@ =~= Map::<Seq<u8>, Seq<u8>>::empty());
        r
    }

    pub fn get_value(&self, key: &[u8]) -> (r: Option<&[u8]>)
        requires
            self.wf(),
        ensures
            r.is_some() <==> self@.contains_key(key@),
            r.is_some() ==> r.unwrap()@ == self@[key@],
    {
        match self.state.get(key) {
            Some(v) => Some(v.as_slice()),
            None => None,
        }
    }

    pub fn insert(&mut self, key: Vec<u8>, value: Vec<u8>)
        requires
            old(self).wf(),
        ensures
            final(self).wf(),
            final(self)@ == old(self)@.insert(key@, value@),
    {
        let ghost v = value@;
        self.state.insert(key.as_slice(), value);
        assert(self@ =~= old(self)@.insert(key@, v));
    }

    pub fn remove(&mut self, key: &[u8])
        requires
            old(self).wf(),
        ensures
            final(self).wf(),
            final(self)@ == old(self)@.remove(key@),
    {
        self.state.remove(key);
        assert(self@ =~= old(self)@.remove(key@));
    }
}

impl Default for SimpleState {
    fn default() -> (r: Self)
        ensures
            r.wf(),
            r@ == Map::<Seq<u8>, Seq<u8>>::empty(),
    {
        Self::new()
    }
}

} // verus!
