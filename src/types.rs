use crate::bytes::copy_bytes;
use vstd::prelude::*;
use vstd::string::StringExecFns;

verus! {

/// Byte length of an action ID.
pub const ID_LEN: usize = 32;

/// The lower-case hexadecimal digit for `n` (below sixteen).
pub open spec fn hex_digit(n: int) -> char {
    seq!['0', '1', '2', '3', '4', '5', '6', '7', '8', '9', 'a', 'b', 'c', 'd', 'e', 'f'][n]
}

/// Two lower-case hexadecimal digits per byte, high nibble first.
pub open spec fn hex_of(b: Seq<u8>) -> Seq<char>
    decreases b.len(),
{
    if b.len() == 0 {
        Seq::empty()
    } else {
        hex_of(b.drop_last()) + seq![hex_digit(b.last() as int / 16), hex_digit(b.last() as int % 16)]
    }
}

/// Relies on hex::encode: two lower-case hexadecimal digits per byte, high
/// nibble first, in order.
#[verifier::external_body]
fn hex_encode(b: &[u8]) -> (r: String)
    ensures
        r@ == hex_of(b@),
{
    hex::encode(b)
}

/// An action ID.
#[derive(Debug, Clone, Copy, PartialEq, Eq)]
pub struct Id {
    bytes: [u8; ID_LEN],
}

impl Id {
    pub closed spec fn spec_bytes(&self) -> Seq<u8> {
        self.bytes@
    }

    /// Create a new ID from bytes.
    pub fn new(bytes: [u8; ID_LEN]) -> (r: Self)
        ensures
            r.spec_bytes() == bytes@,
    {
        Self { bytes }
    }

    /// Get the bytes of the ID.
    pub fn as_bytes(&self) -> (r: &[u8; ID_LEN])
        ensures
            r@ == self.spec_bytes(),
    {
        &self.bytes
    }
}

/// The ID bytes of a contract.
#[derive(Debug, Clone, PartialEq, Eq)]
pub struct ContractId {
    bytes: [u8; 32],
}

impl ContractId {
    pub closed spec fn spec_bytes(&self) -> Seq<u8> {
        self.bytes@
    }

    pub fn new(bytes: [u8; 32]) -> (r: Self)
        ensures
            r.spec_bytes() == bytes@,
    {
        Self { bytes }
    }

    pub fn as_bytes(&self) -> (r: &[u8; 32])
        ensures
            r@ == self.spec_bytes(),
    {
        &self.bytes
    }
}

/// An amount of gas.
#[derive(Debug, Clone, Copy, PartialEq, Eq)]
pub struct Gas(pub u64);

impl Gas {
    /// Create a new Gas value.
    pub fn new(value: u64) -> (r: Self)
        ensures
            r.0 == value,
    {
        Self(value)
    }

    /// Get the gas value.
    pub fn value(&self) -> (r: u64)
        ensures
            r == self.0,
    {
        self.0
    }
}

/// Represents an address where a smart contract is deployed.
#[derive(Clone, Copy, PartialEq, Eq, Hash, Debug)]
pub struct Address([u8; 33]);

impl Address {
    pub const LEN: usize = 33;

    pub closed spec fn spec_bytes(&self) -> Seq<u8> {
        self.0@
    }

    #[must_use]
    pub fn new(bytes: [u8; 33]) -> (r: Self)
        ensures
            r.spec_bytes() == bytes@,
    {
        Self(bytes)
    }

    /// The all-zero address.
    pub fn zero() -> (r: Self)
        ensures
            r.spec_bytes() == Seq::new(33, |i: int| 0u8),
    {
        let r = Self([0u8; 33]);
        assert(r.spec_bytes() =~= Seq::new(33, |i: int| 0u8));
        r
    }

    pub fn as_bytes(&self) -> (r: &[u8])
        ensures
            r@ == self.spec_bytes(),
    {
        self.0.as_slice()
    }
}

impl Default for Address {
    fn default() -> (r: Self)
        ensures
            r.spec_bytes() == Seq::new(33, |i: int| 0u8),
    {
        Self::zero()
    }
}

/// A variable-length account or contract address.
#[derive(Debug, Clone, PartialEq, Eq, Hash, Default)]
pub struct WasmlAddress {
    bytes: Vec<u8>,
}

impl View for WasmlAddress {
    type V = Seq<u8>;

    closed spec fn view(&self) -> Seq<u8> {
        self.bytes@
    }
}

impl WasmlAddress {
    pub fn new(bytes: Vec<u8>) -> (r: Self)
        ensures
            r@ == bytes@,
    {
        Self { bytes }
    }

    pub fn as_bytes(&self) -> (r: &[u8])
        ensures
            r@ == self@,
    {
        self.bytes.as_slice()
    }

    /// An owned copy of this address.
    pub fn copied(&self) -> (r: Self)
        ensures
            r@ == self@,
    {
        Self { bytes: copy_bytes(self.bytes.as_slice()) }
    }

    /// The address as `0x` followed by its bytes in lower-case hexadecimal.
    pub fn to_hex_string(&self) -> (r: String)
        ensures
            r@ == seq!['0', 'x'] + hex_of(self@),
    {
        let mut s = "0x".to_owned();
        let digits = hex_encode(self.bytes.as_slice());
        s.append(digits.as_str());
        proof {
            reveal_strlit("0x");
            assert(s@ =~= seq!['0', 'x'] + hex_of(self@));
        }
        s
    }
}

impl From<u64> for Gas {
    fn from(value: u64) -> (r: Self) {
        Gas(value)
    }
}

impl vstd::std_specs::convert::FromSpecImpl<u64> for Gas {
    open spec fn obeys_from_spec() -> bool {
        true
    }

    open spec fn from_spec(value: u64) -> Gas {
        Gas(value)
    }
}

impl From<Gas> for u64 {
    fn from(gas: Gas) -> (r: Self) {
        gas.0
    }
}

impl vstd::std_specs::convert::FromSpecImpl<Gas> for u64 {
    open spec fn obeys_from_spec() -> bool {
        true
    }

    open spec fn from_spec(gas: Gas) -> u64 {
        gas.0
    }
}

impl From<[u8; 33]> for Address {
    fn from(bytes: [u8; 33]) -> (r: Self) {
        Address(bytes)
    }
}

impl vstd::std_specs::convert::FromSpecImpl<[u8; 33]> for Address {
    open spec fn obeys_from_spec() -> bool {
        true
    }

    closed spec fn from_spec(bytes: [u8; 33]) -> Address {
        Address(bytes)
    }
}

impl From<Vec<u8>> for WasmlAddress {
    fn from(bytes: Vec<u8>) -> (r: Self) {
        WasmlAddress { bytes }
    }
}

impl vstd::std_specs::convert::FromSpecImpl<Vec<u8>> for WasmlAddress {
    open spec fn obeys_from_spec() -> bool {
        true
    }

    closed spec fn from_spec(bytes: Vec<u8>) -> WasmlAddress {
        WasmlAddress { bytes }
    }
}

} // verus!
