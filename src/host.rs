use crate::bytemap::ByteMap;
use crate::error::Error;
use crate::events::{event_violation, same_kind, Event, EventLog};
use crate::gas::MAX_EVENTS_PER_CONTRACT;
use crate::gas::{call_metered, charged, event_metered, load_metered, store_metered, GasCounter};
use crate::crypto::{ed25519_outcome, CryptoApi};
use crate::storage::{sha256_digest, sha256_of};
use crate::types::WasmlAddress;
use sha3::Digest;
use vstd::prelude::*;

verus! {

/// Balance of `account`: zero for an account never credited.
pub open spec fn balance_of(balances: Map<Seq<u8>, u64>, account: Seq<u8>) -> u64 {
    if balances.contains_key(account) {
        balances[account]
    } else {
        0
    }
}

/// Balances after moving `amount` from `from` to `to`, or `None` when `from`
/// holds less than `amount` or `to` would overflow. A transfer to oneself
/// leaves the balance as it was.
pub open spec fn transferred(
    balances: Map<Seq<u8>, u64>,
    from: Seq<u8>,
    to: Seq<u8>,
    amount: u64,
) -> Option<Map<Seq<u8>, u64>> {
    let fb = balance_of(balances, from);
    if fb < amount {
        None
    } else {
        let debited = balances.insert(from, (fb - amount) as u64);
        let tb = balance_of(debited, to);
        if tb + amount > u64::MAX {
            None
        } else {
            Some(debited.insert(to, (tb + amount) as u64))
        }
    }
}

/// The Keccak-256 digest of `data`.
pub uninterp spec fn keccak256_of(data: Seq<u8>) -> Seq<u8>;

/// Relies on sha3's `Keccak256::digest`: the 32-byte Keccak-256 digest.
#[verifier::external_body]
fn keccak256_digest(data: &[u8]) -> (r: [u8; 32])
    ensures
        r@ == keccak256_of(data@),
{
    sha3::Keccak256::digest(data).into()
}

/// What one execution's host holds: the event log with contract state, the
/// gas meter, and account balances.
pub struct HostState {
    pub event_log: EventLog,
    pub gas_counter: GasCounter,
    balances: ByteMap<u64>,
}

impl HostState {
    pub closed spec fn wf(&self) -> bool {
        self.event_log.wf() && self.balances.wf()
    }

    pub closed spec fn balances(&self) -> Map<Seq<u8>, u64> {
        self.balances@
    }

    pub closed spec fn meter(&self) -> GasCounter {
        self.gas_counter
    }

    pub closed spec fn log(&self) -> EventLog {
        self.event_log
    }

    pub fn new(gas_counter: GasCounter) -> (r: Self)
        ensures
            r.wf(),
            r.meter() == gas_counter,
            r.log().event_seq() == Seq::<Event>::empty(),
            r.log().state_map() == Map::<Seq<u8>, Seq<u8>>::empty(),
            r.balances() == Map::<Seq<u8>, u64>::empty(),
    {
        HostState { event_log: EventLog::new(), gas_counter, balances: ByteMap::new() }
    }
}

impl Default for HostState {
    fn default() -> (r: Self)
        ensures
            r.wf(),
            r.meter().remaining_spec() == crate::gas::MAX_GAS,
            r.log().event_seq() == Seq::<Event>::empty(),
            r.log().state_map() == Map::<Seq<u8>, Seq<u8>>::empty(),
            r.balances() == Map::<Seq<u8>, u64>::empty(),
    {
        HostState::new(GasCounter::default())
    }
}

/// The host side of an execution: state, events, gas and balances behind the
/// operations a contract may ask for.
pub struct Host {
    state: HostState,
}

impl Host {
    pub closed spec fn wf(&self) -> bool {
        self.state.wf()
    }

    pub closed spec fn state_map(&self) -> Map<Seq<u8>, Seq<u8>> {
        self.state.log().state_map()
    }

    pub closed spec fn event_seq(&self) -> Seq<Event> {
        self.state.log().event_seq()
    }

    pub closed spec fn gas(&self) -> u64 {
        self.state.gas_counter.remaining_spec()
    }

    pub closed spec fn balances(&self) -> Map<Seq<u8>, u64> {
        self.state.balances@
    }

    pub fn new(state: HostState) -> (r: Self)
        requires
            state.wf(),
        ensures
            r.wf(),
            r.state_map() == state.log().state_map(),
            r.event_seq() == state.log().event_seq(),
            r.gas() == state.meter().remaining_spec(),
            r.balances() == state.balances(),
    {
        Host { state }
    }

    /// Replaces the gas meter, returning the one it held.
    pub fn replace_meter(&mut self, meter: GasCounter) -> (r: GasCounter)
        requires
            old(self).wf(),
        ensures
            final(self).wf(),
            r.remaining_spec() == old(self).gas(),
            final(self).gas() == meter.remaining_spec(),
            final(self).state_map() == old(self).state_map(),
            final(self).event_seq() == old(self).event_seq(),
            final(self).balances() == old(self).balances(),
    {
        let prev = GasCounter::new(self.state.gas_counter.gas_remaining());
        self.state.gas_counter = meter;
        prev
    }

    pub fn add_event(&mut self, event: Event) -> (r: Result<(), Error>)
        requires
            old(self).wf(),
        ensures
            final(self).wf(),
            r.is_ok() <==> event_violation(event) is None && old(self).event_seq().len()
                < MAX_EVENTS_PER_CONTRACT,
            event_violation(event) is Some ==> r.is_err() && same_kind(
                r.unwrap_err(),
                event_violation(event).unwrap(),
            ),
            event_violation(event) is None && old(self).event_seq().len() >= MAX_EVENTS_PER_CONTRACT
                ==> r.is_err() && r.unwrap_err() is TooManyEvents,
            r.is_ok() ==> final(self).event_seq() == old(self).event_seq().push(event),
            r.is_err() ==> final(self).event_seq() == old(self).event_seq(),
            final(self).gas() == old(self).gas(),
            final(self).balances() == old(self).balances(),
    {
        self.state.event_log.add_event(event)
    }

    pub fn charge_gas(&mut self, amount: u64) -> (r: Result<(), Error>)
        requires
            old(self).wf(),
        ensures
            final(self).wf(),
            r.is_ok() <==> charged(old(self).gas(), amount as int) is Some,
            r.is_ok() ==> final(self).gas() == charged(old(self).gas(), amount as int).unwrap(),
            r.is_err() ==> final(self).gas() == old(self).gas() && r.unwrap_err() is Gas,
            final(self).state_map() == old(self).state_map(),
            final(self).event_seq() == old(self).event_seq(),
            final(self).balances() == old(self).balances(),
    {
        self.state.gas_counter.charge_gas(amount)
    }

    /// Meters a state load of a `key_size`-byte key.
    pub fn charge_state_load(&mut self, key_size: usize) -> (r: Result<(), Error>)
        requires
            old(self).wf(),
        ensures
            final(self).wf(),
            r.is_ok() <==> load_metered(old(self).gas(), key_size as int) is Some,
            r.is_ok() ==> final(self).gas() == load_metered(old(self).gas(), key_size as int).unwrap(),
            r.is_err() ==> final(self).gas() == old(self).gas(),
            final(self).state_map() == old(self).state_map(),
            final(self).event_seq() == old(self).event_seq(),
            final(self).balances() == old(self).balances(),
    {
        self.state.gas_counter.charge_state_load(key_size)
    }

    /// Meters a state store of a key and a value of these sizes.
    pub fn charge_state_store(&mut self, key_size: usize, value_size: usize) -> (r: Result<(), Error>)
        requires
            old(self).wf(),
        ensures
            final(self).wf(),
            r.is_ok() <==> store_metered(old(self).gas(), key_size as int, value_size as int) is Some,
            r.is_ok() ==> final(self).gas() == store_metered(
                old(self).gas(),
                key_size as int,
                value_size as int,
            ).unwrap(),
            r.is_err() ==> final(self).gas() == old(self).gas(),
            final(self).state_map() == old(self).state_map(),
            final(self).event_seq() == old(self).event_seq(),
            final(self).balances() == old(self).balances(),
    {
        self.state.gas_counter.charge_state_store(key_size, value_size)
    }

    /// Meters a contract call with `args_size` bytes of arguments.
    pub fn charge_contract_call(&mut self, args_size: usize) -> (r: Result<(), Error>)
        requires
            old(self).wf(),
        ensures
            final(self).wf(),
            r.is_ok() <==> call_metered(old(self).gas(), args_size as int) is Some,
            r.is_ok() ==> final(self).gas() == call_metered(old(self).gas(), args_size as int).unwrap(),
            r.is_err() ==> final(self).gas() == old(self).gas(),
            final(self).state_map() == old(self).state_map(),
            final(self).event_seq() == old(self).event_seq(),
            final(self).balances() == old(self).balances(),
    {
        self.state.gas_counter.charge_contract_call(args_size)
    }

    /// Meters an event with a name and data of these sizes.
    pub fn charge_event(&mut self, name_len: usize, data_size: usize) -> (r: Result<(), Error>)
        requires
            old(self).wf(),
        ensures
            final(self).wf(),
            r.is_ok() <==> event_metered(old(self).gas(), name_len as int, data_size as int) is Some,
            r.is_ok() ==> final(self).gas() == event_metered(
                old(self).gas(),
                name_len as int,
                data_size as int,
            ).unwrap(),
            r.is_err() ==> final(self).gas() == old(self).gas(),
            final(self).state_map() == old(self).state_map(),
            final(self).event_seq() == old(self).event_seq(),
            final(self).balances() == old(self).balances(),
    {
        self.state.gas_counter.charge_event(name_len, data_size)
    }

    pub fn get_state(&self, key: &[u8]) -> (r: Result<Option<Vec<u8>>, Error>)
        requires
            self.wf(),
        ensures
            r.is_ok(),
            r.unwrap().is_some() <==> self.state_map().contains_key(key@),
            r.unwrap().is_some() ==> r.unwrap().unwrap()@ == self.state_map()[key@],
    {
        match self.state.event_log.get_state(key) {
            Some(v) => Ok(Some(crate::bytes::copy_bytes(v.as_slice()))),
            None => Ok(None),
        }
    }

    pub fn store_state(&mut self, key: &[u8], value: &[u8]) -> (r: Result<(), Error>)
        requires
            old(self).wf(),
        ensures
            final(self).wf(),
            r.is_ok(),
            final(self).state_map() == old(self).state_map().insert(key@, value@),
            final(self).event_seq() == old(self).event_seq(),
            final(self).gas() == old(self).gas(),
            final(self).balances() == old(self).balances(),
    {
        self.state.event_log.store_state(key, value)
    }

    pub fn delete_state(&mut self, key: &[u8]) -> (r: Result<Option<Vec<u8>>, Error>)
        requires
            old(self).wf(),
        ensures
            final(self).wf(),
            r.is_ok(),
            r.unwrap().is_some() <==> old(self).state_map().contains_key(key@),
            r.unwrap().is_some() ==> r.unwrap().unwrap()@ == old(self).state_map()[key@],
            final(self).state_map() == old(self).state_map().remove(key@),
            final(self).event_seq() == old(self).event_seq(),
            final(self).gas() == old(self).gas(),
            final(self).balances() == old(self).balances(),
    {
        self.state.event_log.delete_state(key)
    }

    /// A call into another contract that this host runs no code for: it
    /// consumes the `gas` it was given and returns no data.
    pub fn execute(
        &mut self,
        _actor: &WasmlAddress,
        _target: &[u8],
        _method: &str,
        _args: &[u8],
        gas: u64,
    ) -> (r: Result<Vec<u8>, Error>)
        requires
            old(self).wf(),
        ensures
            final(self).wf(),
            r.is_ok() <==> charged(old(self).gas(), gas as int) is Some,
            r.is_ok() ==> final(self).gas() == charged(old(self).gas(), gas as int).unwrap() && r.unwrap()@
                == Seq::<u8>::empty(),
            r.is_err() ==> final(self).gas() == old(self).gas() && r.unwrap_err() is Gas,
            final(self).state_map() == old(self).state_map(),
            final(self).event_seq() == old(self).event_seq(),
            final(self).balances() == old(self).balances(),
    {
        self.charge_gas(gas)?;
        Ok(Vec::new())
    }

    pub fn get_events(&self) -> (r: &std::collections::VecDeque<Event>)
        requires
            self.wf(),
        ensures
            r@ == self.event_seq(),
    {
        self.state.event_log.events()
    }

    pub fn remaining_gas(&self) -> (r: Option<u64>)
        ensures
            r == Some(self.gas()),
    {
        Some(self.state.gas_counter.gas_remaining())
    }

    pub fn get_balance(&self, account: &WasmlAddress) -> (r: u64)
        requires
            self.wf(),
        ensures
            r == balance_of(self.balances(), account@),
    {
        match self.state.balances.get(account.as_bytes()) {
            Some(b) => *b,
            None => 0,
        }
    }

    pub fn set_balance(&mut self, account: &WasmlAddress, balance: u64)
        requires
            old(self).wf(),
        ensures
            final(self).wf(),
            final(self).balances() == old(self).balances().insert(account@, balance),
            final(self).state_map() == old(self).state_map(),
            final(self).event_seq() == old(self).event_seq(),
            final(self).gas() == old(self).gas(),
    {
        self.state.balances.insert(account.as_bytes(), balance);
    }

    /// Moves `amount` from `from` to `to`; refused, with nothing changed, when
    /// `from` holds too little or `to` would overflow.
    pub fn transfer(&mut self, from: &WasmlAddress, to: &WasmlAddress, amount: u64) -> (r: Result<
        (),
        Error,
    >)
        requires
            old(self).wf(),
        ensures
            final(self).wf(),
            r.is_ok() <==> transferred(old(self).balances(), from@, to@, amount) is Some,
            r.is_ok() ==> final(self).balances() == transferred(
                old(self).balances(),
                from@,
                to@,
                amount,
            ).unwrap(),
            r.is_err() ==> final(self).balances() == old(self).balances() && r.unwrap_err() is State,
            final(self).state_map() == old(self).state_map(),
            final(self).event_seq() == old(self).event_seq(),
            final(self).gas() == old(self).gas(),
    {
        let from_balance = self.get_balance(from);
        if from_balance < amount {
            return Err(Error::State("Insufficient balance".to_owned()));
        }
        let to_balance = if bytes_eq_addr(from, to) {
            from_balance - amount
        } else {
            self.get_balance(to)
        };
        if to_balance > u64::MAX - amount {
            return Err(Error::State("Balance overflow".to_owned()));
        }
        self.set_balance(from, from_balance - amount);
        self.set_balance(to, to_balance + amount);
        Ok(())
    }
}

fn bytes_eq_addr(a: &WasmlAddress, b: &WasmlAddress) -> (r: bool)
    ensures
        r == (a@ == b@),
{
    crate::bytes::bytes_eq(a.as_bytes(), b.as_bytes())
}

impl Host {
    /// The SHA-256 digest of `data`.
    pub fn sha256(&self, data: &[u8]) -> (r: Result<[u8; 32], Error>)
        ensures
            r.is_ok() && r.unwrap()@ == sha256_of(data@),
    {
        Ok(sha256_digest(data))
    }

    /// The Keccak-256 digest of `data`.
    pub fn keccak256(&self, data: &[u8]) -> (r: Result<[u8; 32], Error>)
        ensures
            r.is_ok() && r.unwrap()@ == keccak256_of(data@),
    {
        Ok(keccak256_digest(data))
    }

    /// Whether `sig` is a valid ed25519 signature of `msg` by `pubkey`; a key
    /// or signature that cannot be parsed is a `Crypto` error.
    pub fn ed25519_verify(&self, pubkey: &[u8], msg: &[u8], sig: &[u8]) -> (r: Result<bool, Error>)
        ensures
            r.is_ok() <==> ed25519_outcome(msg@, sig@, pubkey@) is Ok,
            r.is_ok() ==> r.unwrap() == ed25519_outcome(msg@, sig@, pubkey@).unwrap(),
            r.is_err() ==> r.unwrap_err() is Crypto,
    {
        match CryptoApi::new().ed25519_verify(msg, sig, pubkey) {
            Ok(valid) => Ok(valid),
            Err(_) => Err(Error::Crypto("Malformed key or signature".to_owned())),
        }
    }
}

} // verus!
