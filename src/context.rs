use crate::error::Error;
use crate::events::{event_violation, utf8_len, Event};
use crate::gas::{call_metered, event_metered, load_metered, store_metered, GasCounter, MAX_EVENTS_PER_CONTRACT};
use crate::host::{balance_of, transferred, Host};
use crate::safety::{entered, exited, expected_nonce, nonce_step, SafetyManager};
use crate::types::WasmlAddress;
use vstd::prelude::*;

verus! {

/// The smaller of two amounts.
pub open spec fn min_u64(a: u64, b: u64) -> u64 {
    if a <= b {
        a
    } else {
        b
    }
}

/// The caller's remaining gas once a nested call returns: what it had when
/// the call began, less what the callee used of its budget.
pub open spec fn settled(caller_gas: u64, budget: u64, callee_left: u64) -> u64 {
    let used = (budget - min_u64(callee_left, budget)) as u64;
    (caller_gas - min_u64(used, caller_gas)) as u64
}

/// The name length and data size an event is metered by: a state change has
/// no name and its value as data.
pub open spec fn event_sizes(e: Event) -> (int, int) {
    match e {
        Event::StateChange { value, .. } => (0, value@.len() as int),
        Event::Custom { name, data, .. } => (utf8_len(name@), data@.len() as int),
    }
}

/// What a nested call puts aside while it runs: the caller's gas meter and
/// the budget handed to the callee.
#[derive(Debug)]
pub struct CallFrame {
    caller_meter: GasCounter,
    budget: u64,
}

impl CallFrame {
    pub closed spec fn caller_gas(&self) -> u64 {
        self.caller_meter.remaining_spec()
    }

    pub closed spec fn budget(&self) -> u64 {
        self.budget
    }

    /// The gas the callee was allowed to use.
    pub fn budget_value(&self) -> (r: u64)
        ensures
            r == self.budget(),
    {
        self.budget
    }
}

/// The object a contract entry point works through: who is acting, at which
/// height and time, and the host operations, each metered against gas and
/// guarded by the call-safety checks.
pub struct Context {
    actor: WasmlAddress,
    height: u64,
    timestamp: u64,
    host: Host,
    safety_manager: SafetyManager,
}

impl Context {
    pub closed spec fn wf(&self) -> bool {
        &&& self.host.wf()
        &&& self.safety_manager.wf()
        &&& self.safety_manager.version() == crate::safety::PROTOCOL_VERSION
    }

    pub closed spec fn actor_spec(&self) -> Seq<u8> {
        self.actor@
    }

    pub closed spec fn height_spec(&self) -> u64 {
        self.height
    }

    pub closed spec fn timestamp_spec(&self) -> u64 {
        self.timestamp
    }

    pub closed spec fn gas(&self) -> u64 {
        self.host.gas()
    }

    pub closed spec fn depth(&self) -> u32 {
        self.safety_manager.depth()
    }

    pub closed spec fn nonces(&self) -> Map<Seq<u8>, u64> {
        self.safety_manager.nonces()
    }

    pub closed spec fn state_map(&self) -> Map<Seq<u8>, Seq<u8>> {
        self.host.state_map()
    }

    pub closed spec fn balances(&self) -> Map<Seq<u8>, u64> {
        self.host.balances()
    }

    pub closed spec fn event_seq(&self) -> Seq<Event> {
        self.host.event_seq()
    }

    /// A context acting as `actor` over `host`; a given `gas_counter` becomes
    /// the meter of this execution in place of the host's.
    pub fn new(
        actor: WasmlAddress,
        height: u64,
        timestamp: u64,
        host: Host,
        gas_counter: Option<GasCounter>,
    ) -> (r: Self)
        requires
            host.wf(),
        ensures
            r.wf(),
            r.actor_spec() == actor@,
            r.height_spec() == height,
            r.timestamp_spec() == timestamp,
            r.depth() == 0,
            r.nonces() == Map::<Seq<u8>, u64>::empty(),
            r.gas() == match gas_counter {
                Some(g) => g.remaining_spec(),
                None => host.gas(),
            },
            r.state_map() == host.state_map(),
            r.balances() == host.balances(),
            r.event_seq() == host.event_seq(),
    {
        let mut host = host;
        match gas_counter {
            Some(g) => {
                let _ = host.replace_meter(g);
            },
            None => {},
        }
        Self { actor, height, timestamp, host, safety_manager: SafetyManager::new() }
    }

    pub fn actor(&self) -> (r: &WasmlAddress)
        ensures
            r@ == self.actor_spec(),
    {
        &self.actor
    }

    pub fn height(&self) -> (r: u64)
        ensures
            r == self.height_spec(),
    {
        self.height
    }

    pub fn timestamp(&self) -> (r: u64)
        ensures
            r == self.timestamp_spec(),
    {
        self.timestamp
    }

    /// Gas left to this execution.
    pub fn remaining_gas(&self) -> (r: u64)
        ensures
            r == self.gas(),
    {
        match self.host.remaining_gas() {
            Some(g) => g,
            None => 0,
        }
    }

    pub fn get_balance(&self, account: &WasmlAddress) -> (r: Result<u64, Error>)
        requires
            self.wf(),
        ensures
            r == Ok::<u64, Error>(balance_of(self.balances(), account@)),
    {
        Ok(self.host.get_balance(account))
    }

    pub fn set_balance(&mut self, account: &WasmlAddress, balance: u64)
        requires
            old(self).wf(),
        ensures
            final(self).wf(),
            final(self).balances() == old(self).balances().insert(account@, balance),
            final(self).state_map() == old(self).state_map(),
            final(self).gas() == old(self).gas(),
            final(self).depth() == old(self).depth(),
            final(self).nonces() == old(self).nonces(),
            final(self).actor_spec() == old(self).actor_spec(),
    {
        self.host.set_balance(account, balance)
    }

    /// A nonce-checked transfer: `nonce` (zero when absent) must be the one
    /// expected for `from`, and `from` must hold `amount`. Both are checked
    /// before anything changes; on success the balances move and `from`'s
    /// expected nonce advances.
    pub fn transfer(
        &mut self,
        from: &WasmlAddress,
        to: &WasmlAddress,
        amount: u64,
        nonce: Option<u64>,
    ) -> (r: Result<(), Error>)
        requires
            old(self).wf(),
        ensures
            final(self).wf(),
            ({
                let n = match nonce {
                    Some(v) => v,
                    None => 0u64,
                };
                &&& nonce_step(old(self).nonces(), from@, n) is None ==> r.is_err()
                    && r.unwrap_err() is InvalidNonce
                &&& nonce_step(old(self).nonces(), from@, n) is Some && transferred(
                    old(self).balances(),
                    from@,
                    to@,
                    amount,
                ) is None ==> r.is_err() && r.unwrap_err() is State
                &&& r.is_ok() <==> nonce_step(old(self).nonces(), from@, n) is Some && transferred(
                    old(self).balances(),
                    from@,
                    to@,
                    amount,
                ) is Some
                &&& r.is_ok() ==> final(self).nonces() == nonce_step(
                    old(self).nonces(),
                    from@,
                    n,
                ).unwrap() && final(self).balances() == transferred(
                    old(self).balances(),
                    from@,
                    to@,
                    amount,
                ).unwrap()
            }),
            r.is_err() ==> final(self).nonces() == old(self).nonces() && final(self).balances()
                == old(self).balances(),
            final(self).state_map() == old(self).state_map(),
            final(self).gas() == old(self).gas(),
            final(self).depth() == old(self).depth(),
            final(self).actor_spec() == old(self).actor_spec(),
    {
        let n = match nonce {
            Some(v) => v,
            None => 0,
        };
        let expected = self.safety_manager.get_nonce(from.as_bytes());
        if n != expected || n == u64::MAX {
            return Err(Error::InvalidNonce("Invalid nonce".to_owned()));
        }
        self.host.transfer(from, to, amount)?;
        let checked = self.safety_manager.verify_and_increment_nonce(from.as_bytes(), n);
        assert(checked.is_ok());
        Ok(())
    }

    /// Sends `amount` from the acting account to `to`, with the nonce the
    /// actor is expected to present next.
    pub fn send(&mut self, to: &WasmlAddress, amount: u64) -> (r: Result<(), Error>)
        requires
            old(self).wf(),
        ensures
            final(self).wf(),
            ({
                let a = old(self).actor_spec();
                let n = expected_nonce(old(self).nonces(), a);
                &&& r.is_ok() <==> n < u64::MAX && transferred(old(self).balances(), a, to@, amount) is Some
                &&& r.is_ok() ==> final(self).balances() == transferred(
                    old(self).balances(),
                    a,
                    to@,
                    amount,
                ).unwrap() && final(self).nonces() == old(self).nonces().insert(a, (n + 1) as u64)
            }),
            r.is_err() ==> final(self).nonces() == old(self).nonces() && final(self).balances()
                == old(self).balances(),
            final(self).state_map() == old(self).state_map(),
            final(self).gas() == old(self).gas(),
            final(self).depth() == old(self).depth(),
            final(self).actor_spec() == old(self).actor_spec(),
    {
        let actor = self.actor.copied();
        let n = self.safety_manager.get_nonce(actor.as_bytes());
        self.transfer(&actor, to, amount, Some(n))
    }
}

impl Context {
    /// Reads `key` from contract state, metered as a state load.
    pub fn get_state(&mut self, key: &[u8]) -> (r: Result<Option<Vec<u8>>, Error>)
        requires
            old(self).wf(),
        ensures
            final(self).wf(),
            r.is_ok() <==> load_metered(old(self).gas(), key@.len() as int) is Some,
            r.is_ok() ==> final(self).gas() == load_metered(old(self).gas(), key@.len() as int).unwrap(),
            r.is_ok() ==> (r.unwrap().is_some() <==> old(self).state_map().contains_key(key@)),
            r.is_ok() && r.unwrap().is_some() ==> r.unwrap().unwrap()@ == old(self).state_map()[key@],
            r.is_err() ==> final(self).gas() == old(self).gas(),
            final(self).state_map() == old(self).state_map(),
            final(self).balances() == old(self).balances(),
            final(self).depth() == old(self).depth(),
            final(self).nonces() == old(self).nonces(),
            final(self).actor_spec() == old(self).actor_spec(),
    {
        self.host.charge_state_load(key.len())?;
        self.host.get_state(key)
    }

    /// Writes `value` under `key`, metered as a state store.
    pub fn store_state(&mut self, key: &[u8], value: &[u8]) -> (r: Result<(), Error>)
        requires
            old(self).wf(),
        ensures
            final(self).wf(),
            r.is_ok() <==> store_metered(old(self).gas(), key@.len() as int, value@.len() as int) is Some,
            r.is_ok() ==> final(self).gas() == store_metered(
                old(self).gas(),
                key@.len() as int,
                value@.len() as int,
            ).unwrap(),
            r.is_ok() ==> final(self).state_map() == old(self).state_map().insert(key@, value@),
            r.is_err() ==> final(self).gas() == old(self).gas() && final(self).state_map() == old(self).state_map(),
            final(self).balances() == old(self).balances(),
            final(self).depth() == old(self).depth(),
            final(self).nonces() == old(self).nonces(),
            final(self).actor_spec() == old(self).actor_spec(),
    {
        self.host.charge_state_store(key.len(), value.len())?;
        self.host.store_state(key, value)
    }

    /// Removes `key` from contract state, returning the value it had; metered
    /// as a state load.
    pub fn delete_state(&mut self, key: &[u8]) -> (r: Result<Option<Vec<u8>>, Error>)
        requires
            old(self).wf(),
        ensures
            final(self).wf(),
            r.is_ok() <==> load_metered(old(self).gas(), key@.len() as int) is Some,
            r.is_ok() ==> final(self).gas() == load_metered(old(self).gas(), key@.len() as int).unwrap(),
            r.is_ok() ==> (r.unwrap().is_some() <==> old(self).state_map().contains_key(key@)),
            r.is_ok() && r.unwrap().is_some() ==> r.unwrap().unwrap()@ == old(self).state_map()[key@],
            r.is_ok() ==> final(self).state_map() == old(self).state_map().remove(key@),
            r.is_err() ==> final(self).gas() == old(self).gas() && final(self).state_map() == old(self).state_map(),
            final(self).balances() == old(self).balances(),
            final(self).depth() == old(self).depth(),
            final(self).nonces() == old(self).nonces(),
            final(self).actor_spec() == old(self).actor_spec(),
    {
        self.host.charge_state_load(key.len())?;
        self.host.delete_state(key)
    }

    /// Emits `event`, metered as an event whose data is the event's data (a
    /// state change's value) and whose name is the event's name (empty for a
    /// state change).
    pub fn add_event(&mut self, event: Event) -> (r: Result<(), Error>)
        requires
            old(self).wf(),
        ensures
            final(self).wf(),
            r.is_ok() <==> event_metered(old(self).gas(), event_sizes(event).0, event_sizes(event).1)
                is Some && event_violation(event) is None && old(self).event_seq().len()
                < MAX_EVENTS_PER_CONTRACT,
            r.is_ok() ==> final(self).gas() == event_metered(
                old(self).gas(),
                event_sizes(event).0,
                event_sizes(event).1,
            ).unwrap(),
            r.is_ok() ==> final(self).event_seq() == old(self).event_seq().push(event),
            r.is_err() ==> final(self).event_seq() == old(self).event_seq(),
            final(self).balances() == old(self).balances(),
            final(self).depth() == old(self).depth(),
            final(self).nonces() == old(self).nonces(),
            final(self).actor_spec() == old(self).actor_spec(),
    {
        let (name_len, data_len) = match &event {
            Event::StateChange { value, .. } => (0, value.len()),
            Event::Custom { name, data, .. } => {
                let n = name.as_str().len();
                assert(n == utf8_len(name@));
                (n, data.len())
            },
        };
        self.host.charge_event(name_len, data_len)?;
        self.host.add_event(event)
    }

    pub fn get_events(&self) -> (r: &std::collections::VecDeque<Event>)
        requires
            self.wf(),
        ensures
            r@ == self.event_seq(),
    {
        self.host.get_events()
    }

    /// The nonce `actor` must present next.
    pub fn get_nonce(&self, actor: &WasmlAddress) -> (r: u64)
        requires
            self.wf(),
        ensures
            r == expected_nonce(self.nonces(), actor@),
    {
        self.safety_manager.get_nonce(actor.as_bytes())
    }

    pub fn check_protocol_version(&self, version: u32) -> (r: Result<(), Error>)
        requires
            self.wf(),
        ensures
            r.is_ok() <==> version == crate::safety::PROTOCOL_VERSION,
            r.is_err() ==> r.unwrap_err() is InvalidProtocolVersion,
    {
        self.safety_manager.check_protocol_version(version)
    }
}

impl Context {
    /// Begins a nested contract call. The call's base cost is charged first
    /// (an out-of-gas failure changes nothing); then the depth bound is
    /// checked (`MaxDepthExceeded` leaves the depth as it was). On success
    /// the depth grows by one and the callee runs on a meter of its own
    /// holding `gas`, but never more than the caller has left; the caller's
    /// meter waits in the returned frame.
    pub fn begin_call(&mut self, args_len: usize, gas: u64) -> (r: Result<CallFrame, Error>)
        requires
            old(self).wf(),
        ensures
            final(self).wf(),
            r.is_ok() <==> call_metered(old(self).gas(), args_len as int) is Some && entered(
                old(self).depth(),
            ) is Some,
            call_metered(old(self).gas(), args_len as int) is None ==> r.is_err() && final(self).gas()
                == old(self).gas(),
            call_metered(old(self).gas(), args_len as int) is Some ==> ({
                let after_base = call_metered(old(self).gas(), args_len as int).unwrap();
                &&& entered(old(self).depth()) is None ==> r.is_err() && r.unwrap_err() is MaxDepthExceeded
                    && final(self).gas() == after_base
                &&& r.is_ok() ==> r.unwrap().caller_gas() == after_base && r.unwrap().budget()
                    == min_u64(gas, after_base) && final(self).gas() == r.unwrap().budget()
            }),
            r.is_ok() ==> final(self).depth() == entered(old(self).depth()).unwrap(),
            r.is_err() ==> final(self).depth() == old(self).depth(),
            final(self).state_map() == old(self).state_map(),
            final(self).balances() == old(self).balances(),
            final(self).nonces() == old(self).nonces(),
            final(self).actor_spec() == old(self).actor_spec(),
    {
        self.host.charge_contract_call(args_len)?;
        self.safety_manager.enter_call()?;
        let available = self.remaining_gas();
        let budget = if gas <= available {
            gas
        } else {
            available
        };
        let caller_meter = self.host.replace_meter(GasCounter::new(budget));
        Ok(CallFrame { caller_meter, budget })
    }

    /// Ends a nested call, whether it succeeded or failed: the caller's
    /// meter comes back, charged with what the callee used of its budget,
    /// and the depth drops by one.
    pub fn end_call(&mut self, frame: CallFrame)
        requires
            old(self).wf(),
        ensures
            final(self).wf(),
            final(self).depth() == exited(old(self).depth()),
            final(self).gas() == settled(frame.caller_gas(), frame.budget(), old(self).gas()),
            old(self).gas() <= frame.budget() <= frame.caller_gas() ==> final(self).gas()
                == frame.caller_gas() - (frame.budget() - old(self).gas()),
            final(self).state_map() == old(self).state_map(),
            final(self).balances() == old(self).balances(),
            final(self).nonces() == old(self).nonces(),
            final(self).actor_spec() == old(self).actor_spec(),
    {
        let left = self.remaining_gas();
        let kept = if left <= frame.budget {
            left
        } else {
            frame.budget
        };
        let used = frame.budget - kept;
        let mut meter = frame.caller_meter;
        let caller_left = meter.gas_remaining();
        let charge = if used <= caller_left {
            used
        } else {
            caller_left
        };
        let charged_ok = meter.charge_gas(charge);
        assert(charged_ok.is_ok());
        let _ = self.host.replace_meter(meter);
        self.safety_manager.exit_call();
    }

    /// Calls `method` of `target` with `args` and a gas allowance: the base
    /// cost and depth check of `begin_call`, the call itself on the callee's
    /// budget, and `end_call` on every path out.
    pub fn call_contract(&mut self, target: &[u8], method: &str, args: &[u8], gas: u64) -> (r:
        Result<Vec<u8>, Error>)
        requires
            old(self).wf(),
        ensures
            final(self).wf(),
            ({
                let base = call_metered(old(self).gas(), args@.len() as int);
                &&& r.is_ok() <==> base is Some && entered(old(self).depth()) is Some && gas
                    <= base.unwrap()
                &&& r.is_ok() ==> r.unwrap()@ == Seq::<u8>::empty() && final(self).gas() == base.unwrap()
                    - gas
                &&& base is None ==> r.is_err() && final(self).gas() == old(self).gas()
                &&& base is Some && entered(old(self).depth()) is None ==> r.is_err()
                    && r.unwrap_err() is MaxDepthExceeded && final(self).gas() == base.unwrap()
                &&& base is Some && entered(old(self).depth()) is Some && gas > base.unwrap() ==> r.is_err()
                    && r.unwrap_err() is Gas && final(self).gas() == base.unwrap()
            }),
            final(self).depth() == old(self).depth(),
            final(self).state_map() == old(self).state_map(),
            final(self).balances() == old(self).balances(),
            final(self).nonces() == old(self).nonces(),
    {
        let frame = self.begin_call(args.len(), gas)?;
        let actor = self.actor.copied();
        let result = self.host.execute(&actor, target, method, args, gas);
        self.end_call(frame);
        result
    }
}

/// A nested call never costs the caller more than the call's base cost plus
/// the gas the callee actually used, and the callee can use no more than the
/// caller had left once the base cost was paid.
pub proof fn lemma_sub_call_gas(caller: u64, args_len: int, gas: u64, callee_left: u64)
    requires
        args_len >= 0,
        call_metered(caller, args_len) is Some,
        callee_left <= min_u64(gas, call_metered(caller, args_len).unwrap()),
    ensures
        ({
            let after_base = call_metered(caller, args_len).unwrap();
            let budget = min_u64(gas, after_base);
            &&& budget <= after_base
            &&& budget <= gas
            &&& settled(after_base, budget, callee_left) == after_base - (budget - callee_left)
            &&& caller - settled(after_base, budget, callee_left) == (caller - after_base) + (budget
                - callee_left)
        }),
{
}

} // verus!
