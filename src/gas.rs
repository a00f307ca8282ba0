use crate::error::Error;
pub use crate::safety::MAX_CALL_DEPTH;
use vstd::prelude::*;

verus! {

// Gas costs for the operations that cross the host/guest boundary.
pub const GAS_BASE_OPERATION: u64 = 1;
pub const GAS_MEMORY_STORE_PER_BYTE: u64 = 1;
pub const GAS_MEMORY_LOAD_PER_BYTE: u64 = 1;
pub const GAS_STATE_STORE_PER_BYTE: u64 = 10;
pub const GAS_STATE_LOAD_PER_BYTE: u64 = 5;
pub const GAS_CONTRACT_CALL_BASE: u64 = 100;
pub const GAS_EVENT_BASE: u64 = 10;
pub const GAS_EVENT_PER_BYTE: u64 = 1;
pub const GAS_CRYPTO_BASE: u64 = 50;
pub const GAS_CRYPTO_PER_BYTE: u64 = 2;

// Limits.
pub const MAX_CONTRACT_SIZE: usize = 1048576;
pub const MAX_STATE_KEY_SIZE: usize = 1024;
pub const MAX_STATE_VALUE_SIZE: usize = 1048576;
pub const MAX_EVENT_NAME_LENGTH: usize = 64;
pub const MAX_EVENT_DATA_SIZE: usize = 1048576;
pub const MAX_EVENTS_PER_CONTRACT: usize = 100;
pub const MIN_GAS_LIMIT: u64 = 100000;
pub const MAX_GAS: u64 = 1000000;

/// Outcome of charging `amount` against `remaining` gas: the new remaining
/// amount, or `None` when the charge would cross the ceiling.
pub open spec fn charged(remaining: u64, amount: int) -> Option<u64> {
    if amount <= remaining as int {
        Some((remaining - amount) as u64)
    } else {
        None
    }
}

/// A base cost plus a per-byte rate, the shape of every declared cost.
pub open spec fn linear_cost(base: int, rate: int, bytes: int) -> int {
    base + rate * bytes
}

/// Cost of storing a key/value pair in contract state.
pub open spec fn state_store_cost(key_size: int, value_size: int) -> int {
    GAS_STATE_STORE_PER_BYTE * key_size + GAS_STATE_STORE_PER_BYTE * value_size
}

/// Outcome of metering a state load of a `key_size`-byte key.
pub open spec fn load_metered(remaining: u64, key_size: int) -> Option<u64> {
    if key_size > MAX_STATE_KEY_SIZE {
        None
    } else {
        charged(remaining, linear_cost(0, GAS_STATE_LOAD_PER_BYTE as int, key_size))
    }
}

/// Outcome of metering a state store of a key and a value of these sizes.
pub open spec fn store_metered(remaining: u64, key_size: int, value_size: int) -> Option<u64> {
    if key_size > MAX_STATE_KEY_SIZE || value_size > MAX_STATE_VALUE_SIZE {
        None
    } else {
        charged(remaining, state_store_cost(key_size, value_size))
    }
}

/// Outcome of metering a contract call with `args_size` bytes of arguments.
pub open spec fn call_metered(remaining: u64, args_size: int) -> Option<u64> {
    charged(
        remaining,
        linear_cost(GAS_CONTRACT_CALL_BASE as int, GAS_MEMORY_STORE_PER_BYTE as int, args_size),
    )
}

/// Outcome of metering an event with a name and data of these sizes.
pub open spec fn event_metered(remaining: u64, name_len: int, data_size: int) -> Option<u64> {
    if name_len > MAX_EVENT_NAME_LENGTH || data_size > MAX_EVENT_DATA_SIZE {
        None
    } else {
        charged(remaining, linear_cost(GAS_EVENT_BASE as int, GAS_EVENT_PER_BYTE as int, data_size))
    }
}

/// A gas meter with a ceiling: charges only ever lower `remaining`, and a
/// charge that does not fit is rejected without touching it.
#[derive(Debug, Clone)]
pub struct GasCounter {
    remaining: u64,
}

impl GasCounter {
    pub closed spec fn remaining_spec(&self) -> u64 {
        self.remaining
    }

    pub fn new(initial_gas: u64) -> (r: Self)
        ensures
            r.remaining_spec() == initial_gas,
    {
        Self { remaining: initial_gas }
    }

    /// Charges `amount`; fails with `Error::Gas` and leaves the meter as it was
    /// when `amount` exceeds what remains.
    pub fn charge_gas(&mut self, amount: u64) -> (r: Result<(), Error>)
        ensures
            r.is_ok() <==> charged(old(self).remaining_spec(), amount as int).is_some(),
            r.is_ok() ==> final(self).remaining_spec() == charged(
                old(self).remaining_spec(),
                amount as int,
            ).unwrap(),
            r.is_err() ==> final(self).remaining_spec() == old(self).remaining_spec(),
            r.is_err() ==> r.unwrap_err() is Gas,
            final(self).remaining_spec() <= old(self).remaining_spec(),
    {
        if amount > self.remaining {
            return Err(Error::Gas("Out of gas".to_owned()));
        }
        self.remaining = self.remaining - amount;
        Ok(())
    }

    /// Charges a general amount given as an unbounded integer: one that does
    /// not fit a `u64` is reported as `TooExpensive`.
    fn charge_cost(&mut self, cost: u128, what: &str) -> (r: Result<(), Error>)
        ensures
            cost > u64::MAX ==> r.is_err() && r.unwrap_err() is TooExpensive && *final(self)
                == *old(self),
            cost <= u64::MAX ==> {
                &&& r.is_ok() <==> charged(old(self).remaining_spec(), cost as int).is_some()
                &&& r.is_ok() ==> final(self).remaining_spec() == charged(
                    old(self).remaining_spec(),
                    cost as int,
                ).unwrap()
                &&& r.is_err() ==> *final(self) == *old(self) && r.unwrap_err() is Gas
            },
            final(self).remaining_spec() <= old(self).remaining_spec(),
    {
        if cost > u64::MAX as u128 {
            return Err(Error::TooExpensive(what.to_owned()));
        }
        let r = self.charge_gas(cost as u64);
        proof {
            if r.is_err() {
                assert(self.remaining == old(self).remaining);
            }
        }
        r
    }

    /// Memory read/write: one gas unit per byte.
    pub fn charge_memory(&mut self, bytes: usize) -> (r: Result<(), Error>)
        ensures
            r.is_ok() <==> charged(
                old(self).remaining_spec(),
                linear_cost(0, GAS_MEMORY_STORE_PER_BYTE as int, bytes as int),
            ).is_some(),
            r.is_ok() ==> final(self).remaining_spec() == charged(
                old(self).remaining_spec(),
                linear_cost(0, GAS_MEMORY_STORE_PER_BYTE as int, bytes as int),
            ).unwrap(),
            r.is_err() ==> *final(self) == *old(self),
            final(self).remaining_spec() <= old(self).remaining_spec(),
    {
        let n = bytes as u128;
        let rate = GAS_MEMORY_STORE_PER_BYTE as u128;
        assert(n * rate <= 2 * u64::MAX) by (nonlinear_arith)
            requires n <= u64::MAX, rate <= 2;
        let cost = n * rate;
        assert(cost == linear_cost(0, GAS_MEMORY_STORE_PER_BYTE as int, bytes as int));
        self.charge_cost(cost, "Memory operation too large")
    }

    /// State store: ten gas units per key byte and per value byte. Keys over
    /// `MAX_STATE_KEY_SIZE` and values over `MAX_STATE_VALUE_SIZE` are rejected
    /// as `TooExpensive` before anything is charged.
    pub fn charge_state_store(&mut self, key_size: usize, value_size: usize) -> (r: Result<
        (),
        Error,
    >)
        ensures
            key_size > MAX_STATE_KEY_SIZE ==> r.is_err() && r.unwrap_err() is TooExpensive,
            key_size <= MAX_STATE_KEY_SIZE && value_size > MAX_STATE_VALUE_SIZE ==> r.is_err()
                && r.unwrap_err() is TooExpensive,
            key_size <= MAX_STATE_KEY_SIZE && value_size <= MAX_STATE_VALUE_SIZE ==> {
                &&& r.is_ok() <==> charged(
                    old(self).remaining_spec(),
                    state_store_cost(key_size as int, value_size as int),
                ).is_some()
                &&& r.is_ok() ==> final(self).remaining_spec() == charged(
                    old(self).remaining_spec(),
                    state_store_cost(key_size as int, value_size as int),
                ).unwrap()
            },
            r.is_err() ==> *final(self) == *old(self),
            final(self).remaining_spec() <= old(self).remaining_spec(),
            r.is_ok() <==> store_metered(old(self).remaining_spec(), key_size as int, value_size as int) is Some,
            r.is_ok() ==> final(self).remaining_spec() == store_metered(
                old(self).remaining_spec(),
                key_size as int,
                value_size as int,
            ).unwrap(),
    {
        if key_size > MAX_STATE_KEY_SIZE {
            return Err(Error::TooExpensive("State key too large".to_owned()));
        }
        if value_size > MAX_STATE_VALUE_SIZE {
            return Err(Error::TooExpensive("State value too large".to_owned()));
        }
        let key_gas = key_size as u64 * GAS_STATE_STORE_PER_BYTE;
        let value_gas = value_size as u64 * GAS_STATE_STORE_PER_BYTE;
        self.charge_gas(key_gas + value_gas)
    }

    /// State load: five gas units per key byte; keys over `MAX_STATE_KEY_SIZE`
    /// are rejected as `TooExpensive`.
    pub fn charge_state_load(&mut self, key_size: usize) -> (r: Result<(), Error>)
        ensures
            key_size > MAX_STATE_KEY_SIZE ==> r.is_err() && r.unwrap_err() is TooExpensive,
            key_size <= MAX_STATE_KEY_SIZE ==> {
                &&& r.is_ok() <==> charged(
                    old(self).remaining_spec(),
                    linear_cost(0, GAS_STATE_LOAD_PER_BYTE as int, key_size as int),
                ).is_some()
                &&& r.is_ok() ==> final(self).remaining_spec() == charged(
                    old(self).remaining_spec(),
                    linear_cost(0, GAS_STATE_LOAD_PER_BYTE as int, key_size as int),
                ).unwrap()
            },
            r.is_err() ==> *final(self) == *old(self),
            final(self).remaining_spec() <= old(self).remaining_spec(),
            r.is_ok() <==> load_metered(old(self).remaining_spec(), key_size as int) is Some,
            r.is_ok() ==> final(self).remaining_spec() == load_metered(
                old(self).remaining_spec(),
                key_size as int,
            ).unwrap(),
    {
        if key_size > MAX_STATE_KEY_SIZE {
            return Err(Error::TooExpensive("State key too large".to_owned()));
        }
        self.charge_gas(key_size as u64 * GAS_STATE_LOAD_PER_BYTE)
    }

    /// Contract call: a base of `GAS_CONTRACT_CALL_BASE` plus one unit per
    /// argument byte.
    pub fn charge_contract_call(&mut self, args_size: usize) -> (r: Result<(), Error>)
        ensures
            linear_cost(GAS_CONTRACT_CALL_BASE as int, GAS_MEMORY_STORE_PER_BYTE as int, args_size as int)
                > u64::MAX ==> r.is_err() && r.unwrap_err() is TooExpensive,
            linear_cost(GAS_CONTRACT_CALL_BASE as int, GAS_MEMORY_STORE_PER_BYTE as int, args_size as int)
                <= u64::MAX && r.is_err() ==> r.unwrap_err() is Gas,
            r.is_ok() <==> charged(
                old(self).remaining_spec(),
                linear_cost(
                    GAS_CONTRACT_CALL_BASE as int,
                    GAS_MEMORY_STORE_PER_BYTE as int,
                    args_size as int,
                ),
            ).is_some(),
            r.is_ok() ==> final(self).remaining_spec() == charged(
                old(self).remaining_spec(),
                linear_cost(
                    GAS_CONTRACT_CALL_BASE as int,
                    GAS_MEMORY_STORE_PER_BYTE as int,
                    args_size as int,
                ),
            ).unwrap(),
            r.is_err() ==> *final(self) == *old(self),
            final(self).remaining_spec() <= old(self).remaining_spec(),
            r.is_ok() <==> call_metered(old(self).remaining_spec(), args_size as int) is Some,
            r.is_ok() ==> final(self).remaining_spec() == call_metered(
                old(self).remaining_spec(),
                args_size as int,
            ).unwrap(),
    {
        let bytes = args_size as u128;
        let rate = GAS_MEMORY_STORE_PER_BYTE as u128;
        assert(bytes * rate <= 2 * u64::MAX) by (nonlinear_arith)
            requires bytes <= u64::MAX, rate <= 2;
        let cost = GAS_CONTRACT_CALL_BASE as u128 + bytes * rate;
        assert(cost == linear_cost(
            GAS_CONTRACT_CALL_BASE as int,
            GAS_MEMORY_STORE_PER_BYTE as int,
            args_size as int,
        ));
        self.charge_cost(cost, "Contract call args too large")
    }

    /// Event emission: a base of `GAS_EVENT_BASE` plus one unit per data byte.
    /// Names over `MAX_EVENT_NAME_LENGTH` and data over `MAX_EVENT_DATA_SIZE`
    /// are rejected as `TooExpensive`.
    pub fn charge_event(&mut self, name_len: usize, data_size: usize) -> (r: Result<(), Error>)
        ensures
            name_len > MAX_EVENT_NAME_LENGTH ==> r.is_err() && r.unwrap_err() is TooExpensive,
            name_len <= MAX_EVENT_NAME_LENGTH && data_size > MAX_EVENT_DATA_SIZE ==> r.is_err()
                && r.unwrap_err() is TooExpensive,
            name_len <= MAX_EVENT_NAME_LENGTH && data_size <= MAX_EVENT_DATA_SIZE ==> {
                &&& r.is_ok() <==> charged(
                    old(self).remaining_spec(),
                    linear_cost(GAS_EVENT_BASE as int, GAS_EVENT_PER_BYTE as int, data_size as int),
                ).is_some()
                &&& r.is_ok() ==> final(self).remaining_spec() == charged(
                    old(self).remaining_spec(),
                    linear_cost(GAS_EVENT_BASE as int, GAS_EVENT_PER_BYTE as int, data_size as int),
                ).unwrap()
            },
            r.is_err() ==> *final(self) == *old(self),
            final(self).remaining_spec() <= old(self).remaining_spec(),
            r.is_ok() <==> event_metered(old(self).remaining_spec(), name_len as int, data_size as int) is Some,
            r.is_ok() ==> final(self).remaining_spec() == event_metered(
                old(self).remaining_spec(),
                name_len as int,
                data_size as int,
            ).unwrap(),
    {
        if name_len > MAX_EVENT_NAME_LENGTH {
            return Err(Error::TooExpensive("Event name too long".to_owned()));
        }
        if data_size > MAX_EVENT_DATA_SIZE {
            return Err(Error::TooExpensive("Event data too large".to_owned()));
        }
        self.charge_gas(GAS_EVENT_BASE + data_size as u64 * GAS_EVENT_PER_BYTE)
    }

    /// Cryptographic verification: a base of `GAS_CRYPTO_BASE` plus two units
    /// per input byte.
    pub fn charge_crypto(&mut self, input_size: usize) -> (r: Result<(), Error>)
        ensures
            linear_cost(GAS_CRYPTO_BASE as int, GAS_CRYPTO_PER_BYTE as int, input_size as int) > u64::MAX
                ==> r.is_err() && r.unwrap_err() is TooExpensive,
            linear_cost(GAS_CRYPTO_BASE as int, GAS_CRYPTO_PER_BYTE as int, input_size as int) <= u64::MAX
                && r.is_err() ==> r.unwrap_err() is Gas,
            r.is_ok() <==> charged(
                old(self).remaining_spec(),
                linear_cost(GAS_CRYPTO_BASE as int, GAS_CRYPTO_PER_BYTE as int, input_size as int),
            ).is_some(),
            r.is_ok() ==> final(self).remaining_spec() == charged(
                old(self).remaining_spec(),
                linear_cost(GAS_CRYPTO_BASE as int, GAS_CRYPTO_PER_BYTE as int, input_size as int),
            ).unwrap(),
            r.is_err() ==> *final(self) == *old(self),
            final(self).remaining_spec() <= old(self).remaining_spec(),
    {
        let bytes = input_size as u128;
        let rate = GAS_CRYPTO_PER_BYTE as u128;
        assert(bytes * rate <= 2 * u64::MAX) by (nonlinear_arith)
            requires bytes <= u64::MAX, rate <= 2;
        let cost = GAS_CRYPTO_BASE as u128 + bytes * rate;
        assert(cost == linear_cost(GAS_CRYPTO_BASE as int, GAS_CRYPTO_PER_BYTE as int, input_size as int));
        self.charge_cost(cost, "Crypto operation too large")
    }

    pub fn gas_remaining(&self) -> (r: u64)
        ensures
            r == self.remaining_spec(),
    {
        self.remaining
    }
}

impl Default for GasCounter {
    fn default() -> (r: Self)
        ensures
            r.remaining_spec() == MAX_GAS,
    {
        Self { remaining: MAX_GAS }
    }
}

/// Total of the first `n` amounts.
pub open spec fn prefix_sum(amounts: Seq<u64>, n: int) -> int
    decreases n,
{
    if n <= 0 {
        0
    } else {
        prefix_sum(amounts, n - 1) + amounts[n - 1]
    }
}

/// Gas ceiling: when a sequence of charges against `limit` adds up to more
/// than `limit`, there is a call `k` where it is crossed. Every charge before
/// it succeeds and leaves `limit` minus the amounts so far; the charge at `k`
/// fails, and a failed charge leaves the meter where it was.
pub proof fn lemma_gas_ceiling(limit: u64, amounts: Seq<u64>)
    requires
        prefix_sum(amounts, amounts.len() as int) > limit,
    ensures
        exists|k: int|
            0 <= k < amounts.len() && prefix_sum(amounts, k) <= limit && #[trigger] prefix_sum(
                amounts,
                k + 1,
            ) > limit && charged((limit - prefix_sum(amounts, k)) as u64, amounts[k] as int)
                is None && (forall|j: int|
                0 <= j < k ==> charged(
                    (limit - prefix_sum(amounts, j)) as u64,
                    amounts[j] as int,
                ) == Some((limit - #[trigger] prefix_sum(amounts, j + 1)) as u64)),
{
    lemma_first_crossing(limit, amounts, 0);
}

proof fn lemma_prefix_sum_nonneg(amounts: Seq<u64>, n: int)
    ensures
        prefix_sum(amounts, n) >= 0,
    decreases n,
{
    if n > 0 {
        lemma_prefix_sum_nonneg(amounts, n - 1);
    }
}

proof fn lemma_first_crossing(limit: u64, amounts: Seq<u64>, i: int)
    requires
        0 <= i <= amounts.len(),
        prefix_sum(amounts, amounts.len() as int) > limit,
        forall|j: int| 0 <= j < i ==> #[trigger] prefix_sum(amounts, j + 1) <= limit,
        prefix_sum(amounts, i) <= limit,
    ensures
        exists|k: int|
            0 <= k < amounts.len() && prefix_sum(amounts, k) <= limit && #[trigger] prefix_sum(
                amounts,
                k + 1,
            ) > limit && charged((limit - prefix_sum(amounts, k)) as u64, amounts[k] as int)
                is None && (forall|j: int|
                0 <= j < k ==> charged(
                    (limit - prefix_sum(amounts, j)) as u64,
                    amounts[j] as int,
                ) == Some((limit - #[trigger] prefix_sum(amounts, j + 1)) as u64)),
    decreases amounts.len() - i,
{
    if i == amounts.len() {
        assert(false);
    } else if prefix_sum(amounts, i + 1) > limit {
        assert forall|j: int| 0 <= j < i implies charged(
            (limit - prefix_sum(amounts, j)) as u64,
            amounts[j] as int,
        ) == Some((limit - #[trigger] prefix_sum(amounts, j + 1)) as u64) by {
            lemma_prefix_sum_nonneg(amounts, j);
            assert(prefix_sum(amounts, j + 1) <= limit);
            assert(prefix_sum(amounts, j + 1) == prefix_sum(amounts, j) + amounts[j]);
        }
        lemma_prefix_sum_nonneg(amounts, i);
        assert(charged((limit - prefix_sum(amounts, i)) as u64, amounts[i] as int) is None);
    } else {
        lemma_first_crossing(limit, amounts, i + 1);
    }
}

} // verus!
