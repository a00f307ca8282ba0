use crate::bytemap::ByteMap;
use crate::crypto::{
    batch_outcome, ed25519_outcome, recover_outcome, secp256k1_outcome, views, CryptoApi, CryptoError,
};
use crate::region::{framed_items, split_framed};
use crate::error::{Error, ExecutorError};
use crate::context::{min_u64, settled};
use crate::executor::{pack_result, packed_length, packed_pointer};
use crate::gas::{
    call_metered, charged, linear_cost, load_metered, store_metered, GasCounter, GAS_CRYPTO_BASE,
    GAS_CRYPTO_PER_BYTE, MAX_STATE_KEY_SIZE, MAX_STATE_VALUE_SIZE,
};
use crate::safety::{entered, exited, SafetyContext};
use crate::linear::LinearMemory;
use crate::host::balance_of;
use crate::memory::{align8, unchanged, GuestMemory, HEAP_BASE};
use crate::linear::WASM_PAGE_SIZE;
use crate::region::decoded;
use crate::testing::{ThreadSafeApi, ThreadSafeQuerier, ThreadSafeStorage};
use vstd::prelude::*;
use vstd::string::StringExecFns;
use vstd::utf8::{decode_utf8, encode_utf8, valid_utf8};

verus! {

/// Longest account address a guest may pass.
pub const MAX_ADDRESS_LENGTH: u64 = 256;

/// Longest debug or abort message a guest may pass.
pub const MAX_MESSAGE_LENGTH: u64 = 65536;

/// Longest hash, message, signature or key a guest may pass to a crypto
/// import.
pub const MAX_CRYPTO_INPUT_LENGTH: u64 = 65536;

/// Status a verification import returns for a valid signature.
pub const VERIFY_OK: i32 = 0;

/// Status for a well-formed signature that does not verify.
pub const VERIFY_FAILED: i32 = 1;

/// Status for input that could not even be parsed.
pub const VERIFY_MALFORMED: i32 = 2;

/// Pages of linear memory a host starts with, and the most it may grow to.
pub const INITIAL_PAGES: u32 = 2;

pub const MAX_PAGES: u32 = 16;

/// Relies on `String::from_utf8`: the decoded text when `bytes` is valid
/// UTF-8.
#[verifier::external_body]
pub(crate) fn utf8_text(bytes: Vec<u8>) -> (r: Option<String>)
    ensures
        r.is_some() == valid_utf8(bytes@),
        r.is_some() ==> r.unwrap()@ == decode_utf8(bytes@),
{
    String::from_utf8(bytes).ok()
}

/// The tri-state a verification import reports.
pub open spec fn verify_status_of(outcome: Result<bool, CryptoError>) -> i32 {
    match outcome {
        Ok(true) => VERIFY_OK,
        Ok(false) => VERIFY_FAILED,
        Err(_) => VERIFY_MALFORMED,
    }
}

/// Maps a verification outcome to the status a guest sees, keeping "does
/// not verify" apart from "could not be parsed".
pub fn verify_status(outcome: &Result<bool, CryptoError>) -> (r: i32)
    ensures
        r == verify_status_of(*outcome),
{
    match outcome {
        Ok(true) => VERIFY_OK,
        Ok(false) => VERIFY_FAILED,
        Err(_) => VERIFY_MALFORMED,
    }
}

/// A gas failure, as the host reports it.
fn metered(outcome: Result<(), Error>) -> (r: Result<(), ExecutorError>)
    ensures
        r.is_ok() == outcome.is_ok(),
        r.is_err() ==> r.unwrap_err() is GasLimitExceeded,
{
    match outcome {
        Ok(()) => Ok(()),
        Err(_) => Err(ExecutorError::GasLimitExceeded),
    }
}

/// The host side of the guest/host bridge: guest memory with its allocator
/// and pointer table, the storage and ledger collaborators, and the gas
/// meter every import charges.
pub struct HostEnv {
    memory: GuestMemory,
    storage: ThreadSafeStorage,
    balances: ByteMap<u64>,
    gas: GasCounter,
    gas_limit: u64,
    api: CryptoApi,
    safety: SafetyContext,
    addresses: ThreadSafeApi,
    querier: ThreadSafeQuerier,
}

impl HostEnv {
    pub closed spec fn wf(&self) -> bool {
        &&& self.memory.wf()
        &&& self.memory.mark() >= HEAP_BASE
        &&& self.storage.wf()
        &&& self.balances.wf()
        &&& self.gas.remaining_spec() <= self.gas_limit
        &&& self.safety.wf()
        &&& self.safety.depth() <= crate::safety::MAX_CALL_DEPTH
    }

    pub closed spec fn depth(&self) -> u32 {
        self.safety.depth()
    }

    pub closed spec fn mem(&self) -> GuestMemory {
        self.memory
    }

    pub closed spec fn storage_map(&self) -> Map<Seq<u8>, Seq<u8>> {
        self.storage@
    }

    pub closed spec fn ledger(&self) -> Map<Seq<u8>, u64> {
        self.balances@
    }

    pub closed spec fn gas(&self) -> u64 {
        self.gas.remaining_spec()
    }

    pub closed spec fn limit(&self) -> u64 {
        self.gas_limit
    }

    /// A host over `storage` with `gas_limit` gas, a fresh linear memory of
    /// `INITIAL_PAGES` pages and an allocator starting at `HEAP_BASE`.
    pub fn new(storage: ThreadSafeStorage, gas_limit: u64) -> (r: Self)
        requires
            storage.wf(),
        ensures
            r.wf(),
            r.storage_map() == storage@,
            r.ledger() == Map::<Seq<u8>, u64>::empty(),
            r.gas() == gas_limit,
            r.limit() == gas_limit,
            r.mem().mark() == HEAP_BASE,
            r.mem().live() == Map::<u32, u32>::empty(),
            r.depth() == 0,
    {
        let linear = LinearMemory::new(INITIAL_PAGES, MAX_PAGES).unwrap();
        let memory = GuestMemory::new(linear, HEAP_BASE).unwrap();
        HostEnv {
            memory,
            storage,
            balances: ByteMap::new(),
            gas: GasCounter::new(gas_limit),
            gas_limit,
            api: CryptoApi::new(),
            safety: SafetyContext::new(),
            addresses: ThreadSafeApi::new(),
            querier: ThreadSafeQuerier::new(),
        }
    }

    /// Binds a new linear memory, with a fresh allocator over it.
    pub fn set_memory(&mut self, memory: LinearMemory) -> (r: Result<(), ExecutorError>)
        requires
            old(self).wf(),
            memory.wf(),
        ensures
            final(self).wf(),
            r.is_ok() <==> HEAP_BASE <= memory@.len(),
            r.is_ok() ==> final(self).mem().bytes() == memory@ && final(self).mem().mark() == HEAP_BASE
                && final(self).mem().live() == Map::<u32, u32>::empty(),
            r.is_err() ==> final(self).mem() == old(self).mem(),
            final(self).storage_map() == old(self).storage_map(),
            final(self).gas() == old(self).gas(),
    {
        match GuestMemory::new(memory, HEAP_BASE) {
            Some(m) => {
                self.memory = m;
                Ok(())
            },
            None => Err(ExecutorError::MemoryError("Memory smaller than the heap base".to_owned())),
        }
    }

    /// Sets a new gas limit; what was already used stays used.
    pub fn set_gas_limit(&mut self, gas_limit: u64)
        requires
            old(self).wf(),
        ensures
            final(self).wf(),
            final(self).limit() == gas_limit,
            ({
                let used = (old(self).limit() - old(self).gas()) as u64;
                final(self).gas() == if used <= gas_limit {
                    (gas_limit - used) as u64
                } else {
                    0u64
                }
            }),
            final(self).mem() == old(self).mem(),
            final(self).storage_map() == old(self).storage_map(),
    {
        let used = self.gas_limit - self.gas.gas_remaining();
        let left = if used <= gas_limit {
            gas_limit - used
        } else {
            0
        };
        self.gas = GasCounter::new(left);
        self.gas_limit = gas_limit;
    }

    /// Charges `amount`; over the limit it fails with `GasLimitExceeded` and
    /// charges nothing.
    pub fn charge_gas(&mut self, amount: u64) -> (r: Result<(), ExecutorError>)
        requires
            old(self).wf(),
        ensures
            final(self).wf(),
            r.is_ok() <==> charged(old(self).gas(), amount as int) is Some,
            r.is_ok() ==> final(self).gas() == charged(old(self).gas(), amount as int).unwrap(),
            r.is_err() ==> final(self).gas() == old(self).gas() && r.unwrap_err() is GasLimitExceeded,
            final(self).mem() == old(self).mem(),
            final(self).storage_map() == old(self).storage_map(),
            final(self).ledger() == old(self).ledger(),
            final(self).limit() == old(self).limit(),
    {
        match self.gas.charge_gas(amount) {
            Ok(()) => Ok(()),
            Err(_) => Err(ExecutorError::GasLimitExceeded),
        }
    }

    /// Allocates `size` bytes of guest memory.
    pub fn allocate(&mut self, size: u32) -> (r: Result<u32, ExecutorError>)
        requires
            old(self).wf(),
        ensures
            final(self).wf(),
            size == 0 ==> r.is_err(),
            r.is_ok() <==> size > 0 && align8(old(self).mem().mark() + size) <= u32::MAX && align8(
                old(self).mem().mark() + size,
            ) <= old(self).mem().page_limit() * WASM_PAGE_SIZE,
            r.is_ok() ==> {
                let p = r.unwrap();
                &&& p == old(self).mem().mark()
                &&& final(self).mem().mark() == align8(p + size)
                &&& final(self).mem().live() == old(self).mem().live().insert(p, size)
                &&& p + size <= final(self).mem().bytes().len()
                &&& forall|j: int|
                    0 <= j < old(self).mem().bytes().len() && !(p <= j < p + size) ==> #[trigger] final(self).mem().bytes()[j]
                        == old(self).mem().bytes()[j]
                &&& forall|j: int| p <= j < p + size ==> #[trigger] final(self).mem().bytes()[j] == 0
            },
            r.is_err() ==> unchanged(final(self).mem(), old(self).mem()) && r.unwrap_err() is MemoryError,
            final(self).depth() == old(self).depth(),
            final(self).storage_map() == old(self).storage_map(),
            final(self).ledger() == old(self).ledger(),
            final(self).gas() == old(self).gas(),
    {
        self.memory.allocate(size)
    }

    /// Frees a live allocation; an untracked pointer is an error.
    pub fn deallocate(&mut self, ptr: u32) -> (r: Result<(), ExecutorError>)
        requires
            old(self).wf(),
        ensures
            final(self).wf(),
            r.is_ok() <==> old(self).mem().live().contains_key(ptr),
            r.is_ok() ==> final(self).mem().live() == old(self).mem().live().remove(ptr)
                && final(self).mem().bytes() == old(self).mem().bytes() && final(self).mem().mark()
                == old(self).mem().mark(),
            r.is_err() ==> unchanged(final(self).mem(), old(self).mem()) && r.unwrap_err() is MemoryError,
            final(self).depth() == old(self).depth(),
            final(self).storage_map() == old(self).storage_map(),
            final(self).ledger() == old(self).ledger(),
            final(self).gas() == old(self).gas(),
    {
        self.memory.deallocate(ptr)
    }

    /// Reads a guest argument region, charging one unit per byte read.
    fn read_arg(&mut self, ptr: u32, max_length: u64) -> (r: Result<Vec<u8>, ExecutorError>)
        requires
            old(self).wf(),
        ensures
            final(self).wf(),
            final(self).depth() == old(self).depth(),
            final(self).mem() == old(self).mem(),
            final(self).storage_map() == old(self).storage_map(),
            final(self).ledger() == old(self).ledger(),
            final(self).limit() == old(self).limit(),
            r.is_ok() <==> after_read(*old(self), old(self).gas(), ptr, max_length) is Some,
            r.is_ok() ==> arg(*old(self), ptr, max_length) == Some(r.unwrap()@) && final(self).gas()
                == after_read(*old(self), old(self).gas(), ptr, max_length).unwrap(),
            r.is_err() ==> final(self).gas() == old(self).gas(),
            arg(*old(self), ptr, max_length) is None ==> r.is_err() && r.unwrap_err() is MemoryAccessError,
            arg(*old(self), ptr, max_length) is Some && r.is_err() ==> r.unwrap_err() is GasLimitExceeded,
    {
        let data = self.memory.decode(ptr, max_length)?;
        let charge = self.gas.charge_memory(data.len());
        metered(charge)?;
        Ok(data)
    }

    /// Encodes `data` as a fresh region for the guest, charging one unit per
    /// byte written; returns the region's pointer.
    fn write_result(&mut self, data: &[u8]) -> (r: Result<u32, ExecutorError>)
        requires
            old(self).wf(),
        ensures
            final(self).wf(),
            final(self).depth() == old(self).depth(),
            final(self).storage_map() == old(self).storage_map(),
            final(self).ledger() == old(self).ledger(),
            final(self).limit() == old(self).limit(),
            r.is_ok() <==> charged(old(self).gas(), data@.len() as int) is Some && region_fits(
                old(self).mem(),
                data@.len() as int,
            ),
            r.is_ok() ==> r.unwrap() == old(self).mem().mark() && r.unwrap() >= HEAP_BASE && decoded(
                final(self).mem().bytes(),
                r.unwrap() as int,
                u32::MAX as int,
            ) == Some(data@) && final(self).gas() == charged(old(self).gas(), data@.len() as int).unwrap()
                && final(self).mem().mark() == align8(old(self).mem().mark() + data@.len() + 4),
            r.is_ok() ==> forall|j: int|
                0 <= j < old(self).mem().bytes().len() && !(r.unwrap() <= j < r.unwrap() + 4 + data@.len())
                    ==> #[trigger] final(self).mem().bytes()[j] == old(self).mem().bytes()[j],
            final(self).gas() <= old(self).gas(),
    {
        let charge = self.gas.charge_memory(data.len());
        metered(charge)?;
        let region = self.memory.encode(data)?;
        Ok(region.pointer)
    }
}

/// The bytes of the region at `ptr` under `max_length`, when it decodes.
pub open spec fn arg(env: HostEnv, ptr: u32, max_length: u64) -> Option<Seq<u8>> {
    decoded(env.mem().bytes(), ptr as int, max_length as int)
}

/// Whether `len` bytes fit as a fresh region at the allocator's mark.
pub open spec fn region_fits(mem: GuestMemory, len: int) -> bool {
    &&& len + 4 <= u32::MAX
    &&& align8(mem.mark() + len + 4) <= u32::MAX
    &&& align8(mem.mark() + len + 4) <= mem.page_limit() * WASM_PAGE_SIZE
}

/// Gas left from `gas` after reading the region at `ptr`, one unit per byte;
/// `None` when the region does not decode or the gas does not cover it.
pub open spec fn after_read(env: HostEnv, gas: u64, ptr: u32, max_length: u64) -> Option<u64> {
    match arg(env, ptr, max_length) {
        Some(d) => charged(gas, d.len() as int),
        None => None,
    }
}

/// Gas left after reading three regions in turn.
pub open spec fn after_reads(
    env: HostEnv,
    a: u32,
    a_max: u64,
    b: u32,
    b_max: u64,
    c: u32,
    c_max: u64,
) -> Option<u64> {
    match after_read(env, env.gas(), a, a_max) {
        Some(g1) => match after_read(env, g1, b, b_max) {
            Some(g2) => after_read(env, g2, c, c_max),
            None => None,
        },
        None => None,
    }
}

/// Gas left after reading a key and metering its state load.
pub open spec fn key_load_gas(env: HostEnv, key_ptr: u32) -> Option<u64> {
    match after_read(env, env.gas(), key_ptr, MAX_STATE_KEY_SIZE as u64) {
        Some(g) => load_metered(g, arg(env, key_ptr, MAX_STATE_KEY_SIZE as u64).unwrap().len() as int),
        None => None,
    }
}

/// Whether `db_read` succeeds: the key reads and its load is paid for, and
/// a value found under it fits as a region whose writing is paid for.
pub open spec fn db_read_succeeds(env: HostEnv, key_ptr: u32) -> bool {
    match key_load_gas(env, key_ptr) {
        Some(g) => {
            let key = arg(env, key_ptr, MAX_STATE_KEY_SIZE as u64).unwrap();
            !env.storage_map().contains_key(key) || (charged(
                g,
                env.storage_map()[key].len() as int,
            ) is Some && region_fits(env.mem(), env.storage_map()[key].len() as int))
        },
        None => false,
    }
}

/// Gas left after `db_write`, or `None` when it fails.
pub open spec fn db_write_gas(env: HostEnv, key_ptr: u32, value_ptr: u32) -> Option<u64> {
    match after_read(env, env.gas(), key_ptr, MAX_STATE_KEY_SIZE as u64) {
        Some(g1) => match after_read(env, g1, value_ptr, MAX_STATE_VALUE_SIZE as u64) {
            Some(g2) => store_metered(
                g2,
                arg(env, key_ptr, MAX_STATE_KEY_SIZE as u64).unwrap().len() as int,
                arg(env, value_ptr, MAX_STATE_VALUE_SIZE as u64).unwrap().len() as int,
            ),
            None => None,
        },
        None => None,
    }
}

/// Whether the message at `ptr` reads and is valid UTF-8.
pub open spec fn message_readable(env: HostEnv, ptr: u32) -> bool {
    after_read(env, env.gas(), ptr, MAX_MESSAGE_LENGTH) is Some && valid_utf8(
        arg(env, ptr, MAX_MESSAGE_LENGTH).unwrap(),
    )
}

/// Gas left after reading the three inputs of a signature check and paying
/// its crypto cost, or `None` when that fails.
pub open spec fn crypto_gas(env: HostEnv, a: u32, b: u32, c: u32) -> Option<u64> {
    let m = MAX_CRYPTO_INPUT_LENGTH;
    match after_reads(env, a, m, b, m, c, m) {
        Some(g) => charged(
            g,
            linear_cost(
                GAS_CRYPTO_BASE as int,
                GAS_CRYPTO_PER_BYTE as int,
                (arg(env, a, m).unwrap().len() + arg(env, b, m).unwrap().len() + arg(
                    env,
                    c,
                    m,
                ).unwrap().len()) as int,
            ),
        ),
        None => None,
    }
}

/// Gas left after reading a nested call's three regions and paying its base
/// cost, or `None` when that fails.
pub open spec fn call_gas(env: HostEnv, target_ptr: u32, method_ptr: u32, args_ptr: u32) -> Option<u64> {
    match after_reads(
        env,
        target_ptr,
        MAX_ADDRESS_LENGTH,
        method_ptr,
        MAX_METHOD_LENGTH,
        args_ptr,
        MAX_CALL_ARGS_LENGTH,
    ) {
        Some(g) => call_metered(g, arg(env, args_ptr, MAX_CALL_ARGS_LENGTH).unwrap().len() as int),
        None => None,
    }
}

impl HostEnv {
    /// Reads the value stored under the key in region `key_ptr` into a fresh
    /// region and returns its pointer, or zero when there is none.
    pub fn db_read(&mut self, key_ptr: u32) -> (r: Result<u32, ExecutorError>)
        requires
            old(self).wf(),
        ensures
            final(self).wf(),
            r.is_ok() <==> db_read_succeeds(*old(self), key_ptr),
            arg(*old(self), key_ptr, MAX_STATE_KEY_SIZE as u64) is None ==> r.is_err()
                && r.unwrap_err() is MemoryAccessError,
            r.is_ok() ==> ({
                let key = arg(*old(self), key_ptr, MAX_STATE_KEY_SIZE as u64).unwrap();
                &&& (r.unwrap() == 0 <==> !old(self).storage_map().contains_key(key))
                &&& r.unwrap() == 0 ==> final(self).gas() == key_load_gas(*old(self), key_ptr).unwrap()
                &&& r.unwrap() != 0 ==> decoded(
                    final(self).mem().bytes(),
                    r.unwrap() as int,
                    u32::MAX as int,
                ) == Some(old(self).storage_map()[key]) && final(self).gas() == charged(
                    key_load_gas(*old(self), key_ptr).unwrap(),
                    old(self).storage_map()[key].len() as int,
                ).unwrap()
            }),
            final(self).depth() == old(self).depth(),
            final(self).storage_map() == old(self).storage_map(),
            final(self).ledger() == old(self).ledger(),
            final(self).gas() <= old(self).gas(),
    {
        let key = self.read_arg(key_ptr, MAX_STATE_KEY_SIZE as u64)?;
        let charge = self.gas.charge_state_load(key.len());
        metered(charge)?;
        match self.storage.get(key.as_slice()) {
            Some(value) => self.write_result(value.as_slice()),
            None => Ok(0),
        }
    }

    /// Stores the value in region `value_ptr` under the key in region
    /// `key_ptr`, metered as a state store.
    pub fn db_write(&mut self, key_ptr: u32, value_ptr: u32) -> (r: Result<(), ExecutorError>)
        requires
            old(self).wf(),
        ensures
            final(self).wf(),
            r.is_ok() <==> db_write_gas(*old(self), key_ptr, value_ptr) is Some,
            arg(*old(self), key_ptr, MAX_STATE_KEY_SIZE as u64) is None ==> r.is_err()
                && r.unwrap_err() is MemoryAccessError,
            r.is_ok() ==> final(self).storage_map() == old(self).storage_map().insert(
                arg(*old(self), key_ptr, MAX_STATE_KEY_SIZE as u64).unwrap(),
                arg(*old(self), value_ptr, MAX_STATE_VALUE_SIZE as u64).unwrap(),
            ) && final(self).gas() == db_write_gas(*old(self), key_ptr, value_ptr).unwrap(),
            r.is_err() ==> final(self).storage_map() == old(self).storage_map(),
            final(self).depth() == old(self).depth(),
            final(self).mem() == old(self).mem(),
            final(self).ledger() == old(self).ledger(),
            final(self).gas() <= old(self).gas(),
    {
        let key = self.read_arg(key_ptr, MAX_STATE_KEY_SIZE as u64)?;
        let value = self.read_arg(value_ptr, MAX_STATE_VALUE_SIZE as u64)?;
        let charge = self.gas.charge_state_store(key.len(), value.len());
        metered(charge)?;
        self.storage.set(key.as_slice(), value.as_slice());
        Ok(())
    }

    /// Removes the key in region `key_ptr` from storage, metered as a state
    /// load.
    pub fn db_remove(&mut self, key_ptr: u32) -> (r: Result<(), ExecutorError>)
        requires
            old(self).wf(),
        ensures
            final(self).wf(),
            r.is_ok() <==> key_load_gas(*old(self), key_ptr) is Some,
            arg(*old(self), key_ptr, MAX_STATE_KEY_SIZE as u64) is None ==> r.is_err()
                && r.unwrap_err() is MemoryAccessError,
            r.is_ok() ==> final(self).storage_map() == old(self).storage_map().remove(
                arg(*old(self), key_ptr, MAX_STATE_KEY_SIZE as u64).unwrap(),
            ) && final(self).gas() == key_load_gas(*old(self), key_ptr).unwrap(),
            r.is_err() ==> final(self).storage_map() == old(self).storage_map(),
            final(self).depth() == old(self).depth(),
            final(self).mem() == old(self).mem(),
            final(self).ledger() == old(self).ledger(),
            final(self).gas() <= old(self).gas(),
    {
        let key = self.read_arg(key_ptr, MAX_STATE_KEY_SIZE as u64)?;
        let charge = self.gas.charge_state_load(key.len());
        metered(charge)?;
        self.storage.remove(key.as_slice());
        Ok(())
    }

    /// Reads a message region: text to print when it is valid UTF-8, and a
    /// host error when it is not.
    pub fn debug(&mut self, message_ptr: u32) -> (r: Result<String, ExecutorError>)
        requires
            old(self).wf(),
        ensures
            final(self).wf(),
            r.is_ok() <==> message_readable(*old(self), message_ptr),
            r.is_ok() ==> r.unwrap()@ == decode_utf8(arg(*old(self), message_ptr, MAX_MESSAGE_LENGTH).unwrap()),
            after_read(*old(self), old(self).gas(), message_ptr, MAX_MESSAGE_LENGTH) is Some ==> final(self).gas() == after_read(*old(self), old(self).gas(), message_ptr, MAX_MESSAGE_LENGTH).unwrap(),
            r.is_err() && after_read(*old(self), old(self).gas(), message_ptr, MAX_MESSAGE_LENGTH) is Some
                ==> r.unwrap_err() is HostFunctionError,
            final(self).depth() == old(self).depth(),
            final(self).mem() == old(self).mem(),
            final(self).storage_map() == old(self).storage_map(),
            final(self).ledger() == old(self).ledger(),
            final(self).gas() <= old(self).gas(),
    {
        let bytes = self.read_arg(message_ptr, MAX_MESSAGE_LENGTH)?;
        match utf8_text(bytes) {
            Some(text) => Ok(text),
            None => Err(ExecutorError::HostFunctionError("Invalid UTF-8 in message".to_owned())),
        }
    }

    /// Ends the execution with the contract's message: always an error,
    /// `ExecutionError` carrying the message, or a host error when the
    /// message is unreadable or not UTF-8.
    pub fn abort(&mut self, message_ptr: u32) -> (r: Result<(), ExecutorError>)
        requires
            old(self).wf(),
        ensures
            final(self).wf(),
            r.is_err(),
            message_readable(*old(self), message_ptr) ==> match r {
                Err(ExecutorError::ExecutionError(m)) => m@ == "Contract aborted: "@ + decode_utf8(
                    arg(*old(self), message_ptr, MAX_MESSAGE_LENGTH).unwrap(),
                ),
                _ => false,
            },
            final(self).depth() == old(self).depth(),
            final(self).mem() == old(self).mem(),
            final(self).storage_map() == old(self).storage_map(),
            final(self).ledger() == old(self).ledger(),
    {
        let text = self.debug(message_ptr)?;
        let mut message = "Contract aborted: ".to_owned();
        message.append(text.as_str());
        Err(ExecutorError::ExecutionError(message))
    }

    /// The ledger balance of the account named in region `account_ptr`.
    pub fn get_balance(&mut self, account_ptr: u32) -> (r: Result<u64, ExecutorError>)
        requires
            old(self).wf(),
        ensures
            final(self).wf(),
            r.is_ok() <==> after_read(*old(self), old(self).gas(), account_ptr, MAX_ADDRESS_LENGTH) is Some,
            r.is_ok() ==> r.unwrap() == balance_of(
                old(self).ledger(),
                arg(*old(self), account_ptr, MAX_ADDRESS_LENGTH).unwrap(),
            ) && final(self).gas() == after_read(
                *old(self),
                old(self).gas(),
                account_ptr,
                MAX_ADDRESS_LENGTH,
            ).unwrap(),
            final(self).depth() == old(self).depth(),
            final(self).mem() == old(self).mem(),
            final(self).storage_map() == old(self).storage_map(),
            final(self).ledger() == old(self).ledger(),
            final(self).gas() <= old(self).gas(),
    {
        let account = self.read_arg(account_ptr, MAX_ADDRESS_LENGTH)?;
        match self.balances.get(account.as_slice()) {
            Some(b) => Ok(*b),
            None => Ok(0),
        }
    }

    /// Sets the ledger balance of the account named in region `account_ptr`.
    pub fn set_balance(&mut self, account_ptr: u32, balance: u64) -> (r: Result<(), ExecutorError>)
        requires
            old(self).wf(),
        ensures
            final(self).wf(),
            r.is_ok() <==> after_read(*old(self), old(self).gas(), account_ptr, MAX_ADDRESS_LENGTH) is Some,
            r.is_ok() ==> final(self).ledger() == old(self).ledger().insert(
                arg(*old(self), account_ptr, MAX_ADDRESS_LENGTH).unwrap(),
                balance,
            ) && final(self).gas() == after_read(
                *old(self),
                old(self).gas(),
                account_ptr,
                MAX_ADDRESS_LENGTH,
            ).unwrap(),
            r.is_err() ==> final(self).ledger() == old(self).ledger(),
            final(self).depth() == old(self).depth(),
            final(self).mem() == old(self).mem(),
            final(self).storage_map() == old(self).storage_map(),
            final(self).gas() <= old(self).gas(),
    {
        let account = self.read_arg(account_ptr, MAX_ADDRESS_LENGTH)?;
        self.balances.insert(account.as_slice(), balance);
        Ok(())
    }

    /// Reads the three regions of a signature check and charges the crypto
    /// cost of their combined length.
    fn crypto_args(&mut self, a_ptr: u32, b_ptr: u32, c_ptr: u32) -> (r: Result<
        (Vec<u8>, Vec<u8>, Vec<u8>),
        ExecutorError,
    >)
        requires
            old(self).wf(),
        ensures
            final(self).wf(),
            r.is_ok() <==> crypto_gas(*old(self), a_ptr, b_ptr, c_ptr) is Some,
            r.is_ok() ==> arg(*old(self), a_ptr, MAX_CRYPTO_INPUT_LENGTH) == Some(r.unwrap().0@)
                && arg(*old(self), b_ptr, MAX_CRYPTO_INPUT_LENGTH) == Some(r.unwrap().1@) && arg(
                *old(self),
                c_ptr,
                MAX_CRYPTO_INPUT_LENGTH,
            ) == Some(r.unwrap().2@) && final(self).gas() == crypto_gas(
                *old(self),
                a_ptr,
                b_ptr,
                c_ptr,
            ).unwrap(),
            final(self).depth() == old(self).depth(),
            final(self).mem() == old(self).mem(),
            final(self).storage_map() == old(self).storage_map(),
            final(self).ledger() == old(self).ledger(),
            final(self).gas() <= old(self).gas(),
    {
        let a = self.read_arg(a_ptr, MAX_CRYPTO_INPUT_LENGTH)?;
        let b = self.read_arg(b_ptr, MAX_CRYPTO_INPUT_LENGTH)?;
        let c = self.read_arg(c_ptr, MAX_CRYPTO_INPUT_LENGTH)?;
        let charge = self.gas.charge_crypto(a.len() + b.len() + c.len());
        metered(charge)?;
        Ok((a, b, c))
    }

    /// Verifies a secp256k1 signature given as three regions (message,
    /// signature, public key): `VERIFY_OK`, `VERIFY_FAILED`, or
    /// `VERIFY_MALFORMED` for input that does not parse.
    pub fn secp256k1_verify(&mut self, message_ptr: u32, signature_ptr: u32, public_key_ptr: u32) -> (r:
        Result<i32, ExecutorError>)
        requires
            old(self).wf(),
        ensures
            final(self).wf(),
            r.is_ok() <==> crypto_gas(*old(self), message_ptr, signature_ptr, public_key_ptr) is Some,
            r.is_ok() ==> r.unwrap() == verify_status_of(
                secp256k1_outcome(
                    arg(*old(self), message_ptr, MAX_CRYPTO_INPUT_LENGTH).unwrap(),
                    arg(*old(self), signature_ptr, MAX_CRYPTO_INPUT_LENGTH).unwrap(),
                    arg(*old(self), public_key_ptr, MAX_CRYPTO_INPUT_LENGTH).unwrap(),
                ),
            ) && final(self).gas() == crypto_gas(*old(self), message_ptr, signature_ptr, public_key_ptr).unwrap(),
            final(self).depth() == old(self).depth(),
            final(self).mem() == old(self).mem(),
            final(self).storage_map() == old(self).storage_map(),
            final(self).gas() <= old(self).gas(),
    {
        let (message, signature, public_key) = self.crypto_args(message_ptr, signature_ptr, public_key_ptr)?;
        let outcome = self.api.secp256k1_verify(message.as_slice(), signature.as_slice(), public_key.as_slice());
        Ok(verify_status(&outcome))
    }

    /// Verifies an ed25519 signature given as three regions (message,
    /// signature, public key), with the same three statuses.
    pub fn ed25519_verify(&mut self, message_ptr: u32, signature_ptr: u32, public_key_ptr: u32) -> (r:
        Result<i32, ExecutorError>)
        requires
            old(self).wf(),
        ensures
            final(self).wf(),
            r.is_ok() <==> crypto_gas(*old(self), message_ptr, signature_ptr, public_key_ptr) is Some,
            r.is_ok() ==> r.unwrap() == verify_status_of(
                ed25519_outcome(
                    arg(*old(self), message_ptr, MAX_CRYPTO_INPUT_LENGTH).unwrap(),
                    arg(*old(self), signature_ptr, MAX_CRYPTO_INPUT_LENGTH).unwrap(),
                    arg(*old(self), public_key_ptr, MAX_CRYPTO_INPUT_LENGTH).unwrap(),
                ),
            ) && final(self).gas() == crypto_gas(*old(self), message_ptr, signature_ptr, public_key_ptr).unwrap(),
            final(self).depth() == old(self).depth(),
            final(self).mem() == old(self).mem(),
            final(self).storage_map() == old(self).storage_map(),
            final(self).gas() <= old(self).gas(),
    {
        let (message, signature, public_key) = self.crypto_args(message_ptr, signature_ptr, public_key_ptr)?;
        let outcome = self.api.ed25519_verify(message.as_slice(), signature.as_slice(), public_key.as_slice());
        Ok(verify_status(&outcome))
    }
}

impl HostEnv {
    /// The guest memory, for reading an export's result.
    pub fn memory(&self) -> (r: &GuestMemory)
        ensures
            *r == self.mem(),
    {
        &self.memory
    }

    /// Writes an entry point's argument bundle as a fresh region.
    pub fn write_args(&mut self, args: &[u8]) -> (r: Result<u32, ExecutorError>)
        requires
            old(self).wf(),
        ensures
            final(self).wf(),
            r.is_ok() <==> charged(old(self).gas(), args@.len() as int) is Some && region_fits(
                old(self).mem(),
                args@.len() as int,
            ),
            r.is_ok() ==> r.unwrap() == old(self).mem().mark() && decoded(
                final(self).mem().bytes(),
                r.unwrap() as int,
                u32::MAX as int,
            ) == Some(args@) && final(self).gas() == charged(old(self).gas(), args@.len() as int).unwrap(),
            final(self).depth() == old(self).depth(),
            final(self).storage_map() == old(self).storage_map(),
            final(self).ledger() == old(self).ledger(),
            final(self).gas() <= old(self).gas(),
    {
        self.write_result(args)
    }
}

impl HostEnv {
    /// Takes in the guest's view of linear memory before an import runs.
    pub fn load_guest_memory(&mut self, data: &[u8]) -> (r: Result<(), ExecutorError>)
        requires
            old(self).wf(),
        ensures
            final(self).wf(),
            r.is_ok() ==> final(self).mem().bytes().subrange(0, data@.len() as int) == data@,
            final(self).mem().mark() == old(self).mem().mark(),
            final(self).mem().live() == old(self).mem().live(),
            final(self).storage_map() == old(self).storage_map(),
            final(self).ledger() == old(self).ledger(),
            final(self).gas() == old(self).gas(),
    {
        self.memory.load(data)
    }

    /// Gas left to this execution.
    pub fn gas_remaining(&self) -> (r: u64)
        ensures
            r == self.gas(),
    {
        self.gas.gas_remaining()
    }
}

/// Longest method name a guest may pass to `call_contract`.
pub const MAX_METHOD_LENGTH: u64 = 256;

/// Longest argument bundle a guest may pass to `call_contract`.
pub const MAX_CALL_ARGS_LENGTH: u64 = 1048576;

/// What a guest asked to call: the target contract, the method, and the
/// argument bundle.
#[derive(Debug)]
pub struct CallRequest {
    pub target: Vec<u8>,
    pub method: Vec<u8>,
    pub args: Vec<u8>,
}

/// What a nested call puts aside on the host while the callee runs: the
/// caller's meter and the budget handed to the callee.
#[derive(Debug)]
pub struct HostCallFrame {
    caller_meter: GasCounter,
    budget: u64,
}

impl HostCallFrame {
    pub closed spec fn caller_gas(&self) -> u64 {
        self.caller_meter.remaining_spec()
    }

    pub closed spec fn budget(&self) -> u64 {
        self.budget
    }
}

impl HostEnv {
    /// Begins the `call_contract` import: reads the target, method and
    /// argument regions, charges the call's base cost (an out-of-gas failure
    /// leaves the depth alone), then checks the depth bound. On success the
    /// callee runs on a meter holding `gas`, but never more than the caller
    /// has left.
    pub fn begin_call(&mut self, target_ptr: u32, method_ptr: u32, args_ptr: u32, gas: u64) -> (r: Result<
        (HostCallFrame, CallRequest),
        ExecutorError,
    >)
        requires
            old(self).wf(),
        ensures
            final(self).wf(),
            r.is_ok() <==> call_gas(*old(self), target_ptr, method_ptr, args_ptr) is Some && entered(
                old(self).depth(),
            ) is Some,
            call_gas(*old(self), target_ptr, method_ptr, args_ptr) is Some && entered(old(self).depth())
                is None ==> r.is_err() && r.unwrap_err() is MaxDepthExceeded && final(self).gas()
                == call_gas(*old(self), target_ptr, method_ptr, args_ptr).unwrap(),
            r.is_ok() ==> ({
                let (frame, req) = r.unwrap();
                let after_base = call_gas(*old(self), target_ptr, method_ptr, args_ptr).unwrap();
                &&& arg(*old(self), target_ptr, MAX_ADDRESS_LENGTH) == Some(req.target@)
                &&& arg(*old(self), method_ptr, MAX_METHOD_LENGTH) == Some(req.method@)
                &&& arg(*old(self), args_ptr, MAX_CALL_ARGS_LENGTH) == Some(req.args@)
                &&& final(self).depth() == entered(old(self).depth()).unwrap()
                &&& frame.caller_gas() == after_base
                &&& frame.budget() == min_u64(gas, after_base)
                &&& final(self).gas() == frame.budget()
            }),
            r.is_err() ==> final(self).depth() == old(self).depth(),
            final(self).depth() <= crate::safety::MAX_CALL_DEPTH,
            final(self).mem() == old(self).mem(),
            final(self).storage_map() == old(self).storage_map(),
            final(self).ledger() == old(self).ledger(),
    {
        let target = self.read_arg(target_ptr, MAX_ADDRESS_LENGTH)?;
        let method = self.read_arg(method_ptr, MAX_METHOD_LENGTH)?;
        let args = self.read_arg(args_ptr, MAX_CALL_ARGS_LENGTH)?;
        let charge = self.gas.charge_contract_call(args.len());
        metered(charge)?;
        if self.safety.enter_call().is_err() {
            return Err(ExecutorError::MaxDepthExceeded("Maximum call depth exceeded".to_owned()));
        }
        let available = self.gas.gas_remaining();
        let budget = if gas <= available {
            gas
        } else {
            available
        };
        let caller_meter = GasCounter::new(available);
        self.gas = GasCounter::new(budget);
        Ok((HostCallFrame { caller_meter, budget }, CallRequest { target, method, args }))
    }

    /// Ends a nested call on every path out of it: the caller's meter comes
    /// back charged with what the callee used of its budget, and the depth
    /// drops by one.
    pub fn end_call(&mut self, frame: HostCallFrame)
        requires
            old(self).wf(),
            frame.caller_gas() <= old(self).limit(),
        ensures
            final(self).wf(),
            final(self).depth() == exited(old(self).depth()),
            final(self).gas() == settled(frame.caller_gas(), frame.budget(), old(self).gas()),
            final(self).mem() == old(self).mem(),
            final(self).storage_map() == old(self).storage_map(),
            final(self).ledger() == old(self).ledger(),
    {
        let left = self.gas.gas_remaining();
        let kept = if left <= frame.budget {
            left
        } else {
            frame.budget
        };
        let used = frame.budget - kept;
        let mut meter = frame.caller_meter;
        let caller_left = meter.gas_remaining();
        let charge = if used <= caller_left {
            used
        } else {
            caller_left
        };
        let charged_ok = meter.charge_gas(charge);
        assert(charged_ok.is_ok());
        self.gas = meter;
        self.safety.exit_call();
    }

    /// Hands a nested call's outcome to the calling guest: the callee's
    /// result as a fresh region, or zero when the callee failed.
    pub fn return_call_result(&mut self, result: Option<Vec<u8>>) -> (r: Result<u32, ExecutorError>)
        requires
            old(self).wf(),
        ensures
            final(self).wf(),
            result is None ==> r == Ok::<u32, ExecutorError>(0u32),
            result is Some && r.is_ok() ==> r.unwrap() != 0 && decoded(
                final(self).mem().bytes(),
                r.unwrap() as int,
                u32::MAX as int,
            ) == Some(result.unwrap()@),
            final(self).depth() == old(self).depth(),
            final(self).storage_map() == old(self).storage_map(),
            final(self).ledger() == old(self).ledger(),
    {
        match result {
            Some(bytes) => self.write_result(bytes.as_slice()),
            None => Ok(0),
        }
    }

    /// Swaps in another guest memory (a callee's), returning the one held.
    pub fn replace_memory(&mut self, memory: GuestMemory) -> (r: GuestMemory)
        requires
            old(self).wf(),
            memory.wf(),
            memory.mark() >= HEAP_BASE,
        ensures
            final(self).wf(),
            r == old(self).mem(),
            final(self).mem() == memory,
            final(self).depth() == old(self).depth(),
            final(self).gas() == old(self).gas(),
            final(self).storage_map() == old(self).storage_map(),
            final(self).ledger() == old(self).ledger(),
    {
        let mut other = memory;
        std::mem::swap(&mut self.memory, &mut other);
        other
    }
}

/// The canonical form the address collaborator gives the text of `bytes`.
pub open spec fn canonical_of(bytes: Seq<u8>) -> Seq<u8> {
    encode_utf8(decode_utf8(bytes))
}

/// Gas left after reading a region whose text is valid UTF-8.
pub open spec fn text_gas(env: HostEnv, ptr: u32, max_length: u64) -> Option<u64> {
    match after_read(env, env.gas(), ptr, max_length) {
        Some(g) => if valid_utf8(arg(env, ptr, max_length).unwrap()) {
            Some(g)
        } else {
            None
        },
        None => None,
    }
}

impl HostEnv {
    /// Reads a region that must hold text.
    fn read_text(&mut self, ptr: u32, max_length: u64) -> (r: Result<String, ExecutorError>)
        requires
            old(self).wf(),
        ensures
            final(self).wf(),
            r.is_ok() <==> text_gas(*old(self), ptr, max_length) is Some,
            r.is_ok() ==> r.unwrap()@ == decode_utf8(arg(*old(self), ptr, max_length).unwrap())
                && final(self).gas() == text_gas(*old(self), ptr, max_length).unwrap(),
            final(self).depth() == old(self).depth(),
            final(self).mem() == old(self).mem(),
            final(self).storage_map() == old(self).storage_map(),
            final(self).ledger() == old(self).ledger(),
            final(self).limit() == old(self).limit(),
            final(self).gas() <= old(self).gas(),
    {
        let bytes = self.read_arg(ptr, max_length)?;
        match utf8_text(bytes) {
            Some(text) => Ok(text),
            None => Err(ExecutorError::HostFunctionError("Invalid UTF-8 in address".to_owned())),
        }
    }

    /// Validates the address text in region `addr_ptr`: status 0 when the
    /// address collaborator accepts it, 1 when it does not.
    pub fn addr_validate(&mut self, addr_ptr: u32) -> (r: Result<i32, ExecutorError>)
        requires
            old(self).wf(),
        ensures
            final(self).wf(),
            r.is_ok() <==> text_gas(*old(self), addr_ptr, MAX_ADDRESS_LENGTH) is Some,
            r.is_ok() ==> r.unwrap() == 0,
            final(self).depth() == old(self).depth(),
            final(self).mem() == old(self).mem(),
            final(self).storage_map() == old(self).storage_map(),
            final(self).ledger() == old(self).ledger(),
            final(self).gas() <= old(self).gas(),
    {
        let text = self.read_text(addr_ptr, MAX_ADDRESS_LENGTH)?;
        if self.addresses.addr_validate(text.as_str()) {
            Ok(0)
        } else {
            Ok(1)
        }
    }

    /// Writes the canonical form of the address text in region `addr_ptr`
    /// as a fresh region and returns its pointer.
    pub fn addr_canonicalize(&mut self, addr_ptr: u32) -> (r: Result<u32, ExecutorError>)
        requires
            old(self).wf(),
        ensures
            final(self).wf(),
            r.is_ok() <==> ({
                let g = text_gas(*old(self), addr_ptr, MAX_ADDRESS_LENGTH);
                let c = canonical_of(arg(*old(self), addr_ptr, MAX_ADDRESS_LENGTH).unwrap());
                g is Some && charged(g.unwrap(), c.len() as int) is Some && region_fits(
                    old(self).mem(),
                    c.len() as int,
                )
            }),
            r.is_ok() ==> decoded(final(self).mem().bytes(), r.unwrap() as int, u32::MAX as int) == Some(
                canonical_of(arg(*old(self), addr_ptr, MAX_ADDRESS_LENGTH).unwrap()),
            ),
            final(self).depth() == old(self).depth(),
            final(self).storage_map() == old(self).storage_map(),
            final(self).ledger() == old(self).ledger(),
            final(self).gas() <= old(self).gas(),
    {
        let text = self.read_text(addr_ptr, MAX_ADDRESS_LENGTH)?;
        let canonical = self.addresses.addr_canonicalize(text.as_str());
        self.write_result(canonical.as_slice())
    }

    /// Writes the text form of the canonical address in region
    /// `canonical_ptr` as a fresh region and returns its pointer, or zero
    /// when those bytes are not text.
    pub fn addr_humanize(&mut self, canonical_ptr: u32) -> (r: Result<u32, ExecutorError>)
        requires
            old(self).wf(),
        ensures
            final(self).wf(),
            r.is_ok() <==> ({
                let g = after_read(*old(self), old(self).gas(), canonical_ptr, MAX_ADDRESS_LENGTH);
                let b = arg(*old(self), canonical_ptr, MAX_ADDRESS_LENGTH).unwrap();
                g is Some && (!valid_utf8(b) || (charged(g.unwrap(), canonical_of(b).len() as int) is Some
                    && region_fits(old(self).mem(), canonical_of(b).len() as int)))
            }),
            r.is_ok() ==> ({
                let b = arg(*old(self), canonical_ptr, MAX_ADDRESS_LENGTH).unwrap();
                &&& (r.unwrap() == 0 <==> !valid_utf8(b))
                &&& r.unwrap() != 0 ==> decoded(
                    final(self).mem().bytes(),
                    r.unwrap() as int,
                    u32::MAX as int,
                ) == Some(canonical_of(b))
            }),
            final(self).depth() == old(self).depth(),
            final(self).storage_map() == old(self).storage_map(),
            final(self).ledger() == old(self).ledger(),
            final(self).gas() <= old(self).gas(),
    {
        let canonical = self.read_arg(canonical_ptr, MAX_ADDRESS_LENGTH)?;
        match self.addresses.addr_humanize(canonical.as_slice()) {
            Some(text) => self.write_result(text.as_str().as_bytes()),
            None => Ok(0),
        }
    }

    /// Passes the query in region `query_ptr` to the chain-query
    /// collaborator and writes its answer as a fresh region, returning its
    /// pointer, or zero when the query fails.
    pub fn query_chain(&mut self, query_ptr: u32) -> (r: Result<u32, ExecutorError>)
        requires
            old(self).wf(),
        ensures
            final(self).wf(),
            r.is_ok() <==> after_read(*old(self), old(self).gas(), query_ptr, MAX_CALL_ARGS_LENGTH) is Some
                && region_fits(old(self).mem(), 0),
            r.is_ok() ==> r.unwrap() != 0 && decoded(
                final(self).mem().bytes(),
                r.unwrap() as int,
                u32::MAX as int,
            ) == Some(Seq::<u8>::empty()),
            final(self).depth() == old(self).depth(),
            final(self).storage_map() == old(self).storage_map(),
            final(self).ledger() == old(self).ledger(),
            final(self).gas() <= old(self).gas(),
    {
        let query = self.read_arg(query_ptr, MAX_CALL_ARGS_LENGTH)?;
        match self.querier.raw_query(query.as_slice()) {
            Ok(answer) => self.write_result(answer.as_slice()),
            Err(_) => Ok(0),
        }
    }
}

/// Gas left after reading a recovery's hash and signature and paying its
/// crypto cost, or `None` when that fails.
pub open spec fn recover_gas(env: HostEnv, hash_ptr: u32, sig_ptr: u32) -> Option<u64> {
    let m = MAX_CRYPTO_INPUT_LENGTH;
    match after_read(env, env.gas(), hash_ptr, m) {
        Some(g1) => match after_read(env, g1, sig_ptr, m) {
            Some(g2) => charged(
                g2,
                linear_cost(
                    GAS_CRYPTO_BASE as int,
                    GAS_CRYPTO_PER_BYTE as int,
                    (arg(env, hash_ptr, m).unwrap().len() + arg(env, sig_ptr, m).unwrap().len()) as int,
                ),
            ),
            None => None,
        },
        None => None,
    }
}

/// What recovery gives for the import's arguments; a recovery id past a
/// byte fails.
pub open spec fn import_recovery(env: HostEnv, hash_ptr: u32, sig_ptr: u32, recovery: u32) -> Result<
    Seq<u8>,
    CryptoError,
> {
    if recovery > 255 {
        Err(CryptoError::InvalidSignature)
    } else {
        recover_outcome(
            arg(env, hash_ptr, MAX_CRYPTO_INPUT_LENGTH).unwrap(),
            arg(env, sig_ptr, MAX_CRYPTO_INPUT_LENGTH).unwrap(),
            recovery as u8,
        )
    }
}

impl HostEnv {
    /// Recovers the secp256k1 public key from the hash and signature regions
    /// and the recovery id: the key as a fresh region, returned packed as
    /// `(pointer << 32) | length`, or zero when no key can be recovered.
    pub fn secp256k1_recover_pubkey(&mut self, hash_ptr: u32, sig_ptr: u32, recovery: u32) -> (r: Result<
        u64,
        ExecutorError,
    >)
        requires
            old(self).wf(),
        ensures
            final(self).wf(),
            r.is_ok() <==> recover_gas(*old(self), hash_ptr, sig_ptr) is Some && match import_recovery(
                *old(self),
                hash_ptr,
                sig_ptr,
                recovery,
            ) {
                Err(_) => true,
                Ok(key) => charged(recover_gas(*old(self), hash_ptr, sig_ptr).unwrap(), key.len() as int)
                    is Some && region_fits(old(self).mem(), key.len() as int),
            },
            r.is_ok() ==> match import_recovery(*old(self), hash_ptr, sig_ptr, recovery) {
                Err(_) => r.unwrap() == 0,
                Ok(key) => r.unwrap() != 0 && packed_length(r.unwrap()) == key.len() && decoded(
                    final(self).mem().bytes(),
                    packed_pointer(r.unwrap()) as int,
                    u32::MAX as int,
                ) == Some(key),
            },
            final(self).depth() == old(self).depth(),
            final(self).storage_map() == old(self).storage_map(),
            final(self).ledger() == old(self).ledger(),
            final(self).gas() <= old(self).gas(),
    {
        let hash = self.read_arg(hash_ptr, MAX_CRYPTO_INPUT_LENGTH)?;
        let sig = self.read_arg(sig_ptr, MAX_CRYPTO_INPUT_LENGTH)?;
        let charge = self.gas.charge_crypto(hash.len() + sig.len());
        metered(charge)?;
        if recovery > 255 {
            return Ok(0);
        }
        match self.api.secp256k1_recover_pubkey(hash.as_slice(), sig.as_slice(), recovery as u8) {
            Ok(key) => {
                let ptr = self.write_result(key.as_slice())?;
                Ok(pack_result(ptr, key.len() as u32))
            },
            Err(_) => Ok(0),
        }
    }
}

/// The status a batch check reports for three framed lists: malformed
/// framing is `VERIFY_MALFORMED`; otherwise the status of the batch.
pub open spec fn batch_status(ms: Seq<u8>, ss: Seq<u8>, ks: Seq<u8>) -> i32 {
    match (framed_items(ms), framed_items(ss), framed_items(ks)) {
        (Some(m), Some(s), Some(k)) => verify_status_of(batch_outcome(m, s, k)),
        _ => VERIFY_MALFORMED,
    }
}

impl HostEnv {
    /// Verifies a batch of ed25519 signatures. Each of the three regions
    /// holds a list framed as length-prefixed items: messages, signatures
    /// and public keys, matched by position.
    pub fn ed25519_batch_verify(&mut self, messages_ptr: u32, signatures_ptr: u32, public_keys_ptr: u32) -> (r:
        Result<i32, ExecutorError>)
        requires
            old(self).wf(),
        ensures
            final(self).wf(),
            r.is_ok() <==> crypto_gas(*old(self), messages_ptr, signatures_ptr, public_keys_ptr) is Some,
            r.is_ok() ==> r.unwrap() == batch_status(
                arg(*old(self), messages_ptr, MAX_CRYPTO_INPUT_LENGTH).unwrap(),
                arg(*old(self), signatures_ptr, MAX_CRYPTO_INPUT_LENGTH).unwrap(),
                arg(*old(self), public_keys_ptr, MAX_CRYPTO_INPUT_LENGTH).unwrap(),
            ),
            final(self).depth() == old(self).depth(),
            final(self).mem() == old(self).mem(),
            final(self).storage_map() == old(self).storage_map(),
            final(self).gas() <= old(self).gas(),
    {
        let (messages, signatures, public_keys) = self.crypto_args(
            messages_ptr,
            signatures_ptr,
            public_keys_ptr,
        )?;
        let ms = split_framed(messages.as_slice());
        let ss = split_framed(signatures.as_slice());
        let ks = split_framed(public_keys.as_slice());
        match (ms, ss, ks) {
            (Some(m), Some(s), Some(k)) => {
                proof {
                    assert(views(m@) =~= framed_items(messages@).unwrap());
                    assert(views(s@) =~= framed_items(signatures@).unwrap());
                    assert(views(k@) =~= framed_items(public_keys@).unwrap());
                }
                let outcome = self.api.ed25519_batch_verify(&m, &s, &k);
                Ok(verify_status(&outcome))
            },
            _ => Ok(VERIFY_MALFORMED),
        }
    }
}

} // verus!
