use crate::error::ExecutorError;
use crate::gas::charged;
use crate::imports::{region_fits, HostEnv};
use crate::memory::GuestMemory;
use vstd::prelude::*;

verus! {

/// How a guest export came back when the engine invoked it.
#[derive(Debug, Clone, PartialEq, Eq)]
pub enum ExportOutcome {
    /// It returned a packed `(pointer << 32) | length` result.
    Returned(u64),
    /// The module has no export of that name.
    Missing,
    /// The export exists with a different signature.
    WrongSignature,
    /// The guest trapped, with the engine's description.
    Trapped(String),
}

/// The pointer half of a packed result.
pub open spec fn packed_pointer(v: u64) -> u32 {
    (v / 4294967296) as u32
}

/// The length half of a packed result.
pub open spec fn packed_length(v: u64) -> u32 {
    (v % 4294967296) as u32
}

/// Packs a region's pointer and length into one 64-bit value.
pub open spec fn pack(pointer: u32, length: u32) -> u64 {
    (pointer * 4294967296 + length) as u64
}

/// Splits a packed result into its pointer and length.
pub fn unpack_result(v: u64) -> (r: (u32, u32))
    ensures
        r.0 == packed_pointer(v),
        r.1 == packed_length(v),
{
    ((v / 4294967296) as u32, (v % 4294967296) as u32)
}

/// Packs a pointer and length the way guest exports return them.
pub fn pack_result(pointer: u32, length: u32) -> (r: u64)
    ensures
        r == pack(pointer, length),
        packed_pointer(r) == pointer,
        packed_length(r) == length,
{
    let r = pointer as u64 * 4294967296 + length as u64;
    r
}

/// What an entry-point call returns for an outcome: the bytes the result
/// names in memory, `EntryPointNotFound` for a missing export,
/// `ExecutionError` for a wrong signature, a trap, or a result outside
/// memory.
pub open spec fn call_result(mem: Seq<u8>, outcome: ExportOutcome) -> Option<Seq<u8>> {
    match outcome {
        ExportOutcome::Returned(v) => {
            let p = packed_pointer(v) as int;
            let l = packed_length(v) as int;
            if p + l <= mem.len() {
                Some(mem.subrange(p, p + l))
            } else {
                None
            }
        },
        _ => None,
    }
}

/// Writes the call's argument bundle into guest memory as a fresh region and
/// returns the pointer the export is to be invoked with.
pub fn prepare_call(env: &mut HostEnv, args: &[u8]) -> (r: Result<u32, ExecutorError>)
    requires
        old(env).wf(),
    ensures
        final(env).wf(),
        r.is_ok() <==> charged(old(env).gas(), args@.len() as int) is Some && region_fits(
            old(env).mem(),
            args@.len() as int,
        ),
        r.is_ok() ==> final(env).gas() == charged(old(env).gas(), args@.len() as int).unwrap(),
        r.is_ok() ==> r.unwrap() == old(env).mem().mark() && crate::region::decoded(
            final(env).mem().bytes(),
            r.unwrap() as int,
            u32::MAX as int,
        ) == Some(args@),
        final(env).storage_map() == old(env).storage_map(),
        final(env).gas() <= old(env).gas(),
{
    env.write_args(args)
}

/// Turns how the export came back into the call's result.
pub fn finish_call(memory: &GuestMemory, name: &str, outcome: ExportOutcome) -> (r: Result<
    Vec<u8>,
    ExecutorError,
>)
    requires
        memory.wf(),
    ensures
        r.is_ok() <==> call_result(memory.bytes(), outcome) is Some,
        r.is_ok() ==> r.unwrap()@ == call_result(memory.bytes(), outcome).unwrap(),
        outcome is Missing ==> r.is_err() && r.unwrap_err() is EntryPointNotFound,
        outcome is WrongSignature || outcome is Trapped ==> r.is_err() && r.unwrap_err() is ExecutionError,
{
    match outcome {
        ExportOutcome::Returned(v) => {
            let (pointer, length) = unpack_result(v);
            match memory.read_bytes(pointer, length) {
                Ok(data) => Ok(data),
                Err(_) => Err(ExecutorError::ExecutionError("Result lies outside memory".to_owned())),
            }
        },
        ExportOutcome::Missing => Err(ExecutorError::EntryPointNotFound(name.to_owned())),
        ExportOutcome::WrongSignature => Err(
            ExecutorError::ExecutionError("Entry point has the wrong signature".to_owned()),
        ),
        ExportOutcome::Trapped(message) => Err(ExecutorError::ExecutionError(message)),
    }
}

/// What a nested call hands back to its caller for each way the callee's
/// export came back: a trap unwinds as an error; any other failure is a
/// failed call, `None`; otherwise the callee's result.
pub open spec fn nested_result(mem: Seq<u8>, outcome: ExportOutcome) -> Result<Option<Seq<u8>>, ()> {
    match outcome {
        ExportOutcome::Trapped(_) => Err(()),
        _ => Ok(call_result(mem, outcome)),
    }
}

/// Decides what a nested call returns to its caller.
pub fn finish_nested_call(memory: &GuestMemory, name: &str, outcome: ExportOutcome) -> (r: Result<
    Option<Vec<u8>>,
    ExecutorError,
>)
    requires
        memory.wf(),
    ensures
        r.is_err() <==> nested_result(memory.bytes(), outcome) is Err,
        r.is_err() ==> r.unwrap_err() is ExecutionError,
        r.is_ok() ==> match nested_result(memory.bytes(), outcome) {
            Ok(Some(d)) => r.unwrap() is Some && r.unwrap().unwrap()@ == d,
            Ok(None) => r.unwrap() is None,
            Err(_) => false,
        },
{
    match outcome {
        ExportOutcome::Trapped(message) => Err(ExecutorError::ExecutionError(message)),
        other => match finish_call(memory, name, other) {
            Ok(data) => Ok(Some(data)),
            Err(_) => Ok(None),
        },
    }
}

} // verus!
