//! Host-side runtime core for WebAssembly smart contracts.
//!
//! Values cross the host/guest boundary as length-prefixed regions of the
//! guest's linear memory ([`region`]). The host hands out memory with a bump
//! allocator and tracks every live allocation in a pointer table
//! ([`memory`], [`allocations`]). Every host operation is charged against a
//! gas meter with a ceiling ([`gas`]); nested contract calls are bounded in
//! depth and transfers are sequenced by per-actor nonces ([`safety`]). The
//! import surface a guest calls ([`imports`]), the entry-point protocol
//! ([`executor`]) and the contract-facing facade ([`context`]) are built on
//! these.

// Byte strings and maps keyed by them.
pub mod bytemap;
pub mod bytes;
pub mod order;

// Errors, identifiers and the gas model.
pub mod error;
pub mod gas;
pub mod types;

// The memory bridge.
pub mod allocations;
pub mod linear;
pub mod memory;
pub mod region;

// Call safety, events and the contract-facing host.
pub mod context;
pub mod events;
pub mod host;
pub mod safety;
pub mod state;

// The import surface, the executor and the collaborators it drives.
pub mod crypto;
pub mod executor;
pub mod hash;
pub mod imports;
pub mod sim;
pub mod storage;
pub mod testing;
