use vstd::prelude::*;

verus! {

/// Errors of typed state access.
#[derive(Debug, Clone, PartialEq, Eq)]
pub enum Error {
    StateError(String),
    SerializationError(String),
}

/// The state of a contract as a whole, for contracts that keep it in one
/// piece.
#[derive(Debug, Clone, Copy, PartialEq, Eq, Default)]
pub struct Contract;

/// A typed piece of contract state and the key it is stored under.
pub trait StateKey {
    fn get_key() -> Vec<u8>;
}

} // verus!
