use crate::error::ExecutorError;
use std::collections::HashMap;
use vstd::prelude::*;

verus! {

/// Live host-allocated regions of guest memory, pointer to length. Every
/// dereference and every free goes through it, so using or freeing a pointer
/// it does not hold is an error rather than memory corruption.
pub struct PointerTable {
    live: HashMap<u32, u32>,
}

impl View for PointerTable {
    type V = Map<u32, u32>;

    closed spec fn view(&self) -> Map<u32, u32> {
        self.live@
    }
}

impl PointerTable {
    pub fn new() -> (r: Self)
        ensures
            r@ == Map::<u32, u32>::empty(),
    {
        PointerTable { live: HashMap::new() }
    }

    /// Records a new live allocation; a pointer that is already live is
    /// refused and the table is left as it was.
    pub fn insert(&mut self, ptr: u32, len: u32) -> (r: Result<(), ExecutorError>)
        ensures
            r.is_ok() <==> !old(self)@.contains_key(ptr),
            r.is_ok() ==> final(self)@ == old(self)@.insert(ptr, len),
            r.is_err() ==> final(self)@ == old(self)@ && r.unwrap_err() is MemoryError,
    {
        if self.live.contains_key(&ptr) {
            return Err(ExecutorError::MemoryError("Pointer is already allocated".to_owned()));
        }
        self.live.insert(ptr, len);
        Ok(())
    }

    /// The length of a live allocation; an untracked pointer is an error.
    pub fn get(&self, ptr: u32) -> (r: Result<u32, ExecutorError>)
        ensures
            r.is_ok() <==> self@.contains_key(ptr),
            r.is_ok() ==> r.unwrap() == self@[ptr],
            r.is_err() ==> r.unwrap_err() is MemoryError,
    {
        match self.live.get(&ptr) {
            Some(len) => Ok(*len),
            None => Err(ExecutorError::MemoryError("Attempted to use an untracked pointer".to_owned())),
        }
    }

    /// Removes a live allocation and returns its length; an untracked
    /// pointer is an error and changes nothing.
    pub fn remove(&mut self, ptr: u32) -> (r: Result<u32, ExecutorError>)
        ensures
            r.is_ok() <==> old(self)@.contains_key(ptr),
            r.is_ok() ==> r.unwrap() == old(self)@[ptr] && final(self)@ == old(self)@.remove(ptr),
            r.is_err() ==> final(self)@ == old(self)@ && r.unwrap_err() is MemoryError,
    {
        match self.live.remove(&ptr) {
            Some(len) => Ok(len),
            None => {
                assert(self.live@ =~= old(self).live@);
                Err(ExecutorError::MemoryError("Attempted to free an untracked pointer".to_owned()))
            },
        }
    }
}

/// Pointer-table safety: once `p` is removed, removing it again fails and so
/// does looking it up, whatever the table held before.
pub proof fn lemma_removed_pointer_is_dead(table: Map<u32, u32>, p: u32)
    requires
        table.contains_key(p),
    ensures
        !table.remove(p).contains_key(p),
        table.remove(p).remove(p) == table.remove(p),
{
    assert(table.remove(p).remove(p) =~= table.remove(p));
}

} // verus!
