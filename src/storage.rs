use crate::bytes::{bytes_eq, copy_bytes};
use sha2::Digest;
use std::collections::HashMap;
use vstd::prelude::*;

verus! {

/// The SHA-256 digest of `data`.
pub uninterp spec fn sha256_of(data: Seq<u8>) -> Seq<u8>;

/// Relies on sha2's `Sha256::digest`: the 32-byte SHA-256 digest of `data`.
#[verifier::external_body]
pub(crate) fn sha256_digest(data: &[u8]) -> (r: [u8; 32])
    ensures
        r@ == sha256_of(data@),
{
    sha2::Sha256::digest(data).into()
}

/// Why a code-storage operation failed.
#[derive(Debug, Clone, PartialEq, Eq)]
pub enum StorageError {
    CodeNotFound(u64),
    CodeExists(u64),
    InvalidCode(String),
    StorageError(String),
}

/// Stored contract bytecode with its id and SHA-256 checksum.
#[derive(Debug, Clone)]
pub struct ContractCode {
    pub id: u64,
    pub code: Vec<u8>,
    pub checksum: [u8; 32],
}

/// Contract bytecode by id. Ids are handed out in increasing order from one
/// and never reused.
pub struct CodeStorage {
    codes: HashMap<u64, ContractCode>,
    next_id: u64,
}

impl CodeStorage {
    /// Every stored entry sits under its own id, below the next id to hand
    /// out.
    pub closed spec fn wf(&self) -> bool {
        &&& self.next_id >= 1
        &&& forall|id: u64| #[trigger] self.codes@.contains_key(id) ==> self.codes@[id].id == id && id < self.next_id
    }

    /// Stored code by id, as the code bytes and their checksum.
    pub closed spec fn contents(&self) -> Map<u64, (Seq<u8>, Seq<u8>)> {
        self.codes@.map_values(|c: ContractCode| (c.code@, c.checksum@))
    }

    /// The id the next stored code will get.
    pub closed spec fn next(&self) -> u64 {
        self.next_id
    }

    pub fn new() -> (r: Self)
        ensures
            r.wf(),
            r.contents() == Map::<u64, (Seq<u8>, Seq<u8>)>::empty(),
            r.next() == 1,
    {
        let r = Self { codes: HashMap::new(), next_id: 1 };
        assert(r.contents() =~= Map::<u64, (Seq<u8>, Seq<u8>)>::empty());
        r
    }

    /// Stores `code` with its SHA-256 checksum under the next id, which it
    /// returns. Fails only when no id is left.
    pub fn store_code(&mut self, code: Vec<u8>) -> (r: Result<u64, StorageError>)
        requires
            old(self).wf(),
        ensures
            final(self).wf(),
            r.is_ok() <==> old(self).next() < u64::MAX,
            r.is_ok() ==> r.unwrap() == old(self).next() && final(self).next() == old(self).next() + 1
                && final(self).contents() == old(self).contents().insert(
                r.unwrap(),
                (code@, sha256_of(code@)),
            ),
            r.is_err() ==> final(self).contents() == old(self).contents() && final(self).next()
                == old(self).next(),
    {
        if self.next_id == u64::MAX {
            return Err(StorageError::StorageError("No code id left".to_owned()));
        }
        let checksum = sha256_digest(code.as_slice());
        let id = self.next_id;
        self.next_id = id + 1;
        let ghost stored = (code@, checksum@);
        self.codes.insert(id, ContractCode { id, code, checksum });
        proof {
            assert(!old(self).codes@.contains_key(id));
            assert(self.contents() =~= old(self).contents().insert(id, stored));
        }
        Ok(id)
    }

    /// The code stored under `id`.
    pub fn get_code(&self, id: u64) -> (r: Result<Vec<u8>, StorageError>)
        requires
            self.wf(),
        ensures
            r.is_ok() <==> self.contents().contains_key(id),
            r.is_ok() ==> r.unwrap()@ == self.contents()[id].0,
            r.is_err() ==> r == Err::<Vec<u8>, StorageError>(StorageError::CodeNotFound(id)),
    {
        match self.codes.get(&id) {
            Some(c) => Ok(copy_bytes(c.code.as_slice())),
            None => Err(StorageError::CodeNotFound(id)),
        }
    }

    /// Removes the code stored under `id`.
    pub fn remove_code(&mut self, id: u64) -> (r: Result<(), StorageError>)
        requires
            old(self).wf(),
        ensures
            final(self).wf(),
            r.is_ok() <==> old(self).contents().contains_key(id),
            final(self).contents() == old(self).contents().remove(id),
            final(self).next() == old(self).next(),
            r.is_err() ==> r == Err::<(), StorageError>(StorageError::CodeNotFound(id)),
    {
        let removed = self.codes.remove(&id);
        assert(self.contents() =~= old(self).contents().remove(id));
        match removed {
            Some(_) => Ok(()),
            None => Err(StorageError::CodeNotFound(id)),
        }
    }

    /// Whether the code stored under `id` has checksum `checksum`.
    pub fn verify_code(&self, id: u64, checksum: &[u8; 32]) -> (r: Result<bool, StorageError>)
        requires
            self.wf(),
        ensures
            r.is_ok() <==> self.contents().contains_key(id),
            r.is_ok() ==> r.unwrap() == (self.contents()[id].1 == checksum@),
            r.is_err() ==> r == Err::<bool, StorageError>(StorageError::CodeNotFound(id)),
    {
        match self.codes.get(&id) {
            Some(c) => Ok(bytes_eq(c.checksum.as_slice(), checksum.as_slice())),
            None => Err(StorageError::CodeNotFound(id)),
        }
    }
}

} // verus!
