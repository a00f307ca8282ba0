use crate::allocations::PointerTable;
use crate::error::ExecutorError;
use crate::linear::{spliced, LinearMemory, WASM_PAGE_SIZE};
use crate::region::{decoded, lemma_decode_written, read_region, write_region, Region};
use vstd::prelude::*;

verus! {

/// Offset at which the bump allocator starts handing out memory, leaving the
/// first page to the guest's own data.
pub const HEAP_BASE: u32 = 65536;

/// `x` rounded up to a multiple of eight.
pub open spec fn align8(x: int) -> int {
    (x + 7) / 8 * 8
}

/// Whether the allocation `[p, p + n)` and `[q, q + m)` share no byte.
pub open spec fn disjoint(p: int, n: int, q: int, m: int) -> bool {
    p + n <= q || q + m <= p
}

/// A handle to host-allocated guest memory: an offset into linear memory
/// whose liveness the pointer table tracks. Offset zero is the null handle.
pub struct HostPtr(u32);

impl HostPtr {
    pub closed spec fn addr(&self) -> u32 {
        self.0
    }

    #[must_use]
    pub fn is_null(&self) -> (r: bool)
        ensures
            r == (self.addr() == 0),
    {
        self.0 == 0
    }

    pub fn null() -> (r: Self)
        ensures
            r.addr() == 0,
    {
        HostPtr(0)
    }

    pub fn as_ptr(&self) -> (r: u32)
        ensures
            r == self.addr(),
    {
        self.0
    }

    pub fn from_raw(ptr: u32) -> (r: Self)
        ensures
            r.addr() == ptr,
    {
        HostPtr(ptr)
    }
}

/// A span of guest memory given by its start and length.
#[derive(Debug)]
pub struct Memory {
    ptr: u32,
    len: usize,
}

impl Memory {
    pub closed spec fn start(&self) -> u32 {
        self.ptr
    }

    pub closed spec fn length(&self) -> usize {
        self.len
    }

    pub fn from_raw_parts(ptr: u32, len: usize) -> (r: Self)
        ensures
            r.start() == ptr,
            r.length() == len,
    {
        Self { ptr, len }
    }

    pub fn as_ptr(&self) -> (r: u32)
        ensures
            r == self.start(),
    {
        self.ptr
    }

    pub fn as_mut_ptr(&mut self) -> (r: u32)
        ensures
            r == old(self).start(),
            *final(self) == *old(self),
    {
        self.ptr
    }

    pub fn len(&self) -> (r: usize)
        ensures
            r == self.length(),
    {
        self.len
    }

    pub fn is_empty(&self) -> (r: bool)
        ensures
            r == (self.length() == 0),
    {
        self.len == 0
    }
}

/// Two states of a guest memory that no observation tells apart.
pub open spec fn unchanged(a: GuestMemory, b: GuestMemory) -> bool {
    &&& a.bytes() == b.bytes()
    &&& a.mark() == b.mark()
    &&& a.live() == b.live()
    &&& a.page_limit() == b.page_limit()
}

/// A guest's linear memory together with the bump allocator that hands out
/// regions of it and the pointer table that tracks which are live.
pub struct GuestMemory {
    memory: LinearMemory,
    next_ptr: u32,
    allocations: PointerTable,
}

impl GuestMemory {
    /// The memory is well formed, the high-water mark is aligned and inside
    /// memory, and the live allocations are non-empty, lie below the mark and
    /// do not overlap.
    pub closed spec fn wf(&self) -> bool {
        &&& self.memory.wf()
        &&& self.next_ptr % 8 == 0
        &&& self.next_ptr <= self.memory@.len()
        &&& forall|p: u32|
            #[trigger] self.allocations@.contains_key(p) ==> self.allocations@[p] > 0 && p
                + self.allocations@[p] <= self.next_ptr
        &&& forall|p: u32, q: u32|
            #[trigger] self.allocations@.contains_key(p) && #[trigger] self.allocations@.contains_key(q)
                && p != q ==> disjoint(
                p as int,
                self.allocations@[p] as int,
                q as int,
                self.allocations@[q] as int,
            )
    }

    /// Contents of linear memory.
    pub closed spec fn bytes(&self) -> Seq<u8> {
        self.memory@
    }

    /// The high-water mark: where the next allocation starts.
    pub closed spec fn mark(&self) -> u32 {
        self.next_ptr
    }

    /// Live allocations, pointer to length.
    pub closed spec fn live(&self) -> Map<u32, u32> {
        self.allocations@
    }

    /// The page limit of the underlying memory.
    pub closed spec fn page_limit(&self) -> u32 {
        self.memory.page_limit()
    }

    /// A fresh allocator over `memory`, starting at `heap_base`; `None` when
    /// the base is not 8-aligned or lies outside memory.
    pub fn new(memory: LinearMemory, heap_base: u32) -> (r: Option<Self>)
        requires
            memory.wf(),
        ensures
            r.is_some() <==> heap_base % 8 == 0 && heap_base <= memory@.len(),
            r.is_some() ==> {
                let g = r.unwrap();
                &&& g.wf()
                &&& g.bytes() == memory@
                &&& g.mark() == heap_base
                &&& g.live() == Map::<u32, u32>::empty()
                &&& g.page_limit() == memory.page_limit()
            },
    {
        if heap_base % 8 != 0 || heap_base as u64 > memory.data_size() {
            return None;
        }
        Some(GuestMemory { memory, next_ptr: heap_base, allocations: PointerTable::new() })
    }

    /// Bump allocation: the region starts at the high-water mark, the mark
    /// moves past it to the next multiple of eight, and memory grows by the
    /// fewest pages that cover the new mark. A size of zero is refused, as is
    /// a mark past the 32-bit address space or past the page limit; a refusal
    /// changes nothing.
    pub fn allocate(&mut self, size: u32) -> (r: Result<u32, ExecutorError>)
        requires
            old(self).wf(),
        ensures
            final(self).wf(),
            final(self).page_limit() == old(self).page_limit(),
            size == 0 ==> r.is_err(),
            r.is_ok() <==> size > 0 && align8(old(self).mark() + size) <= u32::MAX && align8(
                old(self).mark() + size,
            ) <= old(self).page_limit() * WASM_PAGE_SIZE,
            r.is_ok() ==> {
                let p = r.unwrap();
                &&& p == old(self).mark()
                &&& final(self).mark() == align8(p + size)
                &&& final(self).live() == old(self).live().insert(p, size)
                &&& p + size <= final(self).bytes().len()
                &&& final(self).bytes().len() >= old(self).bytes().len()
                &&& forall|j: int|
                    0 <= j < old(self).bytes().len() && !(p <= j < p + size) ==> #[trigger] final(self).bytes()[j] == old(self).bytes()[j]
                &&& forall|j: int| p <= j < p + size ==> #[trigger] final(self).bytes()[j] == 0
            },
            r.is_err() ==> unchanged(*final(self), *old(self)) && r.unwrap_err() is MemoryError,
    {
        if size == 0 {
            return Err(ExecutorError::MemoryError("cannot allocate 0 sized data".to_owned()));
        }
        let ptr = self.next_ptr;
        let end = ptr as u64 + size as u64;
        let mark = (end + 7) / 8 * 8;
        if mark > u32::MAX as u64 {
            return Err(ExecutorError::MemoryError("Memory size overflow".to_owned()));
        }
        let have = self.memory.data_size();
        let limit = self.memory.size();
        proof {
            assert(self.memory.page_limit() == old(self).page_limit());
        }
        if mark > have {
            let needed = (mark - have + WASM_PAGE_SIZE - 1) / WASM_PAGE_SIZE;
            proof {
                let lim = self.memory.page_limit() as int;
                let pg = limit as int;
                let nd = needed as int;
                let mk = mark as int;
                assert(pg * 65536 == have);
                assert((pg + nd) * 65536 >= mk) by (nonlinear_arith)
                    requires nd == (mk - pg * 65536 + 65536 - 1) / 65536;
                assert((pg + nd) * 65536 < mk + 65536) by (nonlinear_arith)
                    requires nd == (mk - pg * 65536 + 65536 - 1) / 65536,
                        mk > pg * 65536;
                assert(pg + nd <= lim <==> mk <= lim * 65536) by (nonlinear_arith)
                    requires (pg + nd) * 65536 >= mk,
                        (pg + nd) * 65536 < mk + 65536;
            }
            if self.memory.grow(needed).is_none() {
                return Err(ExecutorError::MemoryError("Out of memory".to_owned()));
            }
        } else {
            proof {
                assert(mark <= self.memory.page_limit() * WASM_PAGE_SIZE);
            }
        }
        let ghost grown = self.memory@;
        let zeros: Vec<u8> = vec![0u8; size as usize];
        let zeroed = self.memory.write(ptr as u64, zeros.as_slice());
        proof {
            assert(zeroed);
            assert forall|j: int| ptr <= j < ptr + size implies #[trigger] self.memory@[j] == 0 by {
                assert(zeros@[j - ptr] == 0);
            }
        }
        let ins = self.allocations.insert(ptr, size);
        proof {
            assert(!old(self).allocations@.contains_key(ptr)) by {
                if old(self).allocations@.contains_key(ptr) {
                    assert(old(self).allocations@[ptr] > 0);
                }
            }
            assert(ins.is_ok());
        }
        self.next_ptr = mark as u32;
        proof {
            let t = self.allocations@;
            assert forall|p: u32, q: u32|
                #[trigger] t.contains_key(p) && #[trigger] t.contains_key(q) && p != q implies disjoint(
                p as int,
                t[p] as int,
                q as int,
                t[q] as int,
            ) by {
                if p != ptr && q != ptr {
                    assert(old(self).allocations@.contains_key(p));
                    assert(old(self).allocations@.contains_key(q));
                } else if p == ptr {
                    assert(old(self).allocations@.contains_key(q));
                } else {
                    assert(old(self).allocations@.contains_key(p));
                }
            }
            assert forall|p: u32| #[trigger] t.contains_key(p) implies t[p] > 0 && p + t[p]
                <= self.next_ptr by {
                if p != ptr {
                    assert(old(self).allocations@.contains_key(p));
                }
            }
        }
        Ok(ptr)
    }

    /// Frees a live allocation. The space is not reused: the allocator only
    /// bumps, and the table is what catches a second free or a stale use.
    pub fn deallocate(&mut self, ptr: u32) -> (r: Result<(), ExecutorError>)
        requires
            old(self).wf(),
        ensures
            final(self).wf(),
            final(self).page_limit() == old(self).page_limit(),
            r.is_ok() <==> old(self).live().contains_key(ptr),
            r.is_ok() ==> final(self).live() == old(self).live().remove(ptr),
            final(self).bytes() == old(self).bytes(),
            final(self).mark() == old(self).mark(),
            r.is_err() ==> unchanged(*final(self), *old(self)) && r.unwrap_err() is MemoryError,
    {
        match self.allocations.remove(ptr) {
            Ok(_) => Ok(()),
            Err(e) => {
                proof {
                    assert(unchanged(*self, *old(self)));
                }
                Err(e)
            },
        }
    }

    /// Allocates `len` bytes and hands out a tracked handle to them.
    pub fn allocate_ptr(&mut self, len: u32) -> (r: Result<HostPtr, ExecutorError>)
        requires
            old(self).wf(),
        ensures
            final(self).wf(),
            final(self).page_limit() == old(self).page_limit(),
            len == 0 ==> r.is_err(),
            r.is_ok() ==> final(self).live() == old(self).live().insert(r.unwrap().addr(), len)
                && r.unwrap().addr() == old(self).mark(),
            r.is_err() ==> unchanged(*final(self), *old(self)),
    {
        let ptr = self.allocate(len)?;
        Ok(HostPtr(ptr))
    }

    /// The bytes a live handle points to; an untracked handle is an error.
    pub fn deref(&self, ptr: &HostPtr) -> (r: Result<Vec<u8>, ExecutorError>)
        requires
            self.wf(),
        ensures
            r.is_ok() <==> self.live().contains_key(ptr.addr()),
            r.is_ok() ==> r.unwrap()@ == self.bytes().subrange(
                ptr.addr() as int,
                ptr.addr() + self.live()[ptr.addr()],
            ),
            r.is_err() ==> r.unwrap_err() is MemoryError,
    {
        let len = self.allocations.get(ptr.0)?;
        match self.memory.read(ptr.0 as u64, len as u64) {
            Some(v) => Ok(v),
            None => Err(ExecutorError::MemoryError("Allocation lies outside memory".to_owned())),
        }
    }

    /// Takes the bytes out of a live handle, which stops being live; an
    /// untracked handle is an error.
    pub fn into_vec(&mut self, ptr: HostPtr) -> (r: Result<Vec<u8>, ExecutorError>)
        requires
            old(self).wf(),
        ensures
            final(self).wf(),
            final(self).page_limit() == old(self).page_limit(),
            r.is_ok() <==> old(self).live().contains_key(ptr.addr()),
            r.is_ok() ==> r.unwrap()@ == old(self).bytes().subrange(
                ptr.addr() as int,
                ptr.addr() + old(self).live()[ptr.addr()],
            ) && final(self).live() == old(self).live().remove(ptr.addr()),
            final(self).bytes() == old(self).bytes(),
            r.is_err() ==> unchanged(*final(self), *old(self)) && r.unwrap_err() is MemoryError,
    {
        let data = self.deref(&ptr)?;
        let _ = self.deallocate(ptr.0);
        Ok(data)
    }

    /// Releases a handle: it must be null or live.
    pub fn release(&mut self, ptr: HostPtr) -> (r: Result<(), ExecutorError>)
        requires
            old(self).wf(),
        ensures
            final(self).wf(),
            final(self).page_limit() == old(self).page_limit(),
            r.is_ok() <==> ptr.addr() == 0 || old(self).live().contains_key(ptr.addr()),
            ptr.addr() != 0 && r.is_ok() ==> final(self).live() == old(self).live().remove(
                ptr.addr(),
            ),
            ptr.addr() == 0 || r.is_err() ==> unchanged(*final(self), *old(self)),
            final(self).bytes() == old(self).bytes(),
    {
        if ptr.is_null() {
            return Ok(());
        }
        self.deallocate(ptr.0)
    }

    /// Writes `data` at `offset`, which must lie with all of `data` inside
    /// memory.
    pub fn write_bytes(&mut self, offset: u32, data: &[u8]) -> (r: Result<(), ExecutorError>)
        requires
            old(self).wf(),
        ensures
            final(self).wf(),
            final(self).page_limit() == old(self).page_limit(),
            final(self).mark() == old(self).mark(),
            final(self).live() == old(self).live(),
            r.is_ok() <==> offset + data@.len() <= old(self).bytes().len(),
            r.is_ok() ==> final(self).bytes() == spliced(old(self).bytes(), offset as int, data@),
            r.is_err() ==> unchanged(*final(self), *old(self)) && r.unwrap_err() is MemoryAccessError,
    {
        if self.memory.write(offset as u64, data) {
            Ok(())
        } else {
            proof {
                assert(self.memory@ == old(self).memory@);
            }
            Err(ExecutorError::MemoryAccessError("Write outside memory".to_owned()))
        }
    }

    /// The `len` bytes at `offset`, which must lie inside memory.
    pub fn read_bytes(&self, offset: u32, len: u32) -> (r: Result<Vec<u8>, ExecutorError>)
        requires
            self.wf(),
        ensures
            r.is_ok() <==> offset + len <= self.bytes().len(),
            r.is_ok() ==> r.unwrap()@ == self.bytes().subrange(offset as int, offset + len),
            r.is_err() ==> r.unwrap_err() is MemoryAccessError,
    {
        match self.memory.read(offset as u64, len as u64) {
            Some(v) => Ok(v),
            None => Err(ExecutorError::MemoryAccessError("Read outside memory".to_owned())),
        }
    }

    /// Encodes `data` as a region at a freshly allocated location: four bytes
    /// of length prefix, then the bytes themselves.
    pub fn encode(&mut self, data: &[u8]) -> (r: Result<Region, ExecutorError>)
        requires
            old(self).wf(),
        ensures
            final(self).wf(),
            final(self).page_limit() == old(self).page_limit(),
            r.is_ok() <==> data@.len() + 4 <= u32::MAX && align8(old(self).mark() + data@.len() + 4)
                <= u32::MAX && align8(old(self).mark() + data@.len() + 4) <= old(self).page_limit()
                * WASM_PAGE_SIZE,
            r.is_ok() ==> {
                let reg = r.unwrap();
                let grown = final(self).bytes().len();
                &&& reg.pointer == old(self).mark()
                &&& reg.length == data@.len()
                &&& reg.pointer + 4 + data@.len() <= grown
                &&& final(self).live() == old(self).live().insert(reg.pointer, (data@.len() + 4) as u32)
                &&& forall|max_length: int|
                    data@.len() <= max_length ==> #[trigger] decoded(
                        final(self).bytes(),
                        reg.pointer as int,
                        max_length,
                    ) == Some(data@)
                &&& grown >= old(self).bytes().len()
                &&& final(self).mark() == align8(reg.pointer + data@.len() + 4)
                &&& forall|j: int|
                    0 <= j < old(self).bytes().len() && !(reg.pointer <= j < reg.pointer + 4 + data@.len())
                        ==> #[trigger] final(self).bytes()[j] == old(self).bytes()[j]
            },
            r.is_err() ==> unchanged(*final(self), *old(self)),
    {
        if data.len() as u64 > u32::MAX as u64 - 4 {
            return Err(ExecutorError::MemoryError("Buffer too large for a region".to_owned()));
        }
        let len = data.len() as u32;
        let ptr = self.allocate(len + 4)?;
        let ghost grown = self.memory@;
        let w = write_region(&mut self.memory, ptr, data);
        proof {
            assert(w.is_ok());
            assert forall|max_length: int| data@.len() <= max_length implies #[trigger] decoded(
                self.memory@,
                ptr as int,
                max_length,
            ) == Some(data@) by {
                lemma_decode_written(grown, ptr as int, data@, max_length);
            }
        }
        Ok(Region { pointer: ptr, length: len })
    }

    /// Decodes the region at `ptr`, refusing a length prefix over
    /// `max_length` and any range outside memory.
    pub fn decode(&self, ptr: u32, max_length: u64) -> (r: Result<Vec<u8>, ExecutorError>)
        requires
            self.wf(),
        ensures
            r.is_ok() <==> decoded(self.bytes(), ptr as int, max_length as int).is_some(),
            r.is_ok() ==> r.unwrap()@ == decoded(self.bytes(), ptr as int, max_length as int).unwrap(),
            r.is_err() ==> r.unwrap_err() is MemoryAccessError,
    {
        read_region(&self.memory, ptr, max_length)
    }
}

impl GuestMemory {
    /// Current size of linear memory in bytes.
    pub fn size_bytes(&self) -> (r: u64)
        requires
            self.wf(),
        ensures
            r == self.bytes().len(),
    {
        self.memory.data_size()
    }

    /// Copies `data` over the start of memory, first growing memory by the
    /// fewest pages that hold it. Allocations are untouched; a memory that
    /// cannot grow enough is an error and changes nothing.
    pub fn load(&mut self, data: &[u8]) -> (r: Result<(), ExecutorError>)
        requires
            old(self).wf(),
        ensures
            final(self).wf(),
            final(self).page_limit() == old(self).page_limit(),
            final(self).mark() == old(self).mark(),
            final(self).live() == old(self).live(),
            data@.len() <= old(self).bytes().len() ==> r.is_ok(),
            r.is_ok() ==> final(self).bytes().len() >= data@.len() && final(self).bytes().subrange(
                0,
                data@.len() as int,
            ) == data@,
            r.is_err() ==> unchanged(*final(self), *old(self)),
    {
        let have = self.memory.data_size();
        let len = data.len() as u64;
        if len > have {
            let needed = (len - have - 1) / WASM_PAGE_SIZE + 1;
            if self.memory.grow(needed).is_none() {
                return Err(ExecutorError::MemoryError("Out of memory".to_owned()));
            }
            proof {
                let pg = have as int;
                let nd = needed as int;
                let ln = len as int;
                assert(pg + nd * 65536 >= ln) by (nonlinear_arith)
                    requires nd == (ln - pg - 1) / 65536 + 1, ln > pg;
            }
        }
        let ok = self.memory.write(0, data);
        proof {
            assert(ok);
            assert(self.memory@.subrange(0, data@.len() as int) =~= data@);
        }
        Ok(())
    }
}

/// Allocator monotonicity: two allocations made one after the other from a
/// mark do not overlap, and the second starts at or past the end of the
/// first, at a multiple of eight.
pub proof fn lemma_sequential_allocations_disjoint(mark: int, n1: int, n2: int)
    requires
        0 <= mark,
        n1 > 0,
        n2 > 0,
    ensures
        align8(mark + n1) >= mark + n1,
        align8(mark + n1) % 8 == 0,
        disjoint(mark, n1, align8(mark + n1), n2),
{
}

} // verus!
