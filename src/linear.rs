use vstd::prelude::*;

verus! {

/// Size of one page of guest linear memory.
pub const WASM_PAGE_SIZE: u64 = 65536;

/// Largest number of pages a 32-bit guest can address.
pub const MAX_WASM_PAGES: u32 = 65536;

/// `mem` with `data` written at offset `off`; bytes outside the written
/// range are unchanged.
pub open spec fn spliced(mem: Seq<u8>, off: int, data: Seq<u8>) -> Seq<u8> {
    Seq::new(
        mem.len(),
        |j: int|
            if off <= j < off + data.len() {
                data[j - off]
            } else {
                mem[j]
            },
    )
}

/// A guest's linear memory: a byte array made of whole pages that can grow
/// up to a page limit.
pub struct LinearMemory {
    bytes: Vec<u8>,
    max_pages: u32,
}

impl View for LinearMemory {
    type V = Seq<u8>;

    closed spec fn view(&self) -> Seq<u8> {
        self.bytes@
    }
}

impl LinearMemory {
    pub closed spec fn wf(&self) -> bool {
        &&& self.bytes@.len() as int % (WASM_PAGE_SIZE as int) == 0
        &&& self.bytes@.len() <= self.max_pages * WASM_PAGE_SIZE
        &&& self.max_pages <= MAX_WASM_PAGES
        &&& self.max_pages * WASM_PAGE_SIZE <= usize::MAX
    }

    pub closed spec fn page_limit(&self) -> u32 {
        self.max_pages
    }

    pub closed spec fn pages(&self) -> int {
        self.bytes@.len() as int / (WASM_PAGE_SIZE as int)
    }

    /// A memory of `initial_pages` pages that may grow to `max_pages`; `None`
    /// when the initial size exceeds the limit, or the limit exceeds what a
    /// 32-bit guest can address or what the host can hold.
    pub fn new(initial_pages: u32, max_pages: u32) -> (r: Option<Self>)
        ensures
            r.is_some() <==> initial_pages <= max_pages && max_pages <= MAX_WASM_PAGES
                && max_pages * WASM_PAGE_SIZE <= usize::MAX,
            r.is_some() ==> {
                let m = r.unwrap();
                &&& m.wf()
                &&& m@.len() == initial_pages * WASM_PAGE_SIZE
                &&& m.page_limit() == max_pages
            },
    {
        if initial_pages > max_pages || max_pages > MAX_WASM_PAGES {
            return None;
        }
        if max_pages as u64 * WASM_PAGE_SIZE > usize::MAX as u64 {
            return None;
        }
        let len = initial_pages as u64 * WASM_PAGE_SIZE;
        proof {
            assert(initial_pages * WASM_PAGE_SIZE <= max_pages * WASM_PAGE_SIZE) by (nonlinear_arith)
                requires initial_pages <= max_pages;
            assert((initial_pages * WASM_PAGE_SIZE) % (WASM_PAGE_SIZE as int) == 0) by (nonlinear_arith);
        }
        let bytes: Vec<u8> = vec![0u8; len as usize];
        Some(LinearMemory { bytes, max_pages })
    }

    /// Current size in bytes.
    pub fn data_size(&self) -> (r: u64)
        requires
            self.wf(),
        ensures
            r == self@.len(),
    {
        self.bytes.len() as u64
    }

    /// Current size in pages.
    pub fn size(&self) -> (r: u64)
        requires
            self.wf(),
        ensures
            r == self.pages(),
            r * WASM_PAGE_SIZE == self@.len(),
            r <= self.page_limit(),
    {
        proof {
            let l = self.bytes@.len() as int;
            assert(l / (WASM_PAGE_SIZE as int) * WASM_PAGE_SIZE == l) by (nonlinear_arith)
                requires l % (WASM_PAGE_SIZE as int) == 0;
            assert(l / (WASM_PAGE_SIZE as int) <= self.max_pages) by (nonlinear_arith)
                requires l <= self.max_pages * WASM_PAGE_SIZE, l >= 0;
        }
        self.bytes.len() as u64 / WASM_PAGE_SIZE
    }

    /// Grows by `delta` pages of zeroes, returning the previous size in pages;
    /// `None`, with nothing changed, when that would pass the page limit.
    pub fn grow(&mut self, delta: u64) -> (r: Option<u64>)
        requires
            old(self).wf(),
        ensures
            final(self).wf(),
            final(self).page_limit() == old(self).page_limit(),
            r.is_some() <==> old(self).pages() + delta <= old(self).page_limit(),
            r.is_some() ==> {
                &&& r.unwrap() == old(self).pages()
                &&& final(self)@.len() == old(self)@.len() + delta * WASM_PAGE_SIZE
                &&& final(self)@.subrange(0, old(self)@.len() as int) == old(self)@
            },
            r.is_none() ==> final(self)@ == old(self)@,
    {
        let pages = self.size();
        if delta > self.max_pages as u64 - pages {
            return None;
        }
        let new_len = (pages + delta) * WASM_PAGE_SIZE;
        proof {
            let p = (pages + delta) as int;
            assert(p <= MAX_WASM_PAGES);
            assert(p * WASM_PAGE_SIZE <= MAX_WASM_PAGES * WASM_PAGE_SIZE) by (nonlinear_arith)
                requires p <= MAX_WASM_PAGES;
            assert((p * WASM_PAGE_SIZE) % (WASM_PAGE_SIZE as int) == 0) by (nonlinear_arith);
            assert(p * WASM_PAGE_SIZE <= self.max_pages * WASM_PAGE_SIZE) by (nonlinear_arith)
                requires p <= self.max_pages;
            assert(p * WASM_PAGE_SIZE == self.bytes@.len() + delta * WASM_PAGE_SIZE) by (nonlinear_arith)
                requires pages * WASM_PAGE_SIZE == self.bytes@.len(), p == pages + delta;
        }
        self.bytes.resize(new_len as usize, 0u8);
        Some(pages)
    }

    /// The `len` bytes at `offset`, or `None` when they are not all inside the
    /// memory.
    pub fn read(&self, offset: u64, len: u64) -> (r: Option<Vec<u8>>)
        requires
            self.wf(),
        ensures
            r.is_some() <==> offset + len <= self@.len(),
            r.is_some() ==> r.unwrap()@ == self@.subrange(offset as int, offset + len),
    {
        if offset > self.bytes.len() as u64 || len > self.bytes.len() as u64 - offset {
            return None;
        }
        let start = offset as usize;
        let end = (offset + len) as usize;
        let mut out: Vec<u8> = Vec::with_capacity(len as usize);
        let mut i: usize = start;
        while i < end
            invariant
                start <= i <= end,
                end <= self.bytes@.len(),
                out@ == self.bytes@.subrange(start as int, i as int),
            decreases end - i,
        {
            out.push(self.bytes[i]);
            i = i + 1;
            assert(out@ =~= self.bytes@.subrange(start as int, i as int));
        }
        Some(out)
    }

    /// Writes `data` at `offset`; fails, with nothing written, when the range
    /// is not all inside the memory.
    pub fn write(&mut self, offset: u64, data: &[u8]) -> (r: bool)
        requires
            old(self).wf(),
        ensures
            final(self).wf(),
            final(self).page_limit() == old(self).page_limit(),
            r <==> offset + data@.len() <= old(self)@.len(),
            r ==> final(self)@ == spliced(old(self)@, offset as int, data@),
            !r ==> final(self)@ == old(self)@,
    {
        if offset > self.bytes.len() as u64 || data.len() as u64 > self.bytes.len() as u64 - offset {
            return false;
        }
        let start = offset as usize;
        let mut i: usize = 0;
        let total = self.bytes.len();
        while i < data.len()
            invariant
                total == self.bytes@.len(),
                start + data@.len() <= self.bytes@.len(),
                i <= data@.len(),
                self.bytes@.len() == old(self).bytes@.len(),
                self.max_pages == old(self).max_pages,
                self.bytes@ == spliced(old(self).bytes@, start as int, data@.subrange(0, i as int)),
            decreases data@.len() - i,
        {
            self.bytes.set(start + i, data[i]);
            i = i + 1;
            assert(self.bytes@ =~= spliced(
                old(self).bytes@,
                start as int,
                data@.subrange(0, i as int),
            ));
        }
        assert(data@.subrange(0, data@.len() as int) =~= data@);
        true
    }
}

} // verus!
