use crate::error::ExecutorError;
use crate::linear::{spliced, LinearMemory};
use vstd::prelude::*;

verus! {

/// Width of the length prefix in front of every region.
pub const REGION_PREFIX_LEN: u64 = 4;

/// A view into linear memory: `length` bytes stored at `pointer + 4`, after a
/// 4-byte little-endian length prefix at `pointer`.
#[derive(Debug, Clone, Copy, PartialEq, Eq)]
pub struct Region {
    pub pointer: u32,
    pub length: u32,
}

/// The four little-endian bytes of `v`.
pub open spec fn le_bytes(v: u32) -> Seq<u8> {
    seq![
        (v % 256) as u8,
        ((v / 256) % 256) as u8,
        ((v / 65536) % 256) as u8,
        (v / 16777216) as u8,
    ]
}

/// The number that four little-endian bytes stand for.
pub open spec fn le_value(s: Seq<u8>) -> int {
    s[0] + 256 * s[1] + 65536 * s[2] + 16777216 * s[3]
}

/// The wire form of a buffer: its length prefix, then its bytes.
pub open spec fn region_wire(data: Seq<u8>) -> Seq<u8> {
    le_bytes(data.len() as u32) + data
}

/// What decoding the region at `ptr` yields: its bytes, or `None` when the
/// prefix or the data lies outside memory, or the prefix exceeds `max_length`.
pub open spec fn decoded(mem: Seq<u8>, ptr: int, max_length: int) -> Option<Seq<u8>> {
    if ptr + 4 > mem.len() {
        None
    } else {
        let len = le_value(mem.subrange(ptr, ptr + 4));
        if len > max_length || ptr + 4 + len > mem.len() {
            None
        } else {
            Some(mem.subrange(ptr + 4, ptr + 4 + len))
        }
    }
}

pub proof fn lemma_le_round_trip(v: u32)
    ensures
        le_value(le_bytes(v)) == v,
        le_bytes(v).len() == 4,
{
    let b0 = v % 256;
    let b1 = (v / 256) % 256;
    let b2 = (v / 65536) % 256;
    let b3 = v / 16777216;
    assert(b3 < 256);
    assert(b0 + 256 * b1 + 65536 * b2 + 16777216 * b3 == v);
}

/// The little-endian bytes of `v`.
pub fn encode_length(v: u32) -> (r: [u8; 4])
    ensures
        r@ == le_bytes(v),
{
    let r = [(v % 256) as u8, ((v / 256) % 256) as u8, ((v / 65536) % 256) as u8, (v / 16777216) as u8];
    assert(r@ =~= le_bytes(v));
    r
}

/// The number four little-endian bytes stand for.
pub fn decode_length(b: &[u8]) -> (r: u32)
    requires
        b@.len() == 4,
    ensures
        r == le_value(b@),
{
    b[0] as u32 + 256 * (b[1] as u32) + 65536 * (b[2] as u32) + 16777216 * (b[3] as u32)
}

/// Writes `data` as a region at `ptr`: its length prefix, then its bytes.
/// Fails with `MemoryAccessError`, writing nothing, when the region would not
/// fit inside memory.
pub fn write_region(mem: &mut LinearMemory, ptr: u32, data: &[u8]) -> (r: Result<(), ExecutorError>)
    requires
        old(mem).wf(),
        data@.len() <= u32::MAX,
    ensures
        final(mem).wf(),
        final(mem).page_limit() == old(mem).page_limit(),
        r.is_ok() <==> ptr + 4 + data@.len() <= old(mem)@.len(),
        r.is_ok() ==> final(mem)@ == spliced(old(mem)@, ptr as int, region_wire(data@)),
        r.is_err() ==> final(mem)@ == old(mem)@ && r.unwrap_err() is MemoryAccessError,
{
    let size = mem.data_size();
    if ptr as u64 + REGION_PREFIX_LEN + data.len() as u64 > size {
        return Err(ExecutorError::MemoryAccessError("Region does not fit in memory".to_owned()));
    }
    let prefix = encode_length(data.len() as u32);
    let ghost m0 = mem@;
    let ok1 = mem.write(ptr as u64, prefix.as_slice());
    let ok2 = mem.write(ptr as u64 + REGION_PREFIX_LEN, data);
    proof {
        assert(ok1 && ok2);
        assert(mem@ =~= spliced(m0, ptr as int, region_wire(data@)));
    }
    Ok(())
}

/// Reads the region at `ptr`: validates that the prefix lies inside memory,
/// that the length it gives is at most `max_length`, and that the data lies
/// inside memory, before copying exactly that many bytes.
pub fn read_region(mem: &LinearMemory, ptr: u32, max_length: u64) -> (r: Result<Vec<u8>, ExecutorError>)
    requires
        mem.wf(),
    ensures
        r.is_ok() <==> decoded(mem@, ptr as int, max_length as int).is_some(),
        r.is_ok() ==> r.unwrap()@ == decoded(mem@, ptr as int, max_length as int).unwrap(),
        r.is_err() ==> r.unwrap_err() is MemoryAccessError,
{
    let prefix = match mem.read(ptr as u64, REGION_PREFIX_LEN) {
        Some(p) => p,
        None => {
            return Err(ExecutorError::MemoryAccessError("Cannot read length prefix".to_owned()));
        },
    };
    let len = decode_length(prefix.as_slice());
    if len as u64 > max_length {
        return Err(ExecutorError::MemoryAccessError("Length exceeds maximum".to_owned()));
    }
    match mem.read(ptr as u64 + REGION_PREFIX_LEN, len as u64) {
        Some(data) => Ok(data),
        None => Err(ExecutorError::MemoryAccessError("Cannot read data".to_owned())),
    }
}

/// Round trip of the wire format: a buffer written as a region at `ptr` is
/// what decoding the region at `ptr` gives back, for every buffer whose length
/// is between one and the decoder's maximum.
pub proof fn lemma_region_round_trip(mem: Seq<u8>, ptr: int, data: Seq<u8>, max_length: int)
    requires
        0 < data.len() <= max_length,
        data.len() <= u32::MAX,
        0 <= ptr,
        ptr + 4 + data.len() <= mem.len(),
    ensures
        decoded(spliced(mem, ptr, region_wire(data)), ptr, max_length) == Some(data),
{
    lemma_decode_written(mem, ptr, data, max_length);
}

/// A region written at `ptr` decodes to its data under any limit it fits,
/// the empty buffer included.
pub proof fn lemma_decode_written(mem: Seq<u8>, ptr: int, data: Seq<u8>, max_length: int)
    requires
        data.len() <= max_length,
        data.len() <= u32::MAX,
        0 <= ptr,
        ptr + 4 + data.len() <= mem.len(),
    ensures
        decoded(spliced(mem, ptr, region_wire(data)), ptr, max_length) == Some(data),
{
    let w = spliced(mem, ptr, region_wire(data));
    lemma_le_round_trip(data.len() as u32);
    assert(w.subrange(ptr, ptr + 4) =~= le_bytes(data.len() as u32));
    assert(w.subrange(ptr + 4, ptr + 4 + data.len()) =~= data);
}

/// A region keeps decoding to the same bytes in a memory that is no
/// smaller and agrees with the old one on the region's prefix and data; so a
/// region written earlier survives a later write elsewhere.
pub proof fn lemma_decoded_stable(m1: Seq<u8>, m2: Seq<u8>, ptr: int, max_length: int)
    requires
        decoded(m1, ptr, max_length) is Some,
        m2.len() >= m1.len(),
        0 <= ptr,
        forall|j: int|
            ptr <= j < ptr + 4 + decoded(m1, ptr, max_length).unwrap().len() ==> #[trigger] m2[j] == m1[j],
    ensures
        decoded(m2, ptr, max_length) == decoded(m1, ptr, max_length),
{
    let d = decoded(m1, ptr, max_length).unwrap();
    assert(m2.subrange(ptr, ptr + 4) =~= m1.subrange(ptr, ptr + 4));
    assert(m2.subrange(ptr + 4, ptr + 4 + d.len()) =~= m1.subrange(ptr + 4, ptr + 4 + d.len()));
}

/// The items of a list framed as length-prefixed entries one after
/// another, or `None` when the framing is broken.
pub open spec fn framed_items(s: Seq<u8>) -> Option<Seq<Seq<u8>>>
    decreases s.len(),
{
    if s.len() == 0 {
        Some(Seq::empty())
    } else if s.len() < 4 {
        None
    } else {
        let n = le_value(s.subrange(0, 4));
        if n < 0 || 4 + n > s.len() {
            None
        } else {
            match framed_items(s.subrange(4 + n, s.len() as int)) {
                Some(rest) => Some(seq![s.subrange(4, 4 + n)] + rest),
                None => None,
            }
        }
    }
}

/// Splits a framed list into its items.
pub fn split_framed(s: &[u8]) -> (r: Option<Vec<Vec<u8>>>)
    ensures
        match framed_items(s@) {
            Some(items) => r is Some && r.unwrap()@.len() == items.len() && forall|k: int|
                0 <= k < items.len() ==> #[trigger] r.unwrap()@[k]@ == items[k],
            None => r is None,
        },
{
    let mut out: Vec<Vec<u8>> = Vec::new();
    let mut i: usize = 0;
    let ghost mut got: Seq<Seq<u8>> = Seq::empty();
    proof {
        assert(s@.subrange(0, s@.len() as int) =~= s@);
        match framed_items(s@) {
            Some(rest) => {
                assert(got + rest =~= rest);
            },
            None => {},
        }
    }
    while i < s.len()
        invariant
            i <= s@.len(),
            out@.len() == got.len(),
            forall|k: int| 0 <= k < got.len() ==> #[trigger] out@[k]@ == got[k],
            framed_items(s@) == match framed_items(s@.subrange(i as int, s@.len() as int)) {
                Some(rest) => Some(got + rest),
                None => None::<Seq<Seq<u8>>>,
            },
        decreases s@.len() - i,
    {
        let ghost t = s@.subrange(i as int, s@.len() as int);
        if s.len() - i < 4 {
            assert(framed_items(t) is None);
            return None;
        }
        let n = decode_length(&s[i..i + 4]);
        assert(s@.subrange(i as int, i + 4) =~= t.subrange(0, 4));
        if n as usize > s.len() - i - 4 {
            assert(framed_items(t) is None);
            return None;
        }
        let start = i + 4;
        let end = start + n as usize;
        let mut item: Vec<u8> = Vec::new();
        let mut j: usize = start;
        while j < end
            invariant
                start <= j <= end,
                end <= s@.len(),
                item@ == s@.subrange(start as int, j as int),
            decreases end - j,
        {
            item.push(s[j]);
            j = j + 1;
            assert(item@ =~= s@.subrange(start as int, j as int));
        }
        proof {
            assert(t.subrange(4, 4 + n) =~= item@);
            assert(t.subrange(4 + n, t.len() as int) =~= s@.subrange(end as int, s@.len() as int));
            let old_got = got;
            got = got.push(item@);
            match framed_items(s@.subrange(end as int, s@.len() as int)) {
                Some(rest) => {
                    assert(old_got + (seq![item@] + rest) =~= got + rest);
                },
                None => {},
            }
        }
        out.push(item);
        i = end;
    }
    proof {
        assert(s@.subrange(i as int, s@.len() as int) =~= Seq::<u8>::empty());
        assert(got + Seq::<Seq<u8>>::empty() =~= got);
    }
    Some(out)
}

} // verus!
