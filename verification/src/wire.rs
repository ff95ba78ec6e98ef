//! Little-endian fields in byte buffers.

use vstd::prelude::*;
use vstd::bytes::{spec_u32_from_le_bytes, spec_u32_to_le_bytes, spec_u64_from_le_bytes, spec_u64_to_le_bytes};

verus! {

/// The `u32` stored little-endian at `off`.
pub open spec fn u32_at(data: Seq<u8>, off: int) -> u32 {
    spec_u32_from_le_bytes(data.subrange(off, off + 4))
}

/// The `u64` stored little-endian at `off`.
pub open spec fn u64_at(data: Seq<u8>, off: int) -> u64 {
    spec_u64_from_le_bytes(data.subrange(off, off + 8))
}

pub open spec fn le32(x: u32) -> Seq<u8> {
    spec_u32_to_le_bytes(x)
}

pub open spec fn le64(x: u64) -> Seq<u8> {
    spec_u64_to_le_bytes(x)
}

/// Reading back a written field gives the written value.
pub proof fn lemma_le_round_trip()
    ensures
        forall|x: u32| #[trigger] le32(x).len() == 4 && spec_u32_from_le_bytes(le32(x)) == x,
        forall|x: u64| #[trigger] le64(x).len() == 8 && spec_u64_from_le_bytes(le64(x)) == x,
{
    vstd::bytes::lemma_auto_spec_u32_to_from_le_bytes();
    vstd::bytes::lemma_auto_spec_u64_to_from_le_bytes();
    assert forall|x: u32| #[trigger] le32(x).len() == 4 && spec_u32_from_le_bytes(le32(x)) == x by {
        assert(spec_u32_to_le_bytes(x).len() == 4);
    }
    assert forall|x: u64| #[trigger] le64(x).len() == 8 && spec_u64_from_le_bytes(le64(x)) == x by {
        assert(spec_u64_to_le_bytes(x).len() == 8);
    }
}

/// Reads a `u32` at `off` if four bytes are there.
pub fn read_u32_at(data: &[u8], off: usize) -> (r: Option<u32>)
    ensures
        match r {
            Some(v) => off + 4 <= data@.len() && v == u32_at(data@, off as int),
            None => off + 4 > data@.len(),
        },
{
    if off > data.len() || data.len() - off < 4 {
        None
    } else {
        let s = vstd::slice::slice_subrange(data, off, off + 4);
        Some(vstd::bytes::u32_from_le_bytes(s))
    }
}

/// Reads a `u64` at `off` if eight bytes are there.
pub fn read_u64_at(data: &[u8], off: usize) -> (r: Option<u64>)
    ensures
        match r {
            Some(v) => off + 8 <= data@.len() && v == u64_at(data@, off as int),
            None => off + 8 > data@.len(),
        },
{
    if off > data.len() || data.len() - off < 8 {
        None
    } else {
        let s = vstd::slice::slice_subrange(data, off, off + 8);
        Some(vstd::bytes::u64_from_le_bytes(s))
    }
}

pub fn push_u32(out: &mut Vec<u8>, x: u32)
    ensures
        final(out)@ == old(out)@ + le32(x),
{
    let mut b = vstd::bytes::u32_to_le_bytes(x);
    out.append(&mut b);
}

pub fn push_u64(out: &mut Vec<u8>, x: u64)
    ensures
        final(out)@ == old(out)@ + le64(x),
{
    let mut b = vstd::bytes::u64_to_le_bytes(x);
    out.append(&mut b);
}

pub fn push_bytes(out: &mut Vec<u8>, b: &[u8])
    ensures
        final(out)@ == old(out)@ + b@,
{
    let mut v = vstd::slice::slice_to_vec(b);
    out.append(&mut v);
}

/// Whether `data[off..off + b.len()]` equals `b`.
pub fn bytes_equal_at(data: &[u8], off: usize, b: &[u8]) -> (r: bool)
    requires
        off + b@.len() <= data@.len(),
    ensures
        r == (data@.subrange(off as int, off + b@.len()) == b@),
{
    let mut i: usize = 0;
    let n = data.len();
    while i < b.len()
        invariant
            i <= b@.len(),
            n == data@.len(),
            off + b@.len() <= data@.len(),
            forall|j: int| 0 <= j < i ==> data@[off + j] == b@[j],
        decreases b.len() - i,
    {
        if data[off + i] != b[i] {
            assert(data@.subrange(off as int, off + b@.len())[i as int] != b@[i as int]);
            return false;
        }
        i = i + 1;
    }
    assert(data@.subrange(off as int, off + b@.len()) =~= b@);
    true
}

} // verus!
