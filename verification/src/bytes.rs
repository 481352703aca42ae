//! Building and reading byte strings.

use vstd::prelude::*;
use vstd::bytes::{spec_u32_to_le_bytes, spec_u64_to_le_bytes, u32_to_le_bytes, u64_to_le_bytes};

verus! {

/// Thirty-two zero bytes.
pub open spec fn zero_bytes32() -> Seq<u8> {
    Seq::new(32, |i: int| 0u8)
}

/// Appends the bytes of `src` to `buf`.
pub fn append_bytes(buf: &mut Vec<u8>, src: &[u8])
    ensures
        final(buf)@ == old(buf)@ + src@,
{
    buf.extend_from_slice(src);
    assert(buf@ =~= old(buf)@ + src@);
}

/// Appends the eight little-endian bytes of `x` to `buf`.
pub fn append_u64_le(buf: &mut Vec<u8>, x: u64)
    ensures
        final(buf)@ == old(buf)@ + spec_u64_to_le_bytes(x),
{
    let b = u64_to_le_bytes(x);
    append_bytes(buf, b.as_slice());
}

/// Appends the four little-endian bytes of `x` to `buf`.
pub fn append_u32_le(buf: &mut Vec<u8>, x: u32)
    ensures
        final(buf)@ == old(buf)@ + spec_u32_to_le_bytes(x),
{
    let b = u32_to_le_bytes(x);
    append_bytes(buf, b.as_slice());
}

/// The thirty-two bytes of `data` that start at `start`.
pub fn read_array32(data: &[u8], start: usize) -> (out: [u8; 32])
    requires
        start + 32 <= data@.len(),
    ensures
        out@ == data@.subrange(start as int, start + 32),
{
    let mut out = [0u8; 32];
    let len: usize = data.len();
    let mut i: usize = 0;
    while i < 32
        invariant
            i <= 32,
            start + 32 <= data@.len(),
            data@.len() == len,
            forall|j: int| 0 <= j < i ==> out@[j] == data@[start + j],
        decreases 32 - i,
    {
        out[i] = data[start + i];
        i += 1;
    }
    assert(out@ =~= data@.subrange(start as int, start + 32));
    out
}

/// The sixty-four bytes of `data` that start at `start`.
pub fn read_array64(data: &[u8], start: usize) -> (out: [u8; 64])
    requires
        start + 64 <= data@.len(),
    ensures
        out@ == data@.subrange(start as int, start + 64),
{
    let mut out = [0u8; 64];
    let len: usize = data.len();
    let mut i: usize = 0;
    while i < 64
        invariant
            i <= 64,
            start + 64 <= data@.len(),
            data@.len() == len,
            forall|j: int| 0 <= j < i ==> out@[j] == data@[start + j],
        decreases 64 - i,
    {
        out[i] = data[start + i];
        i += 1;
    }
    assert(out@ =~= data@.subrange(start as int, start + 64));
    out
}

/// A copy of the bytes of `data` from `start` up to `end`.
pub fn copy_range(data: &[u8], start: usize, end: usize) -> (out: Vec<u8>)
    requires
        start <= end <= data@.len(),
    ensures
        out@ == data@.subrange(start as int, end as int),
{
    let mut out: Vec<u8> = Vec::new();
    let mut i: usize = start;
    while i < end
        invariant
            start <= i <= end <= data@.len(),
            out@ == data@.subrange(start as int, i as int),
        decreases end - i,
    {
        out.push(data[i]);
        assert(out@ =~= data@.subrange(start as int, i + 1));
        i += 1;
    }
    out
}

/// Whether two byte strings are equal.
pub fn bytes_equal(a: &[u8], b: &[u8]) -> (r: bool)
    ensures
        r == (a@ == b@),
{
    if a.len() != b.len() {
        return false;
    }
    let mut i: usize = 0;
    while i < a.len()
        invariant
            i <= a@.len(),
            a@.len() == b@.len(),
            forall|j: int| 0 <= j < i ==> a@[j] == b@[j],
        decreases a@.len() - i,
    {
        if a[i] != b[i] {
            return false;
        }
        i += 1;
    }
    assert(a@ =~= b@);
    true
}

} // verus!
