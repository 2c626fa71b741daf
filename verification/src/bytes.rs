//! Big-endian byte packing and unpacking for multi-byte integer fields,
//! shared by every header type.

use vstd::prelude::*;
use vstd::slice::slice_index_get;

verus! {

/// High byte of a 16-bit value in network byte order.
pub open spec fn be16_hi(v: u16) -> u8 {
    ((v >> 8) & 0xff) as u8
}

/// Low byte of a 16-bit value in network byte order.
pub open spec fn be16_lo(v: u16) -> u8 {
    (v & 0xff) as u8
}

/// The 16-bit value encoded big-endian by the byte pair `(hi, lo)`.
pub open spec fn be16_join(hi: u8, lo: u8) -> u16 {
    ((hi as u16) << 8) | (lo as u16)
}

/// The two-byte big-endian representation of a 16-bit value.
pub open spec fn be16_bytes(v: u16) -> Seq<u8> {
    seq![be16_hi(v), be16_lo(v)]
}

/// The 32-bit value encoded big-endian by four bytes, most significant first.
pub open spec fn be32_join(b0: u8, b1: u8, b2: u8, b3: u8) -> u32 {
    ((b0 as u32) << 24) | ((b1 as u32) << 16) | ((b2 as u32) << 8) | (b3 as u32)
}

/// Most significant byte of a 32-bit value in network byte order.
pub open spec fn be32_b0(v: u32) -> u8 {
    ((v >> 24) & 0xff) as u8
}

/// Second byte of a 32-bit value in network byte order.
pub open spec fn be32_b1(v: u32) -> u8 {
    ((v >> 16) & 0xff) as u8
}

/// Third byte of a 32-bit value in network byte order.
pub open spec fn be32_b2(v: u32) -> u8 {
    ((v >> 8) & 0xff) as u8
}

/// Least significant byte of a 32-bit value in network byte order.
pub open spec fn be32_b3(v: u32) -> u8 {
    (v & 0xff) as u8
}

/// The four-byte big-endian representation of a 32-bit value.
pub open spec fn be32_bytes(v: u32) -> Seq<u8> {
    seq![be32_b0(v), be32_b1(v), be32_b2(v), be32_b3(v)]
}

/// Joining the two big-endian bytes of a value gives the value back.
pub proof fn lemma_be16_roundtrip(v: u16)
    ensures
        be16_join(be16_hi(v), be16_lo(v)) == v,
{
    assert(((((v >> 8) & 0xff) as u8 as u16) << 8) | ((v & 0xff) as u8 as u16) == v)
        by (bit_vector);
}

/// Joining the four big-endian bytes of a value gives the value back.
pub proof fn lemma_be32_roundtrip(v: u32)
    ensures
        be32_join(be32_b0(v), be32_b1(v), be32_b2(v), be32_b3(v)) == v,
{
    assert(((((v >> 24) & 0xff) as u8 as u32) << 24) | ((((v >> 16) & 0xff) as u8 as u32) << 16)
        | ((((v >> 8) & 0xff) as u8 as u32) << 8) | ((v & 0xff) as u8 as u32) == v)
        by (bit_vector);
}

/// Byte-wise equality of two buffers.
pub fn eq_bytes(a: &[u8], b: &[u8]) -> (r: bool)
    ensures
        r == (a@ == b@),
{
    if a.len() != b.len() {
        proof {
            assert(a@.len() != b@.len());
        }
        return false;
    }
    let n: usize = a.len();
    let mut i: usize = 0;
    while i < n
        invariant
            n == a@.len(),
            n == b@.len(),
            i <= n,
            forall|j: int| 0 <= j < i ==> a@[j] == b@[j],
        decreases n - i,
    {
        if *slice_index_get(a, i) != *slice_index_get(b, i) {
            return false;
        }
        i = i + 1;
    }
    proof {
        assert(a@ =~= b@);
    }
    true
}

/// Read a 16-bit big-endian value at byte offset `off`.
pub fn read_be16(buf: &[u8], off: usize) -> (r: u16)
    requires
        off + 2 <= buf@.len(),
    ensures
        r == be16_join(buf@[off as int], buf@[off as int + 1]),
{
    let n: usize = buf.len();
    let hi = *slice_index_get(buf, off);
    let lo = *slice_index_get(buf, off + 1);
    ((hi as u16) << 8) | (lo as u16)
}

/// Read a 32-bit big-endian value at byte offset `off`.
pub fn read_be32(buf: &[u8], off: usize) -> (r: u32)
    requires
        off + 4 <= buf@.len(),
    ensures
        r == be32_join(
            buf@[off as int],
            buf@[off as int + 1],
            buf@[off as int + 2],
            buf@[off as int + 3],
        ),
{
    let n: usize = buf.len();
    let b0 = *slice_index_get(buf, off);
    let b1 = *slice_index_get(buf, off + 1);
    let b2 = *slice_index_get(buf, off + 2);
    let b3 = *slice_index_get(buf, off + 3);
    ((b0 as u32) << 24) | ((b1 as u32) << 16) | ((b2 as u32) << 8) | (b3 as u32)
}

} // verus!
