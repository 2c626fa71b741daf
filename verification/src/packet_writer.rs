//! An append-only big-endian output sink over an in-memory buffer.

use vstd::prelude::*;
use crate::bytes::{be16_bytes, be32_bytes};
use crate::ConvError;

verus! {

/// Accumulates written bytes and yields the final byte sequence on
/// completion.  Writing is append-only and order-preserving; the in-memory
/// sink itself never fails, so every write returns `Ok`.
pub struct PacketWriter {
    buf: Vec<u8>,
}

impl View for PacketWriter {
    type V = Seq<u8>;

    closed spec fn view(&self) -> Seq<u8> {
        self.buf@
    }
}

impl PacketWriter {
    /// A fresh writer holding no bytes.
    pub fn new() -> (r: PacketWriter)
        ensures
            r@ == Seq::<u8>::empty(),
    {
        PacketWriter { buf: Vec::new() }
    }

    /// Append one byte.
    pub fn write_u8(&mut self, v: u8) -> (r: Result<(), ConvError>)
        ensures
            final(self)@ == old(self)@.push(v),
            r is Ok,
    {
        self.buf.push(v);
        Ok(())
    }

    /// Append a 16-bit value in network byte order.
    pub fn write_u16(&mut self, v: u16) -> (r: Result<(), ConvError>)
        ensures
            final(self)@ == old(self)@ + be16_bytes(v),
            r is Ok,
    {
        self.buf.push((v >> 8) as u8);
        self.buf.push((v & 0xff) as u8);
        proof {
            assert(((v >> 8) & 0xff) as u8 == (v >> 8) as u8) by (bit_vector);
            assert(self@ =~= old(self)@ + be16_bytes(v));
        }
        Ok(())
    }

    /// Append a 32-bit value in network byte order.
    pub fn write_u32(&mut self, v: u32) -> (r: Result<(), ConvError>)
        ensures
            final(self)@ == old(self)@ + be32_bytes(v),
            r is Ok,
    {
        self.buf.push((v >> 24) as u8);
        self.buf.push(((v >> 16) & 0xff) as u8);
        self.buf.push(((v >> 8) & 0xff) as u8);
        self.buf.push((v & 0xff) as u8);
        proof {
            assert(((v >> 24) & 0xff) as u8 == (v >> 24) as u8) by (bit_vector);
            assert(self@ =~= old(self)@ + be32_bytes(v));
        }
        Ok(())
    }

    /// Append a run of raw bytes verbatim.
    pub fn write_bytes(&mut self, v: &[u8]) -> (r: Result<(), ConvError>)
        ensures
            final(self)@ == old(self)@ + v@,
            r is Ok,
    {
        let mut i: usize = 0;
        while i < v.len()
            invariant
                i <= v@.len(),
                self@ == old(self)@ + v@.subrange(0, i as int),
            decreases v@.len() - i,
        {
            self.buf.push(*vstd::slice::slice_index_get(v, i));
            i = i + 1;
            proof {
                assert(self@ =~= old(self)@ + v@.subrange(0, i as int));
            }
        }
        proof {
            assert(v@.subrange(0, v@.len() as int) =~= v@);
        }
        Ok(())
    }

    /// Consume the writer and yield the accumulated byte sequence.
    pub fn get_result(self) -> (r: Vec<u8>)
        ensures
            r@ == self@,
    {
        self.buf
    }
}

} // verus!
