//! A read-only byte cursor: the decoding side of the wire format reads
//! little-endian integers from an owned byte buffer while tracking a
//! current byte index.

use vstd::prelude::*;
use vstd::bytes::{
    spec_u16_from_le_bytes, spec_u32_from_le_bytes, spec_u64_from_le_bytes, u16_from_le_bytes,
    u32_from_le_bytes, u64_from_le_bytes,
};
use vstd::slice::slice_subrange;

verus! {

pub struct ByteVecReader {
    byte_vec: Vec<u8>,
    current_byte_idx: usize,
}

impl ByteVecReader {
    /// The buffer contents.
    pub closed spec fn bytes(&self) -> Seq<u8> {
        self.byte_vec@
    }

    /// The current byte index.
    pub closed spec fn pos(&self) -> int {
        self.current_byte_idx as int
    }

    pub fn new(byte_vec: Vec<u8>) -> (r: ByteVecReader)
        ensures
            r.bytes() == byte_vec@,
            r.pos() == 0,
    {
        ByteVecReader { byte_vec, current_byte_idx: 0 }
    }

    pub fn set_current_byte_idx(&mut self, current_byte_idx: usize)
        ensures
            final(self).bytes() == old(self).bytes(),
            final(self).pos() == current_byte_idx as int,
    {
        self.current_byte_idx = current_byte_idx;
    }

    pub fn get_current_byte_idx(&self) -> (r: usize)
        ensures
            r as int == self.pos(),
    {
        self.current_byte_idx
    }

    pub fn read_u8(&mut self) -> (r: Result<u8, String>)
        ensures
            final(self).bytes() == old(self).bytes(),
            r is Ok <==> old(self).pos() < old(self).bytes().len(),
            r is Ok ==> r == Ok::<u8, String>(old(self).bytes()[old(self).pos()])
                && final(self).pos() == old(self).pos() + 1,
            r is Err ==> final(self).pos() == old(self).pos(),
    {
        if self.current_byte_idx >= self.byte_vec.len() {
            return Err(String::from_str("Index out of bounds"));
        }
        let b = self.byte_vec[self.current_byte_idx];
        self.current_byte_idx = self.current_byte_idx + 1;
        Ok(b)
    }

    pub fn read_u16(&mut self) -> (r: Result<u16, String>)
        ensures
            final(self).bytes() == old(self).bytes(),
            r is Ok <==> old(self).pos() + 2 <= old(self).bytes().len(),
            r is Ok ==> r == Ok::<u16, String>(
                spec_u16_from_le_bytes(
                    old(self).bytes().subrange(old(self).pos(), old(self).pos() + 2),
                ),
            ) && final(self).pos() == old(self).pos() + 2,
            r is Err ==> final(self).pos() == old(self).pos(),
    {
        let n = self.byte_vec.len();
        if self.current_byte_idx > n || n - self.current_byte_idx < 2 {
            return Err(String::from_str("Index out of bounds"));
        }
        let s = slice_subrange(self.byte_vec.as_slice(), self.current_byte_idx, self.current_byte_idx + 2);
        let v = u16_from_le_bytes(s);
        self.current_byte_idx = self.current_byte_idx + 2;
        Ok(v)
    }

    pub fn read_u32(&mut self) -> (r: Result<u32, String>)
        ensures
            final(self).bytes() == old(self).bytes(),
            r is Ok <==> old(self).pos() + 4 <= old(self).bytes().len(),
            r is Ok ==> r == Ok::<u32, String>(
                spec_u32_from_le_bytes(
                    old(self).bytes().subrange(old(self).pos(), old(self).pos() + 4),
                ),
            ) && final(self).pos() == old(self).pos() + 4,
            r is Err ==> final(self).pos() == old(self).pos(),
    {
        let n = self.byte_vec.len();
        if self.current_byte_idx > n || n - self.current_byte_idx < 4 {
            return Err(String::from_str("Index out of bounds"));
        }
        let s = slice_subrange(self.byte_vec.as_slice(), self.current_byte_idx, self.current_byte_idx + 4);
        let v = u32_from_le_bytes(s);
        self.current_byte_idx = self.current_byte_idx + 4;
        Ok(v)
    }

    /// Read `count` raw bytes, advancing past them.
    pub fn read_bytes(&mut self, count: usize) -> (r: Result<Vec<u8>, String>)
        ensures
            final(self).bytes() == old(self).bytes(),
            r is Ok <==> old(self).pos() + count <= old(self).bytes().len(),
            r is Ok ==> r->Ok_0@ == old(self).bytes().subrange(
                old(self).pos(),
                old(self).pos() + count,
            ) && final(self).pos() == old(self).pos() + count,
            r is Err ==> final(self).pos() == old(self).pos(),
    {
        let n = self.byte_vec.len();
        if self.current_byte_idx > n || n - self.current_byte_idx < count {
            return Err(String::from_str("Index out of bounds"));
        }
        let out = vstd::slice::slice_to_vec(
            slice_subrange(self.byte_vec.as_slice(), self.current_byte_idx, self.current_byte_idx + count),
        );
        self.current_byte_idx = self.current_byte_idx + count;
        Ok(out)
    }

    pub fn read_u64(&mut self) -> (r: Result<u64, String>)
        ensures
            final(self).bytes() == old(self).bytes(),
            r is Ok <==> old(self).pos() + 8 <= old(self).bytes().len(),
            r is Ok ==> r == Ok::<u64, String>(
                spec_u64_from_le_bytes(
                    old(self).bytes().subrange(old(self).pos(), old(self).pos() + 8),
                ),
            ) && final(self).pos() == old(self).pos() + 8,
            r is Err ==> final(self).pos() == old(self).pos(),
    {
        let n = self.byte_vec.len();
        if self.current_byte_idx > n || n - self.current_byte_idx < 8 {
            return Err(String::from_str("Index out of bounds"));
        }
        let s = slice_subrange(self.byte_vec.as_slice(), self.current_byte_idx, self.current_byte_idx + 8);
        let v = u64_from_le_bytes(s);
        self.current_byte_idx = self.current_byte_idx + 8;
        Ok(v)
    }
}


/// The current byte index is never negative.
pub broadcast proof fn lemma_byte_vec_reader_pos_nonneg(v: ByteVecReader)
    ensures
        0 <= #[trigger] v.pos(),
{
}

} // verus!
