//! A random-access byte buffer carrying a current byte index, with
//! little-endian reads and writes of the fixed-width integers the wire
//! format uses.
//!
//! Multi-byte values travel as their little-endian byte sequences
//! (`vstd::bytes` gives the byte-level meaning). Reads and writes fail with
//! an out-of-bounds error instead of growing the buffer; growth is explicit
//! through `resize`.

use vstd::prelude::*;
use vstd::bytes::{
    spec_u16_from_le_bytes, spec_u16_to_le_bytes, spec_u32_from_le_bytes, spec_u32_to_le_bytes,
    spec_u64_from_le_bytes, spec_u64_to_le_bytes, u16_from_le_bytes, u16_to_le_bytes,
    u32_from_le_bytes, u32_to_le_bytes, u64_from_le_bytes, u64_to_le_bytes,
};
use vstd::slice::slice_subrange;

verus! {

/// `s` with the bytes from `at` on replaced by `d`.
pub open spec fn splice(s: Seq<u8>, at: int, d: Seq<u8>) -> Seq<u8>
    recommends
        0 <= at,
        at + d.len() <= s.len(),
{
    s.take(at) + d + s.skip(at + d.len())
}

pub struct ByteVec {
    byte_vec: Vec<u8>,
    current_byte_idx: usize,
}

impl ByteVec {
    /// The buffer contents.
    pub closed spec fn bytes(&self) -> Seq<u8> {
        self.byte_vec@
    }

    /// The current byte index.
    pub closed spec fn pos(&self) -> int {
        self.current_byte_idx as int
    }

    pub fn new(byte_vec: Vec<u8>) -> (r: ByteVec)
        ensures
            r.bytes() == byte_vec@,
            r.pos() == 0,
    {
        ByteVec { byte_vec, current_byte_idx: 0 }
    }

    pub fn len(&self) -> (r: usize)
        ensures
            r == self.bytes().len(),
    {
        self.byte_vec.len()
    }

    /// Grow (with zero bytes) or shrink the buffer to `len` bytes.
    pub fn resize(&mut self, len: usize)
        ensures
            final(self).pos() == old(self).pos(),
            final(self).bytes().len() == len,
            len <= old(self).bytes().len() ==> final(self).bytes() == old(self).bytes().take(
                len as int,
            ),
            len > old(self).bytes().len() ==> final(self).bytes() == old(self).bytes() + Seq::new(
                (len - old(self).bytes().len()) as nat,
                |i: int| 0u8,
            ),
    {
        self.byte_vec.resize(len, 0u8);
        proof {
            if len > old(self).bytes().len() {
                assert(self.byte_vec@ =~= old(self).bytes() + Seq::new(
                    (len - old(self).bytes().len()) as nat,
                    |i: int| 0u8,
                ));
            }
        }
    }

    pub fn set_current_byte_idx(&mut self, current_byte_idx: usize)
        ensures
            final(self).bytes() == old(self).bytes(),
            final(self).pos() == current_byte_idx as int,
    {
        self.current_byte_idx = current_byte_idx;
    }

    pub fn get_current_byte_idx(&self) -> (r: usize)
        ensures
            r as int == self.pos(),
    {
        self.current_byte_idx
    }

    pub fn read_u8(&mut self) -> (r: Result<u8, String>)
        ensures
            final(self).bytes() == old(self).bytes(),
            r is Ok <==> old(self).pos() < old(self).bytes().len(),
            r is Ok ==> r == Ok::<u8, String>(old(self).bytes()[old(self).pos()])
                && final(self).pos() == old(self).pos() + 1,
            r is Err ==> final(self).pos() == old(self).pos(),
    {
        if self.current_byte_idx >= self.byte_vec.len() {
            return Err(String::from_str("Index out of bounds"));
        }
        let b = self.byte_vec[self.current_byte_idx];
        self.current_byte_idx = self.current_byte_idx + 1;
        Ok(b)
    }

    pub fn read_u16(&mut self) -> (r: Result<u16, String>)
        ensures
            final(self).bytes() == old(self).bytes(),
            r is Ok <==> old(self).pos() + 2 <= old(self).bytes().len(),
            r is Ok ==> r == Ok::<u16, String>(
                spec_u16_from_le_bytes(
                    old(self).bytes().subrange(old(self).pos(), old(self).pos() + 2),
                ),
            ) && final(self).pos() == old(self).pos() + 2,
            r is Err ==> final(self).pos() == old(self).pos(),
    {
        let n = self.byte_vec.len();
        if self.current_byte_idx > n || n - self.current_byte_idx < 2 {
            return Err(String::from_str("Index out of bounds"));
        }
        let s = slice_subrange(self.byte_vec.as_slice(), self.current_byte_idx, self.current_byte_idx + 2);
        let v = u16_from_le_bytes(s);
        self.current_byte_idx = self.current_byte_idx + 2;
        Ok(v)
    }

    pub fn read_u32(&mut self) -> (r: Result<u32, String>)
        ensures
            final(self).bytes() == old(self).bytes(),
            r is Ok <==> old(self).pos() + 4 <= old(self).bytes().len(),
            r is Ok ==> r == Ok::<u32, String>(
                spec_u32_from_le_bytes(
                    old(self).bytes().subrange(old(self).pos(), old(self).pos() + 4),
                ),
            ) && final(self).pos() == old(self).pos() + 4,
            r is Err ==> final(self).pos() == old(self).pos(),
    {
        let n = self.byte_vec.len();
        if self.current_byte_idx > n || n - self.current_byte_idx < 4 {
            return Err(String::from_str("Index out of bounds"));
        }
        let s = slice_subrange(self.byte_vec.as_slice(), self.current_byte_idx, self.current_byte_idx + 4);
        let v = u32_from_le_bytes(s);
        self.current_byte_idx = self.current_byte_idx + 4;
        Ok(v)
    }

    pub fn read_u64(&mut self) -> (r: Result<u64, String>)
        ensures
            final(self).bytes() == old(self).bytes(),
            r is Ok <==> old(self).pos() + 8 <= old(self).bytes().len(),
            r is Ok ==> r == Ok::<u64, String>(
                spec_u64_from_le_bytes(
                    old(self).bytes().subrange(old(self).pos(), old(self).pos() + 8),
                ),
            ) && final(self).pos() == old(self).pos() + 8,
            r is Err ==> final(self).pos() == old(self).pos(),
    {
        let n = self.byte_vec.len();
        if self.current_byte_idx > n || n - self.current_byte_idx < 8 {
            return Err(String::from_str("Index out of bounds"));
        }
        let s = slice_subrange(self.byte_vec.as_slice(), self.current_byte_idx, self.current_byte_idx + 8);
        let v = u64_from_le_bytes(s);
        self.current_byte_idx = self.current_byte_idx + 8;
        Ok(v)
    }

    pub fn write_u8(&mut self, value: u8) -> (r: Result<(), String>)
        ensures
            r is Ok <==> old(self).pos() < old(self).bytes().len(),
            r is Ok ==> final(self).bytes() == old(self).bytes().update(old(self).pos(), value)
                && final(self).pos() == old(self).pos() + 1,
            r is Err ==> final(self).bytes() == old(self).bytes()
                && final(self).pos() == old(self).pos(),
    {
        if self.current_byte_idx >= self.byte_vec.len() {
            return Err(String::from_str("Index out of bounds"));
        }
        self.byte_vec.set(self.current_byte_idx, value);
        self.current_byte_idx = self.current_byte_idx + 1;
        Ok(())
    }

    /// Write a span of bytes in place; fails without changing anything when
    /// the span would extend past the current length.
    pub fn write_bytes(&mut self, data: &[u8]) -> (r: Result<(), String>)
        ensures
            r is Ok <==> old(self).pos() + data@.len() <= old(self).bytes().len(),
            r is Ok ==> final(self).bytes() == splice(old(self).bytes(), old(self).pos(), data@)
                && final(self).pos() == old(self).pos() + data@.len(),
            r is Err ==> final(self).bytes() == old(self).bytes()
                && final(self).pos() == old(self).pos(),
    {
        let n = self.byte_vec.len();
        let m = data.len();
        if self.current_byte_idx > n || n - self.current_byte_idx < m {
            return Err(String::from_str("Index out of bounds"));
        }
        let p0 = self.current_byte_idx;
        let mut i: usize = 0;
        while i < m
            invariant
                m == data@.len(),
                p0 + m <= n,
                n == self.byte_vec@.len(),
                i <= m,
                self.current_byte_idx == p0,
                forall|j: int|
                    p0 <= j < p0 + i ==> #[trigger] self.byte_vec@[j] == data@[j - p0],
                forall|j: int|
                    (0 <= j < p0 || p0 + i <= j < n) ==> #[trigger] self.byte_vec@[j] == old(
                        self,
                    ).bytes()[j],
            decreases m - i,
        {
            self.byte_vec.set(p0 + i, *vstd::slice::slice_index_get(data, i));
            i = i + 1;
        }
        self.current_byte_idx = p0 + m;
        proof {
            assert(self.byte_vec@ =~= splice(old(self).bytes(), p0 as int, data@));
        }
        Ok(())
    }

    pub fn write_u16(&mut self, value: u16) -> (r: Result<(), String>)
        ensures
            r is Ok <==> old(self).pos() + 2 <= old(self).bytes().len(),
            r is Ok ==> final(self).bytes() == splice(
                old(self).bytes(),
                old(self).pos(),
                spec_u16_to_le_bytes(value),
            ) && final(self).pos() == old(self).pos() + 2,
            r is Err ==> final(self).bytes() == old(self).bytes()
                && final(self).pos() == old(self).pos(),
    {
        let bytes = u16_to_le_bytes(value);
        self.write_bytes(bytes.as_slice())
    }

    pub fn write_u32(&mut self, value: u32) -> (r: Result<(), String>)
        ensures
            r is Ok <==> old(self).pos() + 4 <= old(self).bytes().len(),
            r is Ok ==> final(self).bytes() == splice(
                old(self).bytes(),
                old(self).pos(),
                spec_u32_to_le_bytes(value),
            ) && final(self).pos() == old(self).pos() + 4,
            r is Err ==> final(self).bytes() == old(self).bytes()
                && final(self).pos() == old(self).pos(),
    {
        let bytes = u32_to_le_bytes(value);
        self.write_bytes(bytes.as_slice())
    }

    pub fn write_u64(&mut self, value: u64) -> (r: Result<(), String>)
        ensures
            r is Ok <==> old(self).pos() + 8 <= old(self).bytes().len(),
            r is Ok ==> final(self).bytes() == splice(
                old(self).bytes(),
                old(self).pos(),
                spec_u64_to_le_bytes(value),
            ) && final(self).pos() == old(self).pos() + 8,
            r is Err ==> final(self).bytes() == old(self).bytes()
                && final(self).pos() == old(self).pos(),
    {
        let bytes = u64_to_le_bytes(value);
        self.write_bytes(bytes.as_slice())
    }
}


/// The current byte index is never negative.
pub broadcast proof fn lemma_byte_vec_pos_nonneg(v: ByteVec)
    ensures
        0 <= #[trigger] v.pos(),
{
}

} // verus!
