//! The fixed-layout records of the binary image: the file header and the
//! function/global table entries, with field-by-field little-endian
//! serialization.
//!
//! Every record's byte layout is given by a spec function, serialization
//! produces exactly those bytes, and deserialization of a record promises
//! that re-serializing its result reproduces the bytes it consumed.

use vstd::prelude::*;
use vstd::bytes::{
    lemma_auto_spec_u16_to_from_le_bytes, lemma_auto_spec_u32_to_from_le_bytes,
    lemma_auto_spec_u64_to_from_le_bytes, spec_u16_from_le_bytes, spec_u16_to_le_bytes,
    spec_u32_from_le_bytes, spec_u32_to_le_bytes, spec_u64_from_le_bytes, spec_u64_to_le_bytes,
    u16_to_le_bytes, u32_to_le_bytes, u64_to_le_bytes,
};
use vstd::slice::slice_to_vec;
use crate::byte_vec_reader::ByteVecReader;

verus! {

broadcast use crate::byte_vec_reader::lemma_byte_vec_reader_pos_nonneg;

/// Serialized size of a `Header` in bytes.
pub const HEADER_SIZE: usize = 82;

/// Serialized size of a `FuncRef` in bytes.
pub const FUNC_REF_SIZE: usize = 17;

/// Serialized size of a `GlobRef` in bytes.
pub const GLOB_REF_SIZE: usize = 17;

/// The magic at the start of every image file.
pub open spec fn spec_magic() -> Seq<u8> {
    seq![0x61u8, 0x72u8, 0x63u8, 0x68u8, 0x6du8, 0x61u8, 0x67u8, 0x65u8]
}

#[derive(Clone, Copy, Debug)]
pub struct Header {
    pub magic: [u8; 8],
    pub header_size: u16,
    pub checksum: u32,
    pub file_size: u64,
    pub str_tab_offset: u64,
    pub str_tab_size: u32,
    pub func_tab_offset: u64,
    pub func_tab_size: u32,
    pub glob_tab_offset: u64,
    pub glob_tab_size: u32,
    pub code_offset: u64,
    pub code_size: u32,
    pub glob_offset: u64,
    pub glob_size: u32,
}

#[derive(Clone, Copy, Debug, PartialEq, Eq, Structural)]
pub struct FuncRef {
    pub name_idx: u32,
    pub offset: u64,
    pub size: u32,
    pub result_count: u8,
}

#[derive(Clone, Copy, Debug, PartialEq, Eq, Structural)]
pub struct GlobRef {
    pub name_idx: u32,
    pub offset: u64,
    pub size: u32,
    pub value_type: u8,
}

/// The 82 bytes a header serializes to.
pub open spec fn spec_header_bytes(h: Header) -> Seq<u8> {
    h.magic@ + spec_u16_to_le_bytes(h.header_size) + spec_u32_to_le_bytes(h.checksum)
        + spec_u64_to_le_bytes(h.file_size) + spec_u64_to_le_bytes(h.str_tab_offset)
        + spec_u32_to_le_bytes(h.str_tab_size) + spec_u64_to_le_bytes(h.func_tab_offset)
        + spec_u32_to_le_bytes(h.func_tab_size) + spec_u64_to_le_bytes(h.glob_tab_offset)
        + spec_u32_to_le_bytes(h.glob_tab_size) + spec_u64_to_le_bytes(h.code_offset)
        + spec_u32_to_le_bytes(h.code_size) + spec_u64_to_le_bytes(h.glob_offset)
        + spec_u32_to_le_bytes(h.glob_size)
}

/// The 17 bytes a function table entry serializes to.
pub open spec fn spec_func_ref_bytes(f: FuncRef) -> Seq<u8> {
    spec_u32_to_le_bytes(f.name_idx) + spec_u64_to_le_bytes(f.offset)
        + spec_u32_to_le_bytes(f.size) + seq![f.result_count]
}

/// The 17 bytes a global table entry serializes to.
pub open spec fn spec_glob_ref_bytes(g: GlobRef) -> Seq<u8> {
    spec_u32_to_le_bytes(g.name_idx) + spec_u64_to_le_bytes(g.offset)
        + spec_u32_to_le_bytes(g.size) + seq![g.value_type]
}

impl Header {
    /// A fresh header: right magic and header size, every section empty.
    pub fn new() -> (r: Header)
        ensures
            r.magic@ == spec_magic(),
            r.header_size == HEADER_SIZE as u16,
            r.checksum == 0,
            r.file_size == 0,
            r.str_tab_offset == 0,
            r.str_tab_size == 0,
            r.func_tab_offset == 0,
            r.func_tab_size == 0,
            r.glob_tab_offset == 0,
            r.glob_tab_size == 0,
            r.code_offset == 0,
            r.code_size == 0,
            r.glob_offset == 0,
            r.glob_size == 0,
    {
        let r = Header {
            magic: [0x61, 0x72, 0x63, 0x68, 0x6d, 0x61, 0x67, 0x65],
            header_size: 82,
            checksum: 0,
            file_size: 0,
            str_tab_offset: 0,
            str_tab_size: 0,
            func_tab_offset: 0,
            func_tab_size: 0,
            glob_tab_offset: 0,
            glob_tab_size: 0,
            code_offset: 0,
            code_size: 0,
            glob_offset: 0,
            glob_size: 0,
        };
        proof {
            assert(r.magic@ =~= spec_magic());
        }
        r
    }

    pub fn serialize(&self) -> (r: Vec<u8>)
        ensures
            r@ == spec_header_bytes(*self),
    {
        let mut bytes: Vec<u8> = slice_to_vec(self.magic.as_slice());
        let mut b1 = u16_to_le_bytes(self.header_size);
        bytes.append(&mut b1);
        let mut b2 = u32_to_le_bytes(self.checksum);
        bytes.append(&mut b2);
        let mut b3 = u64_to_le_bytes(self.file_size);
        bytes.append(&mut b3);
        let mut b4 = u64_to_le_bytes(self.str_tab_offset);
        bytes.append(&mut b4);
        let mut b5 = u32_to_le_bytes(self.str_tab_size);
        bytes.append(&mut b5);
        let mut b6 = u64_to_le_bytes(self.func_tab_offset);
        bytes.append(&mut b6);
        let mut b7 = u32_to_le_bytes(self.func_tab_size);
        bytes.append(&mut b7);
        let mut b8 = u64_to_le_bytes(self.glob_tab_offset);
        bytes.append(&mut b8);
        let mut b9 = u32_to_le_bytes(self.glob_tab_size);
        bytes.append(&mut b9);
        let mut b10 = u64_to_le_bytes(self.code_offset);
        bytes.append(&mut b10);
        let mut b11 = u32_to_le_bytes(self.code_size);
        bytes.append(&mut b11);
        let mut b12 = u64_to_le_bytes(self.glob_offset);
        bytes.append(&mut b12);
        let mut b13 = u32_to_le_bytes(self.glob_size);
        bytes.append(&mut b13);
        proof {
            assert(bytes@ =~= spec_header_bytes(*self));
        }
        bytes
    }

    /// Parse a header off the reader. On success the consumed bytes are
    /// exactly what the result re-serializes to.
    pub fn deserialize(reader: &mut ByteVecReader) -> (r: Result<Header, String>)
        ensures
            final(reader).bytes() == old(reader).bytes(),
            r is Ok <==> old(reader).pos() + HEADER_SIZE <= old(reader).bytes().len()
                && old(reader).pos() >= 0,
            r is Ok ==> spec_header_bytes(r->Ok_0) == old(reader).bytes().subrange(
                old(reader).pos(),
                old(reader).pos() + HEADER_SIZE,
            ) && final(reader).pos() == old(reader).pos() + HEADER_SIZE,
            r is Ok ==> ({
                let h = r->Ok_0;
                let b = old(reader).bytes();
                let p = old(reader).pos();
                &&& h.magic@ == b.subrange(p, p + 8)
                &&& h.str_tab_size == spec_u32_from_le_bytes(b.subrange(p + 30, p + 34))
                &&& h.func_tab_size == spec_u32_from_le_bytes(b.subrange(p + 42, p + 46))
                &&& h.glob_tab_size == spec_u32_from_le_bytes(b.subrange(p + 54, p + 58))
                &&& h.code_size == spec_u32_from_le_bytes(b.subrange(p + 66, p + 70))
                &&& h.glob_size == spec_u32_from_le_bytes(b.subrange(p + 78, p + 82))
            }),
    {
        let m0 = reader.read_u8()?;
        let m1 = reader.read_u8()?;
        let m2 = reader.read_u8()?;
        let m3 = reader.read_u8()?;
        let m4 = reader.read_u8()?;
        let m5 = reader.read_u8()?;
        let m6 = reader.read_u8()?;
        let m7 = reader.read_u8()?;
        let header_size = reader.read_u16()?;
        let checksum = reader.read_u32()?;
        let file_size = reader.read_u64()?;
        let str_tab_offset = reader.read_u64()?;
        let str_tab_size = reader.read_u32()?;
        let func_tab_offset = reader.read_u64()?;
        let func_tab_size = reader.read_u32()?;
        let glob_tab_offset = reader.read_u64()?;
        let glob_tab_size = reader.read_u32()?;
        let code_offset = reader.read_u64()?;
        let code_size = reader.read_u32()?;
        let glob_offset = reader.read_u64()?;
        let glob_size = reader.read_u32()?;
        let h = Header {
            magic: [m0, m1, m2, m3, m4, m5, m6, m7],
            header_size,
            checksum,
            file_size,
            str_tab_offset,
            str_tab_size,
            func_tab_offset,
            func_tab_size,
            glob_tab_offset,
            glob_tab_size,
            code_offset,
            code_size,
            glob_offset,
            glob_size,
        };
        proof {
            lemma_auto_spec_u16_to_from_le_bytes();
            lemma_auto_spec_u32_to_from_le_bytes();
            lemma_auto_spec_u64_to_from_le_bytes();
            let b = old(reader).bytes();
            let p = old(reader).pos();
            assert(h.magic@ =~= b.subrange(p, p + 8));
            assert(spec_u16_to_le_bytes(spec_u16_from_le_bytes(b.subrange(p + 8, p + 10)))
                == b.subrange(p + 8, p + 10));
            assert(spec_u32_to_le_bytes(spec_u32_from_le_bytes(b.subrange(p + 10, p + 14)))
                == b.subrange(p + 10, p + 14));
            assert(spec_u64_to_le_bytes(spec_u64_from_le_bytes(b.subrange(p + 14, p + 22)))
                == b.subrange(p + 14, p + 22));
            assert(spec_u64_to_le_bytes(spec_u64_from_le_bytes(b.subrange(p + 22, p + 30)))
                == b.subrange(p + 22, p + 30));
            assert(spec_u32_to_le_bytes(spec_u32_from_le_bytes(b.subrange(p + 30, p + 34)))
                == b.subrange(p + 30, p + 34));
            assert(spec_u64_to_le_bytes(spec_u64_from_le_bytes(b.subrange(p + 34, p + 42)))
                == b.subrange(p + 34, p + 42));
            assert(spec_u32_to_le_bytes(spec_u32_from_le_bytes(b.subrange(p + 42, p + 46)))
                == b.subrange(p + 42, p + 46));
            assert(spec_u64_to_le_bytes(spec_u64_from_le_bytes(b.subrange(p + 46, p + 54)))
                == b.subrange(p + 46, p + 54));
            assert(spec_u32_to_le_bytes(spec_u32_from_le_bytes(b.subrange(p + 54, p + 58)))
                == b.subrange(p + 54, p + 58));
            assert(spec_u64_to_le_bytes(spec_u64_from_le_bytes(b.subrange(p + 58, p + 66)))
                == b.subrange(p + 58, p + 66));
            assert(spec_u32_to_le_bytes(spec_u32_from_le_bytes(b.subrange(p + 66, p + 70)))
                == b.subrange(p + 66, p + 70));
            assert(spec_u64_to_le_bytes(spec_u64_from_le_bytes(b.subrange(p + 70, p + 78)))
                == b.subrange(p + 70, p + 78));
            assert(spec_u32_to_le_bytes(spec_u32_from_le_bytes(b.subrange(p + 78, p + 82)))
                == b.subrange(p + 78, p + 82));
            assert(spec_header_bytes(h) =~= b.subrange(p, p + HEADER_SIZE));
        }
        Ok(h)
    }
}

impl FuncRef {
    pub fn new(name_idx: u32) -> (r: FuncRef)
        ensures
            r == (FuncRef { name_idx, offset: 0, size: 0, result_count: 0 }),
    {
        FuncRef { name_idx, offset: 0, size: 0, result_count: 0 }
    }

    pub fn serialize(&self) -> (r: Vec<u8>)
        ensures
            r@ == spec_func_ref_bytes(*self),
    {
        let mut bytes = u32_to_le_bytes(self.name_idx);
        let mut b1 = u64_to_le_bytes(self.offset);
        bytes.append(&mut b1);
        let mut b2 = u32_to_le_bytes(self.size);
        bytes.append(&mut b2);
        bytes.push(self.result_count);
        proof {
            assert(bytes@ =~= spec_func_ref_bytes(*self));
        }
        bytes
    }

    /// Parse a function table entry off the reader. On success the consumed
    /// bytes are exactly what the result re-serializes to.
    pub fn deserialize(reader: &mut ByteVecReader) -> (r: Result<FuncRef, String>)
        ensures
            final(reader).bytes() == old(reader).bytes(),
            r is Ok <==> old(reader).pos() + FUNC_REF_SIZE <= old(reader).bytes().len(),
            r is Ok ==> spec_func_ref_bytes(r->Ok_0) == old(reader).bytes().subrange(
                old(reader).pos(),
                old(reader).pos() + FUNC_REF_SIZE,
            ) && final(reader).pos() == old(reader).pos() + FUNC_REF_SIZE,
            r is Ok ==> ({
                let b = old(reader).bytes();
                let p = old(reader).pos();
                r->Ok_0 == (FuncRef {
                    name_idx: spec_u32_from_le_bytes(b.subrange(p, p + 4)),
                    offset: spec_u64_from_le_bytes(b.subrange(p + 4, p + 12)),
                    size: spec_u32_from_le_bytes(b.subrange(p + 12, p + 16)),
                    result_count: b[p + 16],
                })
            }),
    {
        let name_idx = reader.read_u32()?;
        let offset = reader.read_u64()?;
        let size = reader.read_u32()?;
        let result_count = reader.read_u8()?;
        let f = FuncRef { name_idx, offset, size, result_count };
        proof {
            lemma_auto_spec_u32_to_from_le_bytes();
            lemma_auto_spec_u64_to_from_le_bytes();
            let b = old(reader).bytes();
            let p = old(reader).pos();
            assert(spec_u32_to_le_bytes(spec_u32_from_le_bytes(b.subrange(p, p + 4)))
                == b.subrange(p, p + 4));
            assert(spec_u64_to_le_bytes(spec_u64_from_le_bytes(b.subrange(p + 4, p + 12)))
                == b.subrange(p + 4, p + 12));
            assert(spec_u32_to_le_bytes(spec_u32_from_le_bytes(b.subrange(p + 12, p + 16)))
                == b.subrange(p + 12, p + 16));
            assert(spec_func_ref_bytes(f) =~= b.subrange(p, p + FUNC_REF_SIZE));
        }
        Ok(f)
    }
}

impl GlobRef {
    pub fn new(name_idx: u32) -> (r: GlobRef)
        ensures
            r == (GlobRef { name_idx, offset: 0, size: 0, value_type: 0 }),
    {
        GlobRef { name_idx, offset: 0, size: 0, value_type: 0 }
    }

    pub fn serialize(&self) -> (r: Vec<u8>)
        ensures
            r@ == spec_glob_ref_bytes(*self),
    {
        let mut bytes = u32_to_le_bytes(self.name_idx);
        let mut b1 = u64_to_le_bytes(self.offset);
        bytes.append(&mut b1);
        let mut b2 = u32_to_le_bytes(self.size);
        bytes.append(&mut b2);
        bytes.push(self.value_type);
        proof {
            assert(bytes@ =~= spec_glob_ref_bytes(*self));
        }
        bytes
    }

    /// Parse a global table entry off the reader. On success the consumed
    /// bytes are exactly what the result re-serializes to.
    pub fn deserialize(reader: &mut ByteVecReader) -> (r: Result<GlobRef, String>)
        ensures
            final(reader).bytes() == old(reader).bytes(),
            r is Ok <==> old(reader).pos() + GLOB_REF_SIZE <= old(reader).bytes().len(),
            r is Ok ==> spec_glob_ref_bytes(r->Ok_0) == old(reader).bytes().subrange(
                old(reader).pos(),
                old(reader).pos() + GLOB_REF_SIZE,
            ) && final(reader).pos() == old(reader).pos() + GLOB_REF_SIZE,
            r is Ok ==> ({
                let b = old(reader).bytes();
                let p = old(reader).pos();
                r->Ok_0 == (GlobRef {
                    name_idx: spec_u32_from_le_bytes(b.subrange(p, p + 4)),
                    offset: spec_u64_from_le_bytes(b.subrange(p + 4, p + 12)),
                    size: spec_u32_from_le_bytes(b.subrange(p + 12, p + 16)),
                    value_type: b[p + 16],
                })
            }),
    {
        let name_idx = reader.read_u32()?;
        let offset = reader.read_u64()?;
        let size = reader.read_u32()?;
        let value_type = reader.read_u8()?;
        let g = GlobRef { name_idx, offset, size, value_type };
        proof {
            lemma_auto_spec_u32_to_from_le_bytes();
            lemma_auto_spec_u64_to_from_le_bytes();
            let b = old(reader).bytes();
            let p = old(reader).pos();
            assert(spec_u32_to_le_bytes(spec_u32_from_le_bytes(b.subrange(p, p + 4)))
                == b.subrange(p, p + 4));
            assert(spec_u64_to_le_bytes(spec_u64_from_le_bytes(b.subrange(p + 4, p + 12)))
                == b.subrange(p + 4, p + 12));
            assert(spec_u32_to_le_bytes(spec_u32_from_le_bytes(b.subrange(p + 12, p + 16)))
                == b.subrange(p + 12, p + 16));
            assert(spec_glob_ref_bytes(g) =~= b.subrange(p, p + GLOB_REF_SIZE));
        }
        Ok(g)
    }
}

} // verus!
