//! The binary image as a whole: header, string table, function table,
//! global table, code blob and global data blob, laid out consecutively in
//! that order.
//!
//! `deserialize` accepts exactly the well-formed images
//! ([`spec_image_wf`]): right magic, table sizes that are whole multiples
//! of their record sizes, and sections that fit in the buffer. Its
//! postcondition carries the round-trip guarantee: the parsed image
//! re-serializes to the very bytes it consumed, checksum included.

use vstd::prelude::*;
use vstd::bytes::{spec_u32_from_le_bytes, spec_u64_from_le_bytes};
use vstd::slice::slice_to_vec;
use crate::bin_structs::{
    spec_func_ref_bytes, spec_glob_ref_bytes, spec_header_bytes, spec_magic, FuncRef, GlobRef,
    Header, FUNC_REF_SIZE, GLOB_REF_SIZE, HEADER_SIZE,
};
use crate::byte_vec_reader::ByteVecReader;

verus! {

broadcast use crate::byte_vec_reader::lemma_byte_vec_reader_pos_nonneg;

/// The string-table size field of a serialized header.
pub open spec fn spec_hdr_str_size(b: Seq<u8>) -> int {
    spec_u32_from_le_bytes(b.subrange(30, 34)) as int
}

/// The function-table size field of a serialized header.
pub open spec fn spec_hdr_func_size(b: Seq<u8>) -> int {
    spec_u32_from_le_bytes(b.subrange(42, 46)) as int
}

/// The global-table size field of a serialized header.
pub open spec fn spec_hdr_glob_size(b: Seq<u8>) -> int {
    spec_u32_from_le_bytes(b.subrange(54, 58)) as int
}

/// The code size field of a serialized header.
pub open spec fn spec_hdr_code_size(b: Seq<u8>) -> int {
    spec_u32_from_le_bytes(b.subrange(66, 70)) as int
}

/// The global-data size field of a serialized header.
pub open spec fn spec_hdr_glob_data_size(b: Seq<u8>) -> int {
    spec_u32_from_le_bytes(b.subrange(78, 82)) as int
}

/// How many bytes of the buffer the image occupies: the header and the
/// five sections in canonical order.
pub open spec fn spec_image_size(b: Seq<u8>) -> int {
    HEADER_SIZE + spec_hdr_str_size(b) + spec_hdr_func_size(b) + spec_hdr_glob_size(b)
        + spec_hdr_code_size(b) + spec_hdr_glob_data_size(b)
}

/// A loadable image: the magic is right, each ref table holds whole
/// records, and every section fits inside the buffer.
pub open spec fn spec_image_wf(b: Seq<u8>) -> bool {
    &&& b.len() >= HEADER_SIZE
    &&& b.subrange(0, 8) == spec_magic()
    &&& spec_hdr_func_size(b) % (FUNC_REF_SIZE as int) == 0
    &&& spec_hdr_glob_size(b) % (GLOB_REF_SIZE as int) == 0
    &&& spec_image_size(b) <= b.len()
}

/// Where the function table starts: right after the string table.
pub open spec fn spec_func_tab_start(b: Seq<u8>) -> int {
    HEADER_SIZE + spec_hdr_str_size(b)
}

/// Where the global table starts.
pub open spec fn spec_glob_tab_start(b: Seq<u8>) -> int {
    spec_func_tab_start(b) + spec_hdr_func_size(b)
}

/// Where the code blob starts.
pub open spec fn spec_code_start(b: Seq<u8>) -> int {
    spec_glob_tab_start(b) + spec_hdr_glob_size(b)
}

/// Where the global data blob starts.
pub open spec fn spec_glob_data_start(b: Seq<u8>) -> int {
    spec_code_start(b) + spec_hdr_code_size(b)
}

/// The string table section of an image.
pub open spec fn spec_strtab(b: Seq<u8>) -> Seq<u8> {
    b.subrange(HEADER_SIZE as int, spec_func_tab_start(b))
}

/// The code section of an image.
pub open spec fn spec_code_section(b: Seq<u8>) -> Seq<u8> {
    b.subrange(spec_code_start(b), spec_glob_data_start(b))
}

/// The global data section of an image.
pub open spec fn spec_glob_data_section(b: Seq<u8>) -> Seq<u8> {
    b.subrange(spec_glob_data_start(b), spec_glob_data_start(b) + spec_hdr_glob_data_size(b))
}

/// The `k`th entry of the function table, as the loader reads it.
pub open spec fn spec_parsed_func_ref(b: Seq<u8>, k: int) -> FuncRef {
    let p = spec_func_tab_start(b) + k * FUNC_REF_SIZE;
    FuncRef {
        name_idx: spec_u32_from_le_bytes(b.subrange(p, p + 4)),
        offset: spec_u64_from_le_bytes(b.subrange(p + 4, p + 12)),
        size: spec_u32_from_le_bytes(b.subrange(p + 12, p + 16)),
        result_count: b[p + 16],
    }
}

/// The `k`th entry of the global table, as the loader reads it.
pub open spec fn spec_parsed_glob_ref(b: Seq<u8>, k: int) -> GlobRef {
    let p = spec_glob_tab_start(b) + k * GLOB_REF_SIZE;
    GlobRef {
        name_idx: spec_u32_from_le_bytes(b.subrange(p, p + 4)),
        offset: spec_u64_from_le_bytes(b.subrange(p + 4, p + 12)),
        size: spec_u32_from_le_bytes(b.subrange(p + 12, p + 16)),
        value_type: b[p + 16],
    }
}

/// The concatenated serialization of a function table.
pub open spec fn spec_func_refs_bytes(refs: Seq<FuncRef>) -> Seq<u8>
    decreases refs.len(),
{
    if refs.len() == 0 {
        Seq::empty()
    } else {
        spec_func_refs_bytes(refs.drop_last()) + spec_func_ref_bytes(refs.last())
    }
}

/// The concatenated serialization of a global table.
pub open spec fn spec_glob_refs_bytes(refs: Seq<GlobRef>) -> Seq<u8>
    decreases refs.len(),
{
    if refs.len() == 0 {
        Seq::empty()
    } else {
        spec_glob_refs_bytes(refs.drop_last()) + spec_glob_ref_bytes(refs.last())
    }
}

/// A serialized function table is seventeen bytes per entry.
pub proof fn lemma_func_refs_bytes_len(refs: Seq<FuncRef>)
    ensures
        spec_func_refs_bytes(refs).len() == refs.len() * FUNC_REF_SIZE,
    decreases refs.len(),
{
    vstd::bytes::lemma_auto_spec_u32_to_from_le_bytes();
    vstd::bytes::lemma_auto_spec_u64_to_from_le_bytes();
    if refs.len() > 0 {
        lemma_func_refs_bytes_len(refs.drop_last());
    }
}

/// A serialized global table is seventeen bytes per entry.
pub proof fn lemma_glob_refs_bytes_len(refs: Seq<GlobRef>)
    ensures
        spec_glob_refs_bytes(refs).len() == refs.len() * GLOB_REF_SIZE,
    decreases refs.len(),
{
    vstd::bytes::lemma_auto_spec_u32_to_from_le_bytes();
    vstd::bytes::lemma_auto_spec_u64_to_from_le_bytes();
    if refs.len() > 0 {
        lemma_glob_refs_bytes_len(refs.drop_last());
    }
}

/// The `k`th seventeen-byte chunk of a serialized function table is the
/// serialization of its `k`th entry.
pub proof fn lemma_func_refs_bytes_index(refs: Seq<FuncRef>, k: int)
    requires
        0 <= k < refs.len(),
    ensures
        spec_func_refs_bytes(refs).subrange(k * FUNC_REF_SIZE, (k + 1) * FUNC_REF_SIZE)
            == spec_func_ref_bytes(refs[k]),
    decreases refs.len(),
{
    vstd::bytes::lemma_auto_spec_u32_to_from_le_bytes();
    vstd::bytes::lemma_auto_spec_u64_to_from_le_bytes();
    lemma_func_refs_bytes_len(refs);
    lemma_func_refs_bytes_len(refs.drop_last());
    if k == refs.len() - 1 {
        assert(spec_func_refs_bytes(refs).subrange(k * FUNC_REF_SIZE, (k + 1) * FUNC_REF_SIZE)
            =~= spec_func_ref_bytes(refs[k]));
    } else {
        lemma_func_refs_bytes_index(refs.drop_last(), k);
        assert(refs.drop_last()[k] == refs[k]);
        assert(spec_func_refs_bytes(refs).subrange(k * FUNC_REF_SIZE, (k + 1) * FUNC_REF_SIZE)
            =~= spec_func_refs_bytes(refs.drop_last()).subrange(
            k * FUNC_REF_SIZE,
            (k + 1) * FUNC_REF_SIZE,
        ));
    }
}

/// The `k`th seventeen-byte chunk of a serialized global table is the
/// serialization of its `k`th entry.
pub proof fn lemma_glob_refs_bytes_index(refs: Seq<GlobRef>, k: int)
    requires
        0 <= k < refs.len(),
    ensures
        spec_glob_refs_bytes(refs).subrange(k * GLOB_REF_SIZE, (k + 1) * GLOB_REF_SIZE)
            == spec_glob_ref_bytes(refs[k]),
    decreases refs.len(),
{
    vstd::bytes::lemma_auto_spec_u32_to_from_le_bytes();
    vstd::bytes::lemma_auto_spec_u64_to_from_le_bytes();
    lemma_glob_refs_bytes_len(refs);
    lemma_glob_refs_bytes_len(refs.drop_last());
    if k == refs.len() - 1 {
        assert(spec_glob_refs_bytes(refs).subrange(k * GLOB_REF_SIZE, (k + 1) * GLOB_REF_SIZE)
            =~= spec_glob_ref_bytes(refs[k]));
    } else {
        lemma_glob_refs_bytes_index(refs.drop_last(), k);
        assert(refs.drop_last()[k] == refs[k]);
        assert(spec_glob_refs_bytes(refs).subrange(k * GLOB_REF_SIZE, (k + 1) * GLOB_REF_SIZE)
            =~= spec_glob_refs_bytes(refs.drop_last()).subrange(
            k * GLOB_REF_SIZE,
            (k + 1) * GLOB_REF_SIZE,
        ));
    }
}

proof fn lemma_func_refs_bytes_push(refs: Seq<FuncRef>, x: FuncRef)
    ensures
        spec_func_refs_bytes(refs.push(x)) == spec_func_refs_bytes(refs) + spec_func_ref_bytes(x),
{
    assert(refs.push(x).drop_last() =~= refs);
    assert(refs.push(x).last() == x);
}

proof fn lemma_glob_refs_bytes_push(refs: Seq<GlobRef>, x: GlobRef)
    ensures
        spec_glob_refs_bytes(refs.push(x)) == spec_glob_refs_bytes(refs) + spec_glob_ref_bytes(x),
{
    assert(refs.push(x).drop_last() =~= refs);
    assert(refs.push(x).last() == x);
}

pub struct Image {
    pub header: Header,
    pub str_table: Vec<u8>,
    pub func_refs: Vec<FuncRef>,
    pub glob_refs: Vec<GlobRef>,
    pub code: Vec<u8>,
    pub glob_data: Vec<u8>,
}

impl Image {
    /// The bytes this image serializes to.
    pub open spec fn spec_bytes(&self) -> Seq<u8> {
        spec_header_bytes(self.header) + self.str_table@ + spec_func_refs_bytes(self.func_refs@)
            + spec_glob_refs_bytes(self.glob_refs@) + self.code@ + self.glob_data@
    }

    /// Parse an image. Succeeds exactly on well-formed buffers, and the
    /// parsed image serializes back to the bytes it occupied, byte for
    /// byte (the stored checksum is carried through).
    pub fn deserialize(bytes: &Vec<u8>) -> (r: Result<Image, String>)
        ensures
            r is Ok <==> spec_image_wf(bytes@),
            r is Ok ==> ({
                let img = r->Ok_0;
                &&& img.spec_bytes() == bytes@.subrange(0, spec_image_size(bytes@))
                &&& spec_header_bytes(img.header) == bytes@.subrange(0, HEADER_SIZE as int)
                &&& img.header.str_tab_size == spec_hdr_str_size(bytes@)
                &&& img.header.func_tab_size == spec_hdr_func_size(bytes@)
                &&& img.header.glob_tab_size == spec_hdr_glob_size(bytes@)
                &&& img.header.code_size == spec_hdr_code_size(bytes@)
                &&& img.header.glob_size == spec_hdr_glob_data_size(bytes@)
                &&& img.str_table@.len() == img.header.str_tab_size
                &&& img.func_refs@.len() * FUNC_REF_SIZE == img.header.func_tab_size
                &&& img.glob_refs@.len() * GLOB_REF_SIZE == img.header.glob_tab_size
                &&& img.code@.len() == img.header.code_size
                &&& img.glob_data@.len() == img.header.glob_size
                &&& img.str_table@ == spec_strtab(bytes@)
                &&& img.code@ == spec_code_section(bytes@)
                &&& img.glob_data@ == spec_glob_data_section(bytes@)
                &&& forall|k: int|
                    0 <= k < img.func_refs@.len() ==> #[trigger] img.func_refs@[k]
                        == spec_parsed_func_ref(bytes@, k)
                &&& forall|k: int|
                    0 <= k < img.glob_refs@.len() ==> #[trigger] img.glob_refs@[k]
                        == spec_parsed_glob_ref(bytes@, k)
            }),
    {
        let mut reader = ByteVecReader::new(slice_to_vec(bytes.as_slice()));
        let header = match Header::deserialize(&mut reader) {
            Ok(header) => header,
            Err(_) => {
                return Err(String::from_str("Failed to parse binary header"));
            },
        };
        proof {
            let b = bytes@;
            assert(header.str_tab_size == spec_hdr_str_size(b));
            assert(header.func_tab_size == spec_hdr_func_size(b));
            assert(header.glob_tab_size == spec_hdr_glob_size(b));
            assert(header.code_size == spec_hdr_code_size(b));
            assert(header.glob_size == spec_hdr_glob_data_size(b));
        }
        if header.magic[0] != 0x61 || header.magic[1] != 0x72 || header.magic[2] != 0x63
            || header.magic[3] != 0x68 || header.magic[4] != 0x6d || header.magic[5] != 0x61
            || header.magic[6] != 0x67 || header.magic[7] != 0x65 {
            proof {
                assert(header.magic@ != spec_magic());
                assert(bytes@.subrange(0, 8) != spec_magic());
            }
            return Err(String::from_str("Bad magic"));
        }
        proof {
            assert(header.magic@ =~= spec_magic());
        }
        if header.func_tab_size % (FUNC_REF_SIZE as u32) != 0 {
            return Err(String::from_str("Function table size is not a multiple of its entry size"));
        }
        if header.glob_tab_size % (GLOB_REF_SIZE as u32) != 0 {
            return Err(String::from_str("Global table size is not a multiple of its entry size"));
        }
        let str_table = match reader.read_bytes(header.str_tab_size as usize) {
            Ok(t) => t,
            Err(e) => {
                return Err(e);
            },
        };
        let func_count = header.func_tab_size / (FUNC_REF_SIZE as u32);
        proof {
            vstd::arithmetic::div_mod::lemma_fundamental_div_mod(
                header.func_tab_size as int,
                FUNC_REF_SIZE as int,
            );
            assert(func_count * FUNC_REF_SIZE == header.func_tab_size);
        }
        let mut func_refs: Vec<FuncRef> = Vec::new();
        let ghost ft_start = HEADER_SIZE + header.str_tab_size as int;
        let mut i: u32 = 0;
        while i < func_count
            invariant
                i <= func_count,
                func_count * FUNC_REF_SIZE == header.func_tab_size,
                header.func_tab_size % (FUNC_REF_SIZE as u32) == 0,
                header.str_tab_size == spec_hdr_str_size(bytes@),
                header.func_tab_size == spec_hdr_func_size(bytes@),
                reader.bytes() == bytes@,
                ft_start == HEADER_SIZE + header.str_tab_size as int,
                ft_start + i * FUNC_REF_SIZE <= bytes@.len(),
                reader.pos() == ft_start + i * FUNC_REF_SIZE,
                func_refs@.len() == i,
                forall|k: int|
                    0 <= k < i ==> #[trigger] func_refs@[k] == spec_parsed_func_ref(bytes@, k),
                spec_func_refs_bytes(func_refs@) =~= bytes@.subrange(
                    ft_start,
                    ft_start + i * FUNC_REF_SIZE,
                ),
            decreases func_count - i,
        {
            let fref = match FuncRef::deserialize(&mut reader) {
                Ok(fref) => fref,
                Err(_) => {
                    proof {
                        assert((i + 1) * FUNC_REF_SIZE <= func_count * FUNC_REF_SIZE);
                        assert(!spec_image_wf(bytes@));
                    }
                    return Err(String::from_str("Failed to parse func ref"));
                },
            };
            proof {
                lemma_func_refs_bytes_push(func_refs@, fref);
            }
            func_refs.push(fref);
            proof {
                assert(spec_func_refs_bytes(func_refs@) =~= bytes@.subrange(
                    ft_start,
                    ft_start + (i + 1) * FUNC_REF_SIZE,
                ));
            }
            i = i + 1;
        }
        let glob_count = header.glob_tab_size / (GLOB_REF_SIZE as u32);
        proof {
            vstd::arithmetic::div_mod::lemma_fundamental_div_mod(
                header.glob_tab_size as int,
                GLOB_REF_SIZE as int,
            );
            assert(glob_count * GLOB_REF_SIZE == header.glob_tab_size);
        }
        let mut glob_refs: Vec<GlobRef> = Vec::new();
        let ghost gt_start = ft_start + header.func_tab_size as int;
        let mut j: u32 = 0;
        while j < glob_count
            invariant
                j <= glob_count,
                glob_count * GLOB_REF_SIZE == header.glob_tab_size,
                header.glob_tab_size % (GLOB_REF_SIZE as u32) == 0,
                header.str_tab_size == spec_hdr_str_size(bytes@),
                header.func_tab_size == spec_hdr_func_size(bytes@),
                header.glob_tab_size == spec_hdr_glob_size(bytes@),
                reader.bytes() == bytes@,
                gt_start == HEADER_SIZE + header.str_tab_size as int
                    + header.func_tab_size as int,
                gt_start + j * GLOB_REF_SIZE <= bytes@.len(),
                reader.pos() == gt_start + j * GLOB_REF_SIZE,
                glob_refs@.len() == j,
                forall|k: int|
                    0 <= k < j ==> #[trigger] glob_refs@[k] == spec_parsed_glob_ref(bytes@, k),
                spec_glob_refs_bytes(glob_refs@) =~= bytes@.subrange(
                    gt_start,
                    gt_start + j * GLOB_REF_SIZE,
                ),
            decreases glob_count - j,
        {
            let gref = match GlobRef::deserialize(&mut reader) {
                Ok(gref) => gref,
                Err(_) => {
                    proof {
                        assert((j + 1) * GLOB_REF_SIZE <= glob_count * GLOB_REF_SIZE);
                        assert(!spec_image_wf(bytes@));
                    }
                    return Err(String::from_str("Failed to parse glob ref"));
                },
            };
            proof {
                lemma_glob_refs_bytes_push(glob_refs@, gref);
            }
            glob_refs.push(gref);
            proof {
                assert(spec_glob_refs_bytes(glob_refs@) =~= bytes@.subrange(
                    gt_start,
                    gt_start + (j + 1) * GLOB_REF_SIZE,
                ));
            }
            j = j + 1;
        }
        let code = match reader.read_bytes(header.code_size as usize) {
            Ok(c) => c,
            Err(e) => {
                return Err(e);
            },
        };
        let glob_data = match reader.read_bytes(header.glob_size as usize) {
            Ok(g) => g,
            Err(e) => {
                return Err(e);
            },
        };
        let img = Image { header, str_table, func_refs, glob_refs, code, glob_data };
        proof {
            assert(img.spec_bytes() =~= bytes@.subrange(0, spec_image_size(bytes@)));
        }
        Ok(img)
    }

    /// Emit the header and the five sections consecutively.
    pub fn serialize(&self) -> (r: Vec<u8>)
        ensures
            r@ == self.spec_bytes(),
    {
        let mut out = self.header.serialize();
        let mut st = slice_to_vec(self.str_table.as_slice());
        out.append(&mut st);
        let n = self.func_refs.len();
        let mut i: usize = 0;
        while i < n
            invariant
                i <= n,
                n == self.func_refs@.len(),
                out@ == spec_header_bytes(self.header) + self.str_table@
                    + spec_func_refs_bytes(self.func_refs@.take(i as int)),
            decreases n - i,
        {
            let mut fr = self.func_refs[i].serialize();
            proof {
                lemma_func_refs_bytes_push(self.func_refs@.take(i as int), self.func_refs@[i as int]);
                assert(self.func_refs@.take(i as int).push(self.func_refs@[i as int]) =~= self.func_refs@.take(i + 1));
            }
            out.append(&mut fr);
            i = i + 1;
        }
        proof {
            assert(self.func_refs@.take(n as int) =~= self.func_refs@);
        }
        let m = self.glob_refs.len();
        let mut j: usize = 0;
        while j < m
            invariant
                j <= m,
                m == self.glob_refs@.len(),
                out@ == spec_header_bytes(self.header) + self.str_table@
                    + spec_func_refs_bytes(self.func_refs@)
                    + spec_glob_refs_bytes(self.glob_refs@.take(j as int)),
            decreases m - j,
        {
            let mut gr = self.glob_refs[j].serialize();
            proof {
                lemma_glob_refs_bytes_push(self.glob_refs@.take(j as int), self.glob_refs@[j as int]);
                assert(self.glob_refs@.take(j as int).push(self.glob_refs@[j as int]) =~= self.glob_refs@.take(j + 1));
            }
            out.append(&mut gr);
            j = j + 1;
        }
        proof {
            assert(self.glob_refs@.take(m as int) =~= self.glob_refs@);
        }
        let mut c = slice_to_vec(self.code.as_slice());
        out.append(&mut c);
        let mut g = slice_to_vec(self.glob_data.as_slice());
        out.append(&mut g);
        proof {
            assert(out@ =~= self.spec_bytes());
        }
        out
    }
}

} // verus!
