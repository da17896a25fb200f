//! The output binary builder: grows the string table, the two ref tables
//! and the code and global data blobs, deduplicating names, and emits the
//! whole image in the canonical section order.
//!
//! The name maps of the builder are modelled as the sequences of names
//! parallel to the tables; lookups find the first (and, thanks to
//! deduplication, only) entry with a given name.

use vstd::prelude::*;
use vstd::bytes::{spec_u16_to_le_bytes, spec_u32_to_le_bytes, spec_u64_to_le_bytes};
use vstd::utf8::encode_utf8;
use crate::bin_structs::{
    spec_magic, FuncRef, GlobRef, Header, FUNC_REF_SIZE, GLOB_REF_SIZE, HEADER_SIZE,
};
use crate::func::Func;
use crate::glob::Glob;
use crate::image::{spec_func_refs_bytes, spec_glob_refs_bytes, Image};

verus! {

/// A just-created function table entry: only the name is known yet.
pub open spec fn spec_fresh_func_ref(name_idx: u32) -> FuncRef {
    FuncRef { name_idx, offset: 0, size: 0, result_count: 0 }
}

/// A just-created global table entry: only the name is known yet.
pub open spec fn spec_fresh_glob_ref(name_idx: u32) -> GlobRef {
    GlobRef { name_idx, offset: 0, size: 0, value_type: 0 }
}

/// First index holding this name, if any.
pub open spec fn spec_find_name(names: Seq<Seq<char>>, name: Seq<char>) -> Option<int>
    decreases names.len(),
{
    if names.len() == 0 {
        None
    } else if names[0] == name {
        Some(0int)
    } else {
        match spec_find_name(names.drop_first(), name) {
            Some(i) => Some(i + 1),
            None => None,
        }
    }
}

pub proof fn lemma_find_name_at(names: Seq<Seq<char>>, name: Seq<char>, i: int)
    requires
        0 <= i < names.len(),
        forall|j: int| 0 <= j < i ==> names[j] != name,
        names[i] == name,
    ensures
        spec_find_name(names, name) == Some(i),
    decreases i,
{
    if i > 0 {
        lemma_find_name_at(names.drop_first(), name, i - 1);
    }
}

pub proof fn lemma_find_name_none(names: Seq<Seq<char>>, name: Seq<char>)
    requires
        forall|j: int| 0 <= j < names.len() ==> names[j] != name,
    ensures
        spec_find_name(names, name) is None,
    decreases names.len(),
{
    if names.len() > 0 {
        lemma_find_name_none(names.drop_first(), name);
    }
}

pub struct OutBin {
    str_table: Vec<u8>,
    str_names: Vec<String>,
    str_offs: Vec<u32>,
    funcs_table: Vec<FuncRef>,
    funcs_names: Vec<String>,
    funcs_code: Vec<u8>,
    globs_table: Vec<GlobRef>,
    globs_names: Vec<String>,
    globs_data: Vec<u8>,
}

impl OutBin {
    pub closed spec fn str_table_bytes(&self) -> Seq<u8> {
        self.str_table@
    }

    /// The deduplicated names in the string table with their byte offsets.
    pub closed spec fn strings(&self) -> Seq<(Seq<char>, u32)> {
        Seq::new(self.str_names@.len(), |i: int| (self.str_names@[i]@, self.str_offs@[i]))
    }

    pub closed spec fn funcs(&self) -> Seq<FuncRef> {
        self.funcs_table@
    }

    pub closed spec fn func_names(&self) -> Seq<Seq<char>> {
        self.funcs_names@.map_values(|s: String| s@)
    }

    pub closed spec fn code(&self) -> Seq<u8> {
        self.funcs_code@
    }

    pub closed spec fn globs(&self) -> Seq<GlobRef> {
        self.globs_table@
    }

    pub closed spec fn glob_names(&self) -> Seq<Seq<char>> {
        self.globs_names@.map_values(|s: String| s@)
    }

    pub closed spec fn glob_data(&self) -> Seq<u8> {
        self.globs_data@
    }

    /// Tables and their name lists stay parallel.
    pub closed spec fn inv(&self) -> bool {
        &&& self.funcs_names@.len() == self.funcs_table@.len()
        &&& self.globs_names@.len() == self.globs_table@.len()
        &&& self.str_offs@.len() == self.str_names@.len()
        &&& self.funcs_table@.len() <= u32::MAX
        &&& self.globs_table@.len() <= u32::MAX
        &&& self.str_table@.len() <= u32::MAX
    }

    pub fn new() -> (r: OutBin)
        ensures
            r.inv(),
            r.str_table_bytes() == Seq::<u8>::empty(),
            r.strings() == Seq::<(Seq<char>, u32)>::empty(),
            r.funcs() == Seq::<FuncRef>::empty(),
            r.func_names() == Seq::<Seq<char>>::empty(),
            r.code() == Seq::<u8>::empty(),
            r.globs() == Seq::<GlobRef>::empty(),
            r.glob_names() == Seq::<Seq<char>>::empty(),
            r.glob_data() == Seq::<u8>::empty(),
    {
        let r = OutBin {
            str_table: Vec::new(),
            str_names: Vec::new(),
            str_offs: Vec::new(),
            funcs_table: Vec::new(),
            funcs_names: Vec::new(),
            funcs_code: Vec::new(),
            globs_table: Vec::new(),
            globs_names: Vec::new(),
            globs_data: Vec::new(),
        };
        proof {
            assert(r.strings() =~= Seq::<(Seq<char>, u32)>::empty());
            assert(r.func_names() =~= Seq::<Seq<char>>::empty());
            assert(r.glob_names() =~= Seq::<Seq<char>>::empty());
        }
        r
    }

    /// Add a name to the string table (NUL-terminated), or find the
    /// offset it already sits at.
    fn add_string(&mut self, value: &str) -> (r: u32)
        requires
            old(self).inv(),
            old(self).str_table_bytes().len() + encode_utf8(value@).len() + 1 <= u32::MAX,
        ensures
            final(self).inv(),
            final(self).funcs() == old(self).funcs(),
            final(self).func_names() == old(self).func_names(),
            final(self).code() == old(self).code(),
            final(self).globs() == old(self).globs(),
            final(self).glob_names() == old(self).glob_names(),
            final(self).glob_data() == old(self).glob_data(),
            match spec_find_name_off(old(self).strings(), value@) {
                Some(off) => r == off && final(self).strings() == old(self).strings()
                    && final(self).str_table_bytes() == old(self).str_table_bytes(),
                None => r == old(self).str_table_bytes().len() && final(self).strings() == old(
                    self,
                ).strings().push((value@, r)) && final(self).str_table_bytes() == old(
                    self,
                ).str_table_bytes() + encode_utf8(value@) + seq![0u8],
            },
    {
        let n = self.str_names.len();
        let query: String = value.to_owned();
        let mut i: usize = 0;
        while i < n
            invariant
                i <= n,
                n == self.str_names@.len(),
                self.inv(),
                query@ == value@,
                forall|j: int| 0 <= j < i ==> self.strings()[j].0 != value@,
            decreases n - i,
        {
            let hit = self.str_names[i] == query;
            proof {
                assert(self.strings()[i as int].0 == self.str_names@[i as int]@);
            }
            if hit {
                proof {
                    lemma_find_name_off_at(self.strings(), value@, i as int);
                }
                return self.str_offs[i];
            }
            i = i + 1;
        }
        proof {
            lemma_find_name_off_none(self.strings(), value@);
        }
        let string_idx = self.str_table.len() as u32;
        let mut bytes = vstd::slice::slice_to_vec(value.as_bytes());
        self.str_table.append(&mut bytes);
        self.str_table.push(0u8);
        self.str_names.push(query);
        self.str_offs.push(string_idx);
        proof {
            assert(self.str_table@ =~= old(self).str_table_bytes() + encode_utf8(value@)
                + seq![0u8]);
            assert(self.strings() =~= old(self).strings().push((value@, string_idx)));
        }
        string_idx
    }

    /// Register a function by name: the existing index if one is already
    /// there, else a fresh table entry whose name goes to the string table.
    pub fn add_func(&mut self, func: &Func) -> (r: u32)
        requires
            old(self).inv(),
            old(self).str_table_bytes().len() + encode_utf8(func.spec_name()).len() + 1
                <= u32::MAX,
            old(self).funcs().len() < u32::MAX,
        ensures
            final(self).inv(),
            final(self).code() == old(self).code(),
            final(self).globs() == old(self).globs(),
            final(self).glob_names() == old(self).glob_names(),
            final(self).glob_data() == old(self).glob_data(),
            match spec_find_name(old(self).func_names(), func.spec_name()) {
                Some(i) => r == i && *final(self) == *old(self),
                None => ({
                    &&& r == old(self).funcs().len()
                    &&& final(self).func_names() == old(self).func_names().push(func.spec_name())
                    &&& exists|off: u32|
                        final(self).funcs() == old(self).funcs().push(
                            #[trigger] spec_fresh_func_ref(off),
                        ) && spec_find_name_off(final(self).strings(), func.spec_name()) == Some(
                            off,
                        )
                    &&& match spec_find_name_off(old(self).strings(), func.spec_name()) {
                        Some(_) => final(self).strings() == old(self).strings()
                            && final(self).str_table_bytes() == old(self).str_table_bytes(),
                        None => final(self).strings() == old(self).strings().push(
                            (func.spec_name(), old(self).str_table_bytes().len() as u32),
                        ) && final(self).str_table_bytes() == old(self).str_table_bytes()
                            + encode_utf8(func.spec_name()) + seq![0u8],
                    }
                }),
            },
    {
        let name = func.get_name();
        let n = self.funcs_names.len();
        let mut i: usize = 0;
        while i < n
            invariant
                i <= n,
                n == self.funcs_names@.len(),
                self.inv(),
                name@ == func.spec_name(),
                forall|j: int| 0 <= j < i ==> self.func_names()[j] != func.spec_name(),
            decreases n - i,
        {
            let hit = self.funcs_names[i] == *name;
            proof {
                assert(self.func_names()[i as int] == self.funcs_names@[i as int]@);
            }
            if hit {
                proof {
                    lemma_find_name_at(self.func_names(), func.spec_name(), i as int);
                }
                return i as u32;
            }
            i = i + 1;
        }
        proof {
            lemma_find_name_none(self.func_names(), func.spec_name());
        }
        let func_idx = self.funcs_table.len() as u32;
        let func_name_idx = self.add_string(name.as_str());
        self.funcs_table.push(FuncRef::new(func_name_idx));
        self.funcs_names.push(name.clone());
        proof {
            assert(self.func_names() =~= old(self).func_names().push(func.spec_name()));
            assert(self.funcs_table@ =~= old(self).funcs().push(
                spec_fresh_func_ref(func_name_idx),
            ));
            if spec_find_name_off(old(self).strings(), func.spec_name()) is None {
                lemma_find_name_off_last(old(self).strings(), func.spec_name(), func_name_idx);
            } else {
                lemma_find_name_off_stable(old(self).strings(), func.spec_name());
            }
            assert(spec_find_name_off(self.strings(), func.spec_name()) == Some(func_name_idx));
        }
        func_idx
    }

    /// Append a function's code bytes; the offset they start at.
    pub fn add_func_code(&mut self, code: &Vec<u8>) -> (r: u64)
        requires
            old(self).inv(),
        ensures
            final(self).inv(),
            r == old(self).code().len(),
            final(self).code() == old(self).code() + code@,
            final(self).funcs() == old(self).funcs(),
            final(self).func_names() == old(self).func_names(),
            final(self).strings() == old(self).strings(),
            final(self).str_table_bytes() == old(self).str_table_bytes(),
            final(self).globs() == old(self).globs(),
            final(self).glob_names() == old(self).glob_names(),
            final(self).glob_data() == old(self).glob_data(),
    {
        let func_code_offset = self.funcs_code.len() as u64;
        let mut bytes = vstd::slice::slice_to_vec(code.as_slice());
        self.funcs_code.append(&mut bytes);
        func_code_offset
    }

    /// The table index registered for a function name.
    pub fn get_func_idx(&self, name: &str) -> (r: Option<u32>)
        requires
            self.inv(),
        ensures
            match spec_find_name(self.func_names(), name@) {
                Some(i) => r == Some(i as u32) && 0 <= i < self.funcs().len(),
                None => r is None,
            },
    {
        let query: String = name.to_owned();
        let n = self.funcs_names.len();
        let mut i: usize = 0;
        while i < n
            invariant
                i <= n,
                n == self.funcs_names@.len(),
                self.inv(),
                query@ == name@,
                forall|j: int| 0 <= j < i ==> self.func_names()[j] != name@,
            decreases n - i,
        {
            let hit = self.funcs_names[i] == query;
            proof {
                assert(self.func_names()[i as int] == self.funcs_names@[i as int]@);
            }
            if hit {
                proof {
                    lemma_find_name_at(self.func_names(), name@, i as int);
                }
                return Some(i as u32);
            }
            i = i + 1;
        }
        proof {
            lemma_find_name_none(self.func_names(), name@);
        }
        None
    }

    pub fn get_func_ref(&self, name: &str) -> (r: Option<&FuncRef>)
        requires
            self.inv(),
        ensures
            match spec_find_name(self.func_names(), name@) {
                Some(i) => r matches Some(f) && *f == self.funcs()[i],
                None => r is None,
            },
    {
        let func_idx = match self.get_func_idx(name) {
            Some(func_idx) => func_idx,
            None => {
                return None;
            },
        };
        Some(&self.funcs_table[func_idx as usize])
    }

    pub fn get_func_mut_ref(&mut self, name: &str) -> (r: Option<&mut FuncRef>)
        requires
            old(self).inv(),
        ensures
            match spec_find_name(old(self).func_names(), name@) {
                Some(i) => r matches Some(f) && *f == old(self).funcs()[i] && final(self).funcs()
                    == old(self).funcs().update(i, *final(f)),
                None => r is None && *final(self) == *old(self),
            },
            final(self).inv(),
            final(self).func_names() == old(self).func_names(),
            final(self).code() == old(self).code(),
            final(self).strings() == old(self).strings(),
            final(self).str_table_bytes() == old(self).str_table_bytes(),
            final(self).globs() == old(self).globs(),
            final(self).glob_names() == old(self).glob_names(),
            final(self).glob_data() == old(self).glob_data(),
    {
        let func_idx = match self.get_func_idx(name) {
            Some(func_idx) => func_idx,
            None => {
                return None;
            },
        };
        Some(vstd::std_specs::vec::vec_index_mut(&mut self.funcs_table, func_idx as usize))
    }

    /// Register a global by name, mirroring `add_func`.
    pub fn add_glob(&mut self, glob: &Glob) -> (r: u32)
        requires
            old(self).inv(),
            old(self).str_table_bytes().len() + encode_utf8(glob.spec_name()).len() + 1
                <= u32::MAX,
            old(self).globs().len() < u32::MAX,
        ensures
            final(self).inv(),
            final(self).code() == old(self).code(),
            final(self).funcs() == old(self).funcs(),
            final(self).func_names() == old(self).func_names(),
            final(self).glob_data() == old(self).glob_data(),
            match spec_find_name(old(self).glob_names(), glob.spec_name()) {
                Some(i) => r == i && *final(self) == *old(self),
                None => ({
                    &&& r == old(self).globs().len()
                    &&& final(self).glob_names() == old(self).glob_names().push(glob.spec_name())
                    &&& exists|off: u32|
                        final(self).globs() == old(self).globs().push(
                            #[trigger] spec_fresh_glob_ref(off),
                        ) && spec_find_name_off(final(self).strings(), glob.spec_name()) == Some(
                            off,
                        )
                    &&& match spec_find_name_off(old(self).strings(), glob.spec_name()) {
                        Some(_) => final(self).strings() == old(self).strings()
                            && final(self).str_table_bytes() == old(self).str_table_bytes(),
                        None => final(self).strings() == old(self).strings().push(
                            (glob.spec_name(), old(self).str_table_bytes().len() as u32),
                        ) && final(self).str_table_bytes() == old(self).str_table_bytes()
                            + encode_utf8(glob.spec_name()) + seq![0u8],
                    }
                }),
            },
    {
        let name = glob.get_name();
        let n = self.globs_names.len();
        let mut i: usize = 0;
        while i < n
            invariant
                i <= n,
                n == self.globs_names@.len(),
                self.inv(),
                name@ == glob.spec_name(),
                forall|j: int| 0 <= j < i ==> self.glob_names()[j] != glob.spec_name(),
            decreases n - i,
        {
            let hit = self.globs_names[i] == *name;
            proof {
                assert(self.glob_names()[i as int] == self.globs_names@[i as int]@);
            }
            if hit {
                proof {
                    lemma_find_name_at(self.glob_names(), glob.spec_name(), i as int);
                }
                return i as u32;
            }
            i = i + 1;
        }
        proof {
            lemma_find_name_none(self.glob_names(), glob.spec_name());
        }
        let glob_idx = self.globs_table.len() as u32;
        let glob_name_idx = self.add_string(name.as_str());
        self.globs_table.push(GlobRef::new(glob_name_idx));
        self.globs_names.push(name.clone());
        proof {
            assert(self.glob_names() =~= old(self).glob_names().push(glob.spec_name()));
            assert(self.globs_table@ =~= old(self).globs().push(
                spec_fresh_glob_ref(glob_name_idx),
            ));
            if spec_find_name_off(old(self).strings(), glob.spec_name()) is None {
                lemma_find_name_off_last(old(self).strings(), glob.spec_name(), glob_name_idx);
            } else {
                lemma_find_name_off_stable(old(self).strings(), glob.spec_name());
            }
            assert(spec_find_name_off(self.strings(), glob.spec_name()) == Some(glob_name_idx));
        }
        glob_idx
    }

    /// The table index registered for a global name.
    pub fn get_glob_idx(&self, name: &str) -> (r: Option<u32>)
        requires
            self.inv(),
        ensures
            match spec_find_name(self.glob_names(), name@) {
                Some(i) => r == Some(i as u32) && 0 <= i < self.globs().len(),
                None => r is None,
            },
    {
        let query: String = name.to_owned();
        let n = self.globs_names.len();
        let mut i: usize = 0;
        while i < n
            invariant
                i <= n,
                n == self.globs_names@.len(),
                self.inv(),
                query@ == name@,
                forall|j: int| 0 <= j < i ==> self.glob_names()[j] != name@,
            decreases n - i,
        {
            let hit = self.globs_names[i] == query;
            proof {
                assert(self.glob_names()[i as int] == self.globs_names@[i as int]@);
            }
            if hit {
                proof {
                    lemma_find_name_at(self.glob_names(), name@, i as int);
                }
                return Some(i as u32);
            }
            i = i + 1;
        }
        proof {
            lemma_find_name_none(self.glob_names(), name@);
        }
        None
    }

    /// Append raw global data; the offset it starts at.
    pub fn add_glob_data(&mut self, glob_data: &Vec<u8>) -> (r: u64)
        requires
            old(self).inv(),
        ensures
            final(self).inv(),
            r == old(self).glob_data().len(),
            final(self).glob_data() == old(self).glob_data() + glob_data@,
            final(self).funcs() == old(self).funcs(),
            final(self).func_names() == old(self).func_names(),
            final(self).strings() == old(self).strings(),
            final(self).str_table_bytes() == old(self).str_table_bytes(),
            final(self).code() == old(self).code(),
            final(self).globs() == old(self).globs(),
            final(self).glob_names() == old(self).glob_names(),
    {
        let glob_data_offset = self.globs_data.len() as u64;
        let mut bytes = vstd::slice::slice_to_vec(glob_data.as_slice());
        self.globs_data.append(&mut bytes);
        glob_data_offset
    }

    pub fn get_glob_ref(&self, name: &str) -> (r: Option<&GlobRef>)
        requires
            self.inv(),
        ensures
            match spec_find_name(self.glob_names(), name@) {
                Some(i) => r matches Some(g) && *g == self.globs()[i],
                None => r is None,
            },
    {
        let glob_idx = match self.get_glob_idx(name) {
            Some(glob_idx) => glob_idx,
            None => {
                return None;
            },
        };
        Some(&self.globs_table[glob_idx as usize])
    }

    pub fn get_glob_mut_ref(&mut self, name: &str) -> (r: Option<&mut GlobRef>)
        requires
            old(self).inv(),
        ensures
            match spec_find_name(old(self).glob_names(), name@) {
                Some(i) => r matches Some(g) && *g == old(self).globs()[i] && final(self).globs()
                    == old(self).globs().update(i, *final(g)),
                None => r is None && *final(self) == *old(self),
            },
            final(self).inv(),
            final(self).glob_names() == old(self).glob_names(),
            final(self).code() == old(self).code(),
            final(self).strings() == old(self).strings(),
            final(self).str_table_bytes() == old(self).str_table_bytes(),
            final(self).funcs() == old(self).funcs(),
            final(self).func_names() == old(self).func_names(),
            final(self).glob_data() == old(self).glob_data(),
    {
        let glob_idx = match self.get_glob_idx(name) {
            Some(glob_idx) => glob_idx,
            None => {
                return None;
            },
        };
        Some(vstd::std_specs::vec::vec_index_mut(&mut self.globs_table, glob_idx as usize))
    }

    /// Current byte length of the string table.
    pub fn str_table_len(&self) -> (r: usize)
        ensures
            r == self.str_table_bytes().len(),
    {
        self.str_table.len()
    }

    /// Number of registered functions.
    pub fn funcs_len(&self) -> (r: usize)
        ensures
            r == self.funcs().len(),
    {
        self.funcs_table.len()
    }

    /// Number of registered globals.
    pub fn globs_len(&self) -> (r: usize)
        ensures
            r == self.globs().len(),
    {
        self.globs_table.len()
    }

    /// Current byte length of the code blob.
    pub fn code_len(&self) -> (r: usize)
        ensures
            r == self.code().len(),
    {
        self.funcs_code.len()
    }

    /// Current byte length of the global data blob.
    pub fn glob_data_len(&self) -> (r: usize)
        ensures
            r == self.glob_data().len(),
    {
        self.globs_data.len()
    }

    /// The full image: header fields computed by accumulating the section
    /// sizes in canonical order, checksum left zero, then the sections.
    #[verifier::spinoff_prover]
    #[verifier::rlimit(100)]
    pub fn to_bytes(&self) -> (r: Vec<u8>)
        requires
            self.inv(),
            self.str_table_bytes().len() <= u32::MAX,
            self.funcs().len() * FUNC_REF_SIZE <= u32::MAX,
            self.globs().len() * GLOB_REF_SIZE <= u32::MAX,
            self.code().len() <= u32::MAX,
            self.glob_data().len() <= u32::MAX,
        ensures
            r@ == spec_out_bin_bytes(*self),
            crate::image::spec_image_wf(r@),
            crate::image::spec_image_size(r@) == r@.len(),
            crate::image::spec_strtab(r@) == self.str_table_bytes(),
            crate::image::spec_code_section(r@) == self.code(),
            crate::image::spec_glob_data_section(r@) == self.glob_data(),
            crate::image::spec_hdr_func_size(r@) == self.funcs().len() * FUNC_REF_SIZE,
            crate::image::spec_hdr_glob_size(r@) == self.globs().len() * GLOB_REF_SIZE,
            forall|k: int|
                0 <= k < self.funcs().len() ==> crate::image::spec_parsed_func_ref(r@, k)
                    == #[trigger] self.funcs()[k],
            forall|k: int|
                0 <= k < self.globs().len() ==> crate::image::spec_parsed_glob_ref(r@, k)
                    == #[trigger] self.globs()[k],
    {
        let mut header = Header::new();
        header.str_tab_offset = HEADER_SIZE as u64;
        header.str_tab_size = self.str_table.len() as u32;
        header.func_tab_offset = header.str_tab_offset + header.str_tab_size as u64;
        header.func_tab_size = (self.funcs_table.len() * FUNC_REF_SIZE) as u32;
        header.glob_tab_offset = header.func_tab_offset + header.func_tab_size as u64;
        header.glob_tab_size = (self.globs_table.len() * GLOB_REF_SIZE) as u32;
        header.code_offset = header.glob_tab_offset + header.glob_tab_size as u64;
        header.code_size = self.funcs_code.len() as u32;
        header.glob_offset = header.code_offset + header.code_size as u64;
        header.glob_size = self.globs_data.len() as u32;
        header.file_size = header.glob_offset + header.glob_size as u64;
        header.checksum = 0;

        let img = Image {
            header,
            str_table: vstd::slice::slice_to_vec(self.str_table.as_slice()),
            func_refs: vstd::slice::slice_to_vec(self.funcs_table.as_slice()),
            glob_refs: vstd::slice::slice_to_vec(self.globs_table.as_slice()),
            code: vstd::slice::slice_to_vec(self.funcs_code.as_slice()),
            glob_data: vstd::slice::slice_to_vec(self.globs_data.as_slice()),
        };
        let out = img.serialize();
        proof {
            assert(out@ =~= spec_out_bin_bytes(*self));
            vstd::bytes::lemma_auto_spec_u16_to_from_le_bytes();
            vstd::bytes::lemma_auto_spec_u32_to_from_le_bytes();
            vstd::bytes::lemma_auto_spec_u64_to_from_le_bytes();
            crate::image::lemma_func_refs_bytes_len(self.funcs());
            crate::image::lemma_glob_refs_bytes_len(self.globs());
            assert(out@.subrange(0, 8) =~= spec_magic());
            assert(out@.subrange(30, 34) =~= spec_u32_to_le_bytes(
                self.str_table_bytes().len() as u32,
            ));
            assert(out@.subrange(42, 46) =~= spec_u32_to_le_bytes(
                (self.funcs().len() * FUNC_REF_SIZE) as u32,
            ));
            assert(out@.subrange(54, 58) =~= spec_u32_to_le_bytes(
                (self.globs().len() * GLOB_REF_SIZE) as u32,
            ));
            assert(out@.subrange(66, 70) =~= spec_u32_to_le_bytes(self.code().len() as u32));
            assert(out@.subrange(78, 82) =~= spec_u32_to_le_bytes(
                self.glob_data().len() as u32,
            ));
            assert((self.funcs().len() * FUNC_REF_SIZE) as int % (FUNC_REF_SIZE as int) == 0)
                by (nonlinear_arith)
                requires
                    self.funcs().len() * FUNC_REF_SIZE <= u32::MAX,
                    FUNC_REF_SIZE == 17,
            ;
            assert((self.globs().len() * GLOB_REF_SIZE) as int % (GLOB_REF_SIZE as int) == 0)
                by (nonlinear_arith)
                requires
                    self.globs().len() * GLOB_REF_SIZE <= u32::MAX,
                    GLOB_REF_SIZE == 17,
            ;
            assert(crate::image::spec_strtab(out@) =~= self.str_table_bytes());
            assert(crate::image::spec_code_section(out@) =~= self.code());
            assert(crate::image::spec_glob_data_section(out@) =~= self.glob_data());
            let ft = crate::image::spec_func_tab_start(out@);
            let gt = crate::image::spec_glob_tab_start(out@);
            assert(out@.subrange(ft, gt) =~= spec_func_refs_bytes(self.funcs()));
            assert(out@.subrange(gt, gt + self.globs().len() * GLOB_REF_SIZE)
                =~= spec_glob_refs_bytes(self.globs()));
            assert forall|k: int|
                0 <= k < self.funcs().len() implies crate::image::spec_parsed_func_ref(out@, k)
                == #[trigger] self.funcs()[k] by {
                vstd::bytes::lemma_auto_spec_u32_to_from_le_bytes();
                vstd::bytes::lemma_auto_spec_u64_to_from_le_bytes();
                crate::image::lemma_func_refs_bytes_index(self.funcs(), k);
                assert(out@.subrange(ft + k * FUNC_REF_SIZE, ft + (k + 1) * FUNC_REF_SIZE)
                    =~= spec_func_refs_bytes(self.funcs()).subrange(
                    k * FUNC_REF_SIZE,
                    (k + 1) * FUNC_REF_SIZE,
                ));
                let p = ft + k * FUNC_REF_SIZE;
                let chunk = out@.subrange(p, p + FUNC_REF_SIZE);
                assert(chunk =~= spec_func_refs_bytes(self.funcs()).subrange(
                    k * FUNC_REF_SIZE,
                    (k + 1) * FUNC_REF_SIZE,
                ));
                assert(chunk.subrange(0, 4) =~= spec_u32_to_le_bytes(self.funcs()[k].name_idx));
                assert(chunk.subrange(4, 12) =~= spec_u64_to_le_bytes(self.funcs()[k].offset));
                assert(chunk.subrange(12, 16) =~= spec_u32_to_le_bytes(self.funcs()[k].size));
                assert(chunk[16] == self.funcs()[k].result_count);
                assert(out@.subrange(p, p + 4) =~= chunk.subrange(0, 4));
                assert(out@.subrange(p + 4, p + 12) =~= chunk.subrange(4, 12));
                assert(out@.subrange(p + 12, p + 16) =~= chunk.subrange(12, 16));
                assert(out@[p + 16] == chunk[16]);
            }
            assert forall|k: int|
                0 <= k < self.globs().len() implies crate::image::spec_parsed_glob_ref(out@, k)
                == #[trigger] self.globs()[k] by {
                vstd::bytes::lemma_auto_spec_u32_to_from_le_bytes();
                vstd::bytes::lemma_auto_spec_u64_to_from_le_bytes();
                crate::image::lemma_glob_refs_bytes_index(self.globs(), k);
                assert(out@.subrange(gt + k * GLOB_REF_SIZE, gt + (k + 1) * GLOB_REF_SIZE)
                    =~= spec_glob_refs_bytes(self.globs()).subrange(
                    k * GLOB_REF_SIZE,
                    (k + 1) * GLOB_REF_SIZE,
                ));
                let p = gt + k * GLOB_REF_SIZE;
                let chunk = out@.subrange(p, p + GLOB_REF_SIZE);
                assert(chunk =~= spec_glob_refs_bytes(self.globs()).subrange(
                    k * GLOB_REF_SIZE,
                    (k + 1) * GLOB_REF_SIZE,
                ));
                assert(chunk.subrange(0, 4) =~= spec_u32_to_le_bytes(self.globs()[k].name_idx));
                assert(chunk.subrange(4, 12) =~= spec_u64_to_le_bytes(self.globs()[k].offset));
                assert(chunk.subrange(12, 16) =~= spec_u32_to_le_bytes(self.globs()[k].size));
                assert(chunk[16] == self.globs()[k].value_type);
                assert(out@.subrange(p, p + 4) =~= chunk.subrange(0, 4));
                assert(out@.subrange(p + 4, p + 12) =~= chunk.subrange(4, 12));
                assert(out@.subrange(p + 12, p + 16) =~= chunk.subrange(12, 16));
                assert(out@[p + 16] == chunk[16]);
            }
        }
        out
    }
}

/// First entry holding this name in the string-table map, with its offset.
pub open spec fn spec_find_name_off(strings: Seq<(Seq<char>, u32)>, name: Seq<char>) -> Option<u32>
    decreases strings.len(),
{
    if strings.len() == 0 {
        None
    } else if strings[0].0 == name {
        Some(strings[0].1)
    } else {
        spec_find_name_off(strings.drop_first(), name)
    }
}

pub proof fn lemma_find_name_off_at(strings: Seq<(Seq<char>, u32)>, name: Seq<char>, i: int)
    requires
        0 <= i < strings.len(),
        forall|j: int| 0 <= j < i ==> strings[j].0 != name,
        strings[i].0 == name,
    ensures
        spec_find_name_off(strings, name) == Some(strings[i].1),
    decreases i,
{
    if i > 0 {
        lemma_find_name_off_at(strings.drop_first(), name, i - 1);
    }
}

/// A found offset belongs to a recorded (name, offset) pair.
pub proof fn lemma_find_name_off_witness(strings: Seq<(Seq<char>, u32)>, name: Seq<char>)
    requires
        spec_find_name_off(strings, name) is Some,
    ensures
        exists|p: int|
            0 <= p < strings.len() && (#[trigger] strings[p]).0 == name && strings[p].1
                == spec_find_name_off(strings, name)->0,
    decreases strings.len(),
{
    if strings.len() > 0 && strings[0].0 != name {
        lemma_find_name_off_witness(strings.drop_first(), name);
        let p = choose|p: int|
            0 <= p < strings.drop_first().len() && (#[trigger] strings.drop_first()[p]).0 == name
                && strings.drop_first()[p].1 == spec_find_name_off(strings.drop_first(), name)->0;
        assert(strings[p + 1] == strings.drop_first()[p]);
    }
}

proof fn lemma_find_name_off_none(strings: Seq<(Seq<char>, u32)>, name: Seq<char>)
    requires
        forall|j: int| 0 <= j < strings.len() ==> strings[j].0 != name,
    ensures
        spec_find_name_off(strings, name) is None,
    decreases strings.len(),
{
    if strings.len() > 0 {
        lemma_find_name_off_none(strings.drop_first(), name);
    }
}

proof fn lemma_find_name_off_last(strings: Seq<(Seq<char>, u32)>, name: Seq<char>, off: u32)
    requires
        spec_find_name_off(strings, name) is None,
    ensures
        spec_find_name_off(strings.push((name, off)), name) == Some(off),
    decreases strings.len(),
{
    if strings.len() > 0 {
        assert(strings.push((name, off)).drop_first() =~= strings.drop_first().push((name, off)));
        lemma_find_name_off_last(strings.drop_first(), name, off);
    }
}

pub proof fn lemma_find_name_off_stable(strings: Seq<(Seq<char>, u32)>, name: Seq<char>)
    requires
        spec_find_name_off(strings, name) is Some,
    ensures
        forall|p: (Seq<char>, u32)|
            spec_find_name_off(#[trigger] strings.push(p), name) == spec_find_name_off(
                strings,
                name,
            ),
    decreases strings.len(),
{
    assert forall|p: (Seq<char>, u32)|
        spec_find_name_off(#[trigger] strings.push(p), name) == spec_find_name_off(
            strings,
            name,
        ) by {
        lemma_find_name_off_stable_one(strings, name, p);
    }
}

proof fn lemma_find_name_off_stable_one(
    strings: Seq<(Seq<char>, u32)>,
    name: Seq<char>,
    p: (Seq<char>, u32),
)
    requires
        spec_find_name_off(strings, name) is Some,
    ensures
        spec_find_name_off(strings.push(p), name) == spec_find_name_off(strings, name),
    decreases strings.len(),
{
    if strings.len() > 0 && strings[0].0 != name {
        assert(strings.push(p).drop_first() =~= strings.drop_first().push(p));
        lemma_find_name_off_stable_one(strings.drop_first(), name, p);
    }
}

/// The bytes `to_bytes` emits: the canonical header followed by the five
/// sections.
pub open spec fn spec_out_bin_bytes(b: OutBin) -> Seq<u8> {
    spec_out_bin_header_bytes(b) + b.str_table_bytes() + spec_func_refs_bytes(b.funcs())
        + spec_glob_refs_bytes(b.globs()) + b.code() + b.glob_data()
}

/// The header `to_bytes` computes: offsets accumulate the section sizes
/// in canonical order and the checksum is written as zero.
pub open spec fn spec_out_bin_header_bytes(b: OutBin) -> Seq<u8> {
    let str_off = HEADER_SIZE as int;
    let func_off = str_off + b.str_table_bytes().len();
    let glob_off = func_off + b.funcs().len() * FUNC_REF_SIZE;
    let code_off = glob_off + b.globs().len() * GLOB_REF_SIZE;
    let glob_data_off = code_off + b.code().len();
    let file_size = glob_data_off + b.glob_data().len();
    spec_magic() + spec_u16_to_le_bytes(HEADER_SIZE as u16) + spec_u32_to_le_bytes(0u32)
        + spec_u64_to_le_bytes(file_size as u64) + spec_u64_to_le_bytes(str_off as u64)
        + spec_u32_to_le_bytes(b.str_table_bytes().len() as u32) + spec_u64_to_le_bytes(
        func_off as u64,
    ) + spec_u32_to_le_bytes((b.funcs().len() * FUNC_REF_SIZE) as u32) + spec_u64_to_le_bytes(
        glob_off as u64,
    ) + spec_u32_to_le_bytes((b.globs().len() * GLOB_REF_SIZE) as u32) + spec_u64_to_le_bytes(
        code_off as u64,
    ) + spec_u32_to_le_bytes(b.code().len() as u32) + spec_u64_to_le_bytes(glob_data_off as u64)
        + spec_u32_to_le_bytes(b.glob_data().len() as u32)
}

} // verus!
