//! Globals on the assembler side: a named value of one of the scalar
//! types or a raw byte array, encoded little-endian into the global data
//! blob. Float values are carried as their IEEE-754 bit patterns.

use vstd::prelude::*;
use vstd::bytes::{
    spec_u16_to_le_bytes, spec_u32_to_le_bytes, spec_u64_to_le_bytes, u16_to_le_bytes,
    u32_to_le_bytes, u64_to_le_bytes,
};
use crate::bin_structs::GlobRef;
use crate::out_bin::{spec_find_name, OutBin};

verus! {

#[derive(Clone, Debug)]
pub enum GlobalValue {
    U8(u8),
    U16(u16),
    U32(u32),
    U64(u64),
    /// An f32 value, as its IEEE-754 bit pattern.
    F32(u32),
    /// An f64 value, as its IEEE-754 bit pattern.
    F64(u64),
    ByteArray(Vec<u8>),
}

/// The bytes a global value serializes to: little-endian scalars,
/// verbatim arrays.
pub open spec fn spec_value_bytes(v: GlobalValue) -> Seq<u8> {
    match v {
        GlobalValue::U8(x) => seq![x],
        GlobalValue::U16(x) => spec_u16_to_le_bytes(x),
        GlobalValue::U32(x) => spec_u32_to_le_bytes(x),
        GlobalValue::U64(x) => spec_u64_to_le_bytes(x),
        GlobalValue::F32(x) => spec_u32_to_le_bytes(x),
        GlobalValue::F64(x) => spec_u64_to_le_bytes(x),
        GlobalValue::ByteArray(x) => x@,
    }
}

/// The discriminant recorded in a global table entry's `value_type` field.
pub open spec fn spec_value_type(v: GlobalValue) -> u8 {
    match v {
        GlobalValue::U8(_) => 0,
        GlobalValue::U16(_) => 1,
        GlobalValue::U32(_) => 2,
        GlobalValue::U64(_) => 3,
        GlobalValue::F32(_) => 4,
        GlobalValue::F64(_) => 5,
        GlobalValue::ByteArray(_) => 6,
    }
}

#[derive(Clone, Debug)]
pub struct Glob {
    name: String,
    value: GlobalValue,
}

impl Glob {
    pub closed spec fn spec_name(&self) -> Seq<char> {
        self.name@
    }

    pub closed spec fn spec_value(&self) -> GlobalValue {
        self.value
    }

    /// A fresh global holding a zero byte.
    pub fn new(name: String) -> (r: Glob)
        ensures
            r.spec_name() == name@,
            r.spec_value() == GlobalValue::U8(0),
    {
        Glob { name, value: GlobalValue::U8(0) }
    }

    pub fn new_with_value(name: String, value: GlobalValue) -> (r: Glob)
        ensures
            r.spec_name() == name@,
            r.spec_value() == value,
    {
        Glob { name, value }
    }

    pub fn get_name(&self) -> (r: &String)
        ensures
            r@ == self.spec_name(),
    {
        &self.name
    }
}


impl Glob {
    /// Does the value's byte representation fit the wire format's u32
    /// size field?
    pub fn value_fits(&self) -> (r: bool)
        ensures
            r == (spec_value_bytes(self.spec_value()).len() <= u32::MAX),
    {
        proof {
            vstd::bytes::lemma_auto_spec_u16_to_from_le_bytes();
            vstd::bytes::lemma_auto_spec_u32_to_from_le_bytes();
            vstd::bytes::lemma_auto_spec_u64_to_from_le_bytes();
        }
        match &self.value {
            GlobalValue::ByteArray(bytes) => bytes.len() <= u32::MAX as usize,
            _ => true,
        }
    }

    /// Append this global's byte representation to the data blob and fill
    /// in its table entry with (offset, size, value type). Fails when the
    /// global was never registered (the data is appended first, as the
    /// builder works).
    pub fn encode(&self, bin: &mut OutBin) -> (r: Result<(), String>)
        requires
            old(bin).inv(),
            spec_value_bytes(self.spec_value()).len() <= u32::MAX,
        ensures
            final(bin).inv(),
            final(bin).funcs() == old(bin).funcs(),
            final(bin).func_names() == old(bin).func_names(),
            final(bin).code() == old(bin).code(),
            final(bin).strings() == old(bin).strings(),
            final(bin).str_table_bytes() == old(bin).str_table_bytes(),
            final(bin).glob_names() == old(bin).glob_names(),
            final(bin).glob_data() == old(bin).glob_data() + spec_value_bytes(self.spec_value()),
            match spec_find_name(old(bin).glob_names(), self.spec_name()) {
                Some(i) => r is Ok && final(bin).globs() == old(bin).globs().update(
                    i,
                    GlobRef {
                        name_idx: old(bin).globs()[i].name_idx,
                        offset: old(bin).glob_data().len() as u64,
                        size: spec_value_bytes(self.spec_value()).len() as u32,
                        value_type: spec_value_type(self.spec_value()),
                    },
                ),
                None => r is Err && final(bin).globs() == old(bin).globs(),
            },
    {
        let mut glob_data: Vec<u8> = Vec::new();
        match &self.value {
            GlobalValue::U8(value) => {
                glob_data.push(*value);
                proof {
                    assert(glob_data@ =~= spec_value_bytes(self.spec_value()));
                }
            },
            GlobalValue::U16(value) => {
                let mut b = u16_to_le_bytes(*value);
                glob_data.append(&mut b);
                proof {
                    assert(glob_data@ =~= spec_value_bytes(self.spec_value()));
                }
            },
            GlobalValue::U32(value) => {
                let mut b = u32_to_le_bytes(*value);
                glob_data.append(&mut b);
                proof {
                    assert(glob_data@ =~= spec_value_bytes(self.spec_value()));
                }
            },
            GlobalValue::U64(value) => {
                let mut b = u64_to_le_bytes(*value);
                glob_data.append(&mut b);
                proof {
                    assert(glob_data@ =~= spec_value_bytes(self.spec_value()));
                }
            },
            GlobalValue::F32(value) => {
                let mut b = u32_to_le_bytes(*value);
                glob_data.append(&mut b);
                proof {
                    assert(glob_data@ =~= spec_value_bytes(self.spec_value()));
                }
            },
            GlobalValue::F64(value) => {
                let mut b = u64_to_le_bytes(*value);
                glob_data.append(&mut b);
                proof {
                    assert(glob_data@ =~= spec_value_bytes(self.spec_value()));
                }
            },
            GlobalValue::ByteArray(value) => {
                let mut b = vstd::slice::slice_to_vec(value.as_slice());
                glob_data.append(&mut b);
                proof {
                    assert(glob_data@ =~= spec_value_bytes(self.spec_value()));
                }
            },
        }

        let glob_offset = bin.add_glob_data(&glob_data);
        let size = glob_data.len() as u32;
        let value_type = match &self.value {
            GlobalValue::U8(_) => 0,
            GlobalValue::U16(_) => 1,
            GlobalValue::U32(_) => 2,
            GlobalValue::U64(_) => 3,
            GlobalValue::F32(_) => 4,
            GlobalValue::F64(_) => 5,
            GlobalValue::ByteArray(_) => 6,
        };
        match bin.get_glob_mut_ref(self.name.as_str()) {
            Some(glob_ref) => {
                glob_ref.size = size;
                glob_ref.offset = glob_offset;
                glob_ref.value_type = value_type;
                Ok(())
            },
            None => Err(String::from_str("No glob in globs table with this name")),
        }
    }
}

} // verus!
