//! Assembler-side instructions: an opcode paired with a tagged literal.
//!
//! The literal's tag must be the one the opcode's family expects
//! ([`spec_instr_wf`]); float constants are carried as their IEEE-754 bit
//! patterns. `Label` and symbolic `Jump` literals exist only while
//! assembling: a label marks a byte position, a symbolic jump is patched in
//! the assembler's second sweep.

use vstd::prelude::*;
use vstd::bytes::{spec_u32_to_le_bytes, spec_u64_to_le_bytes, u32_to_le_bytes, u64_to_le_bytes};
use vstd::bytes::{spec_u32_from_le_bytes, spec_u64_from_le_bytes};
use crate::byte_vec_reader::ByteVecReader;
use crate::opcode::{
    spec_imm_size, spec_is_pseudo, spec_opcode_byte, spec_opcode_from_byte, spec_takes_func_idx,
    spec_takes_glob_idx, spec_takes_u64_imm, Opcode,
};
use crate::out_bin::{spec_find_name, OutBin};

verus! {

broadcast use crate::byte_vec_reader::lemma_byte_vec_reader_pos_nonneg;

#[derive(Clone, Debug)]
pub enum Literal {
    /// The opcode carries no immediate.
    Empty,
    /// A u64 branch or stack offset.
    Offset(u64),
    /// A u64 constant.
    Const(u64),
    /// An f64 constant, as its IEEE-754 bit pattern.
    FloatConst(u64),
    /// A function reference by name, resolved to a u32 table index.
    Func(String),
    /// A global reference by name, resolved to a u32 table index.
    Glob(String),
    /// A symbolic jump target, patched during assembly.
    Jump(String),
    /// A jump destination; emits nothing.
    Label(String),
}

#[derive(Clone, Debug)]
pub struct Instruction {
    opcode: Opcode,
    literal: Literal,
}

/// The literal tag matches what the opcode's family expects.
pub open spec fn spec_instr_wf(i: Instruction) -> bool {
    match i.spec_literal() {
        Literal::Empty => spec_imm_size(i.spec_opcode()) == 0 && !spec_is_pseudo(i.spec_opcode()),
        Literal::Offset(_) | Literal::Const(_) | Literal::FloatConst(_) => spec_takes_u64_imm(
            i.spec_opcode(),
        ),
        Literal::Func(_) => spec_takes_func_idx(i.spec_opcode()),
        Literal::Glob(_) => spec_takes_glob_idx(i.spec_opcode()),
        Literal::Jump(_) => i.spec_opcode() is Jump,
        Literal::Label(_) => i.spec_opcode() is Label,
    }
}

/// How many code bytes an instruction assembles to: nothing for a label,
/// else the opcode byte plus its immediate.
pub open spec fn spec_instr_size(i: Instruction) -> int {
    if i.spec_literal() is Label {
        0
    } else {
        1 + spec_imm_size(i.spec_opcode())
    }
}

impl Instruction {
    pub closed spec fn spec_opcode(&self) -> Opcode {
        self.opcode
    }

    pub closed spec fn spec_literal(&self) -> Literal {
        self.literal
    }

    pub fn new(opcode: Opcode, literal: Literal) -> (r: Instruction)
        ensures
            r.spec_opcode() == opcode,
            r.spec_literal() == literal,
    {
        Instruction { opcode, literal }
    }

    /// Does the literal's tag match the opcode's family?
    pub fn well_formed(&self) -> (r: bool)
        ensures
            r == spec_instr_wf(*self),
    {
        match &self.literal {
            Literal::Empty => self.opcode.imm_size() == 0 && !self.opcode.is_pseudo(),
            Literal::Offset(_) | Literal::Const(_) | Literal::FloatConst(_) => self
                .opcode
                .takes_u64_imm(),
            Literal::Func(_) => self.opcode.takes_func_idx(),
            Literal::Glob(_) => self.opcode.takes_glob_idx(),
            Literal::Jump(_) => matches!(self.opcode, Opcode::Jump),
            Literal::Label(_) => matches!(self.opcode, Opcode::Label),
        }
    }

    pub fn get_opcode(&self) -> (r: Opcode)
        ensures
            r == self.spec_opcode(),
    {
        self.opcode
    }

    pub fn get_literal(&self) -> (r: &Literal)
        ensures
            r == self.spec_literal(),
    {
        &self.literal
    }

    pub fn get_mut_literal(&mut self) -> (r: &mut Literal)
        ensures
            *r == old(self).spec_literal(),
            final(self).spec_literal() == *final(r),
            final(self).spec_opcode() == old(self).spec_opcode(),
    {
        &mut self.literal
    }
}


/// The label-destination map as (name, destination) pairs.
pub open spec fn spec_dests_view(v: Seq<(String, u64)>) -> Seq<(Seq<char>, u64)> {
    v.map_values(|p: (String, u64)| (p.0@, p.1))
}

/// The pending-jump map as (patch position, label name) pairs.
pub open spec fn spec_jumps_view(v: Seq<(u64, String)>) -> Seq<(u64, Seq<char>)> {
    v.map_values(|p: (u64, String)| (p.0, p.1@))
}

/// The bytes the first assembly sweep emits for one instruction: the
/// opcode byte and its immediate, with eight zero placeholder bytes for a
/// symbolic jump and nothing at all for a label.
pub open spec fn spec_instr_bytes1(
    ins: Instruction,
    fnames: Seq<Seq<char>>,
    gnames: Seq<Seq<char>>,
) -> Seq<u8> {
    let b = seq![spec_opcode_byte(ins.spec_opcode())];
    match ins.spec_literal() {
        Literal::Label(_) => Seq::empty(),
        Literal::Empty => b,
        Literal::Offset(v) => b + spec_u64_to_le_bytes(v),
        Literal::Const(v) => b + spec_u64_to_le_bytes(v),
        Literal::FloatConst(v) => b + spec_u64_to_le_bytes(v),
        Literal::Func(n) => b + spec_u32_to_le_bytes(
            match spec_find_name(fnames, n@) {
                Some(i) => i as u32,
                None => 0,
            },
        ),
        Literal::Glob(n) => b + spec_u32_to_le_bytes(
            match spec_find_name(gnames, n@) {
                Some(i) => i as u32,
                None => 0,
            },
        ),
        Literal::Jump(_) => b + spec_u64_to_le_bytes(0),
    }
}

/// A well-formed instruction's first-sweep bytes have its assembled size.
pub proof fn lemma_instr_bytes1_len(
    ins: Instruction,
    fnames: Seq<Seq<char>>,
    gnames: Seq<Seq<char>>,
)
    requires
        spec_instr_wf(ins),
    ensures
        spec_instr_bytes1(ins, fnames, gnames).len() == spec_instr_size(ins),
{
    vstd::bytes::lemma_auto_spec_u32_to_from_le_bytes();
    vstd::bytes::lemma_auto_spec_u64_to_from_le_bytes();
}

impl Instruction {
    /// First-sweep encoding: append the opcode byte and immediate to
    /// `code`; record a label's destination; record a symbolic jump and
    /// leave an eight-byte placeholder; resolve function and global names
    /// against the builder (a missing name is a hard failure).
    pub fn encode(
        &self,
        code: &mut Vec<u8>,
        bin: &OutBin,
        label_dests: &mut Vec<(String, u64)>,
        jumps_to_update: &mut Vec<(u64, String)>,
    ) -> (r: Result<(), String>)
        requires
            bin.inv(),
            spec_instr_wf(*self),
        ensures
            match self.spec_literal() {
                Literal::Label(n) => r is Ok && final(code)@ == old(code)@ && spec_dests_view(
                    final(label_dests)@,
                ) == spec_dests_view(old(label_dests)@).push((n@, old(code)@.len() as u64))
                    && final(jumps_to_update)@ == old(jumps_to_update)@,
                Literal::Jump(n) => r is Ok && final(code)@ == old(code)@ + spec_instr_bytes1(*self, bin.func_names(), bin.glob_names()) && final(label_dests)@ == old(label_dests)@ && spec_jumps_view(
                    final(jumps_to_update)@,
                ) == spec_jumps_view(old(jumps_to_update)@).push(
                    ((old(code)@.len() + 1) as u64, n@),
                ),
                Literal::Func(n) => final(label_dests)@ == old(label_dests)@
                    && final(jumps_to_update)@ == old(jumps_to_update)@
                    && (match spec_find_name(bin.func_names(), n@) {
                    Some(_) => r is Ok && final(code)@ == old(code)@ + spec_instr_bytes1(*self, bin.func_names(), bin.glob_names()),
                    None => r is Err && final(code)@ == old(code)@,
                }),
                Literal::Glob(n) => final(label_dests)@ == old(label_dests)@
                    && final(jumps_to_update)@ == old(jumps_to_update)@
                    && (match spec_find_name(bin.glob_names(), n@) {
                    Some(_) => r is Ok && final(code)@ == old(code)@ + spec_instr_bytes1(*self, bin.func_names(), bin.glob_names()),
                    None => r is Err && final(code)@ == old(code)@,
                }),
                _ => r is Ok && final(code)@ == old(code)@ + spec_instr_bytes1(*self, bin.func_names(), bin.glob_names())
                    && final(label_dests)@ == old(label_dests)@
                    && final(jumps_to_update)@ == old(jumps_to_update)@,
            },
    {
        match &self.literal {
            Literal::Label(label) => {
                label_dests.push((label.clone(), code.len() as u64));
                proof {
                    assert(spec_dests_view(label_dests@) =~= spec_dests_view(
                        old(label_dests)@,
                    ).push((self.spec_literal()->Label_0@, old(code)@.len() as u64)));
                }
                return Ok(());
            },
            Literal::Func(name) => {
                // resolve before emitting, so a failure appends nothing
                let func_idx = match bin.get_func_idx(name.as_str()) {
                    Some(func_idx) => func_idx,
                    None => {
                        return Err(String::from_str("No func with this name"));
                    },
                };
                code.push(self.opcode.to_byte());
                let mut b = u32_to_le_bytes(func_idx);
                code.append(&mut b);
                proof {
                    assert(code@ =~= old(code)@ + spec_instr_bytes1(*self, bin.func_names(), bin.glob_names()));
                }
                return Ok(());
            },
            Literal::Glob(name) => {
                let glob_idx = match bin.get_glob_idx(name.as_str()) {
                    Some(glob_idx) => glob_idx,
                    None => {
                        return Err(String::from_str("No glob with this name"));
                    },
                };
                code.push(self.opcode.to_byte());
                let mut b = u32_to_le_bytes(glob_idx);
                code.append(&mut b);
                proof {
                    assert(code@ =~= old(code)@ + spec_instr_bytes1(*self, bin.func_names(), bin.glob_names()));
                }
                return Ok(());
            },
            _ => {},
        }

        code.push(self.opcode.to_byte());

        match &self.literal {
            Literal::Empty => {
                proof {
                    assert(code@ =~= old(code)@ + spec_instr_bytes1(*self, bin.func_names(), bin.glob_names()));
                }
            },
            Literal::Offset(value) | Literal::Const(value) | Literal::FloatConst(value) => {
                let mut b = u64_to_le_bytes(*value);
                code.append(&mut b);
                proof {
                    assert(code@ =~= old(code)@ + spec_instr_bytes1(*self, bin.func_names(), bin.glob_names()));
                }
            },
            Literal::Jump(dest_label) => {
                jumps_to_update.push((code.len() as u64, dest_label.clone()));
                let mut b = u64_to_le_bytes(0);
                code.append(&mut b);
                proof {
                    assert(code@ =~= old(code)@ + spec_instr_bytes1(*self, bin.func_names(), bin.glob_names()));
                    assert(spec_jumps_view(jumps_to_update@) =~= spec_jumps_view(
                        old(jumps_to_update)@,
                    ).push(((old(code)@.len() + 1) as u64, self.spec_literal()->Jump_0@)));
                }
            },
            _ => {
                proof {
                    assert(false);
                }
            },
        }

        Ok(())
    }
}


/// Whether the instruction at byte `p` of a code blob can be decoded with
/// the given name tables: a known non-pseudo opcode, a complete immediate,
/// and an in-range index for a function or global reference.
pub open spec fn spec_decodable(
    b: Seq<u8>,
    p: int,
    n_funcs: int,
    n_globs: int,
) -> bool {
    &&& 0 <= p < b.len()
    &&& match spec_opcode_from_byte(b[p]) {
        None => false,
        Some(op) => {
            &&& !spec_is_pseudo(op)
            &&& p + 1 + spec_imm_size(op) <= b.len()
            &&& (spec_takes_func_idx(op) ==> spec_u32_from_le_bytes(b.subrange(p + 1, p + 5))
                < n_funcs)
            &&& (spec_takes_glob_idx(op) ==> spec_u32_from_le_bytes(b.subrange(p + 1, p + 5))
                < n_globs)
        },
    }
}

impl Instruction {
    /// Decode one instruction at the reader's position, resolving function
    /// and global indices to names through the tables (position in the
    /// table is the index). A pseudo-opcode byte or an unknown byte is a
    /// hard failure. Returns the instruction and its encoded size.
    pub fn decode(
        reader: &mut ByteVecReader,
        func_name_map: &Vec<String>,
        glob_name_map: &Vec<String>,
    ) -> (r: Result<(Instruction, usize), String>)
        ensures
            final(reader).bytes() == old(reader).bytes(),
            r is Ok <==> spec_decodable(
                old(reader).bytes(),
                old(reader).pos(),
                func_name_map@.len() as int,
                glob_name_map@.len() as int,
            ),
            r is Ok ==> ({
                let instr = r->Ok_0.0;
                let size = r->Ok_0.1;
                let b = old(reader).bytes();
                let p = old(reader).pos();
                &&& spec_opcode_from_byte(b[p]) == Some(instr.spec_opcode())
                &&& spec_instr_wf(instr)
                &&& size == 1 + spec_imm_size(instr.spec_opcode())
                &&& final(reader).pos() == p + size
                &&& match instr.spec_literal() {
                    Literal::Empty => spec_imm_size(instr.spec_opcode()) == 0,
                    Literal::Const(v) => instr.spec_opcode() is I64Const && v
                        == spec_u64_from_le_bytes(b.subrange(p + 1, p + 9)),
                    Literal::FloatConst(v) => instr.spec_opcode() is F64Const && v
                        == spec_u64_from_le_bytes(b.subrange(p + 1, p + 9)),
                    Literal::Offset(v) => spec_takes_u64_imm(instr.spec_opcode())
                        && !(instr.spec_opcode() is I64Const) && !(instr.spec_opcode()
                        is F64Const) && v == spec_u64_from_le_bytes(b.subrange(p + 1, p + 9)),
                    Literal::Func(n) => spec_takes_func_idx(instr.spec_opcode()) && n@
                        == func_name_map@[spec_u32_from_le_bytes(b.subrange(p + 1, p + 5)) as int]@,
                    Literal::Glob(n) => spec_takes_glob_idx(instr.spec_opcode()) && n@
                        == glob_name_map@[spec_u32_from_le_bytes(b.subrange(p + 1, p + 5)) as int]@,
                    _ => false,
                }
            }),
    {
        let opcode_byte = reader.read_u8()?;
        let opcode = match Opcode::from_byte(opcode_byte) {
            Some(opcode) => opcode,
            None => {
                return Err(String::from_str("Failed to decode instruction"));
            },
        };
        if opcode.is_pseudo() {
            return Err(String::from_str("Pseudo opcode in a binary"));
        }

        let literal: Literal = if opcode.takes_func_idx() {
            let func_idx = reader.read_u32()?;
            if func_idx as usize >= func_name_map.len() {
                return Err(String::from_str("Function index is out of bounds"));
            }
            Literal::Func(func_name_map[func_idx as usize].clone())
        } else if opcode.takes_glob_idx() {
            let glob_idx = reader.read_u32()?;
            if glob_idx as usize >= glob_name_map.len() {
                return Err(String::from_str("Global index is out of bounds"));
            }
            Literal::Glob(glob_name_map[glob_idx as usize].clone())
        } else if matches!(opcode, Opcode::I64Const) {
            Literal::Const(reader.read_u64()?)
        } else if matches!(opcode, Opcode::F64Const) {
            Literal::FloatConst(reader.read_u64()?)
        } else if opcode.takes_u64_imm() {
            Literal::Offset(reader.read_u64()?)
        } else {
            Literal::Empty
        };

        let size = 1 + opcode.imm_size();
        proof {
            let b = old(reader).bytes();
            let p = old(reader).pos();
            assert(b[p] == opcode_byte);
            assert(spec_opcode_from_byte(b[p]) == Some(opcode));
            assert(p + 1 + spec_imm_size(opcode) <= b.len());
            assert(spec_decodable(b, p, func_name_map@.len() as int, glob_name_map@.len() as int));
        }
        Ok((Instruction { opcode, literal }, size))
    }
}

} // verus!
