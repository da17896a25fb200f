//! The execution engine: loads a binary image and runs its bytecode
//! against an operand stack, a call stack, a globals buffer and a heap.
//!
//! The semantics of one instruction is the spec function [`step_spec`] over
//! a ghost [`ExecState`]; the executable stepper is proved to follow it
//! exactly, and a whole run is the iteration [`run_n`] of that step.
//!
//! Floats never leave their bit patterns inside the engine. The handful of
//! operations that need real float arithmetic (float add, multiply, square
//! root, float32 widening and narrowing) are returned to the embedding host
//! as a [`FloatReq`]; the host computes the bits and hands them back through
//! [`VM::resume_float`]. Every other opcode, float comparisons and `abs`
//! included, is executed and verified here.

use vstd::prelude::*;
use vstd::bytes::{
    spec_u16_from_le_bytes, spec_u16_to_le_bytes, spec_u32_from_le_bytes, spec_u32_to_le_bytes,
    spec_u64_from_le_bytes, spec_u64_to_le_bytes,
};
use vstd::arithmetic::power::pow;
use crate::byte_vec::{splice, ByteVec};
use crate::bin_structs::{FuncRef, GlobRef};
use crate::float_bits::{
    f64_abs_bits, f64_eq_bits, f64_ge_bits, f64_gt_bits, f64_le_bits, f64_lt_bits, spec_f64_abs,
    spec_f64_eq, spec_f64_ge, spec_f64_gt, spec_f64_le, spec_f64_lt,
};
use crate::opcode::{spec_opcode_from_byte, Opcode};
use crate::stack::{Stack, STACK_CAPACITY};
use crate::bin_utils::{spec_first_nul, str_from_table};
use crate::image::{
    spec_code_section, spec_glob_data_section, spec_hdr_func_size, spec_hdr_glob_size,
    spec_image_wf, spec_parsed_func_ref, spec_parsed_glob_ref, spec_strtab, Image,
};
use crate::bin_structs::{FUNC_REF_SIZE, GLOB_REF_SIZE};
use vstd::utf8::{encode_utf8, valid_utf8};

verus! {

broadcast use crate::byte_vec::lemma_byte_vec_pos_nonneg, crate::stack::lemma_stack_wf_len;

/// Unary float operations the host computes on f64 bit patterns.
#[derive(Clone, Copy, Debug, PartialEq, Eq, Structural)]
pub enum FloatUn {
    Sqrt,
    Ceil,
    Floor,
    Trunc,
}

/// Binary float operations the host computes on f64 bit patterns.
#[derive(Clone, Copy, Debug, PartialEq, Eq, Structural)]
pub enum FloatBin {
    Add,
    Sub,
    Mul,
    Div,
    Pow,
}

/// A request the engine hands to the host: compute this on IEEE-754 bits
/// and answer through `resume_float`.
#[derive(Clone, Copy, Debug, PartialEq, Eq, Structural)]
pub enum FloatReq {
    /// Apply the operation to one f64 bit pattern; answer its f64 bits.
    Unary(FloatUn, u64),
    /// Apply the operation to two f64 bit patterns (left, right); answer
    /// the result's f64 bits.
    Binary(FloatBin, u64, u64),
    /// Widen an f32 bit pattern to f64; answer the f64 bits.
    Widen(u32),
    /// Narrow an f64 bit pattern to f32; answer the f32 bits (low 32).
    Narrow(u64),
}

/// Where the host's answer goes once it arrives.
#[derive(Clone, Copy, Debug, PartialEq, Eq, Structural)]
pub enum PendingSlot {
    /// Push the answered bits onto the operand stack.
    Push,
    /// Store the low 4 answered bytes into the globals buffer.
    StoreGlob { addr: u64 },
    /// Store the low 4 answered bytes into the heap.
    StoreHeap { addr: u64 },
}

/// What a finished (or paused) run reports to the embedder.
#[derive(Clone, Copy, Debug, PartialEq, Eq, Structural)]
pub enum Outcome {
    /// The function returned at the activation the run started from.
    Done,
    /// The engine needs a float computed; resume with its bits.
    Host(FloatReq),
    /// The step budget ran out; `resume` continues the same run.
    Pause,
}

/// What one executed instruction reports.
#[derive(Clone, Copy, Debug, PartialEq, Eq, Structural)]
pub enum StepOutcome {
    Progress,
    Returned,
    HostReq(FloatReq),
}

/// The width of a memory access.
#[derive(Clone, Copy, Debug, PartialEq, Eq, Structural)]
pub enum Width {
    W1,
    W2,
    W4,
    W8,
}

/// The mutable state of a run, as mathematical values.
#[verifier::ext_equal]
pub ghost struct ExecState {
    /// Program counter: a byte index into the code blob.
    pub pc: int,
    /// Operand stack, bottom first.
    pub stack: Seq<u64>,
    /// Call stack of saved program counters.
    pub calls: Seq<int>,
    /// The globals buffer.
    pub globs: Seq<u8>,
    /// The heap, logically appended to the globals.
    pub heap: Seq<u8>,
    /// Where a host answer will go, if one is owed.
    pub pending: Option<PendingSlot>,
}

/// The immutable surroundings of a run.
#[verifier::ext_equal]
pub ghost struct VmStatic {
    pub code: Seq<u8>,
    pub func_refs: Seq<FuncRef>,
    pub glob_refs: Seq<GlobRef>,
}

/// What one step of the engine does.
pub ghost enum StepRes {
    /// Keep running at the new state.
    Next(ExecState),
    /// A `Return` was executed (the caller's pc is restored when a frame
    /// existed); whether the run is done depends on the activation depth.
    Ret(ExecState),
    /// The engine owes the host a float computation.
    Host(FloatReq, ExecState),
    /// A runtime failure: the run stops with an error.
    Fail,
}

pub open spec fn spec_wlen(w: Width) -> int {
    match w {
        Width::W1 => 1,
        Width::W2 => 2,
        Width::W4 => 4,
        Width::W8 => 8,
    }
}

/// The little-endian value of `w` bytes at `p`, zero-extended to u64.
pub open spec fn spec_read_le(bytes: Seq<u8>, p: int, w: Width) -> u64 {
    match w {
        Width::W1 => bytes[p] as u64,
        Width::W2 => spec_u16_from_le_bytes(bytes.subrange(p, p + 2)) as u64,
        Width::W4 => spec_u32_from_le_bytes(bytes.subrange(p, p + 4)) as u64,
        Width::W8 => spec_u64_from_le_bytes(bytes.subrange(p, p + 8)),
    }
}

/// The `w` low bytes of `v`, little-endian.
pub open spec fn spec_wbytes(w: Width, v: u64) -> Seq<u8> {
    match w {
        Width::W1 => seq![v as u8],
        Width::W2 => spec_u16_to_le_bytes(v as u16),
        Width::W4 => spec_u32_to_le_bytes(v as u32),
        Width::W8 => spec_u64_to_le_bytes(v),
    }
}

/// The globals buffer or the heap.
pub open spec fn spec_region(s: ExecState, in_heap: bool) -> Seq<u8> {
    if in_heap {
        s.heap
    } else {
        s.globs
    }
}

/// `s` with the chosen region updated to hold the `w` low bytes of `v` at
/// `off`.
pub open spec fn spec_write_mem(s: ExecState, in_heap: bool, off: u64, w: Width, v: u64) -> ExecState {
    if in_heap {
        ExecState { heap: splice(s.heap, off as int, spec_wbytes(w, v)), ..s }
    } else {
        ExecState { globs: splice(s.globs, off as int, spec_wbytes(w, v)), ..s }
    }
}

/// Address routing: a flat address below the globals size reads the
/// globals; anything at or above it reads the heap at `addr - globs.len()`,
/// and beyond the heap it is a heap overflow (`None`).
pub open spec fn spec_route(s: ExecState, addr: u64) -> Option<(bool, u64)> {
    if (addr as int) < s.globs.len() {
        Some((false, addr))
    } else if addr as int - s.globs.len() < s.heap.len() {
        Some((true, (addr as int - s.globs.len()) as u64))
    } else {
        None
    }
}

/// The jump condition of a comparison opcode: these branch when the
/// *opposite* of the named relation holds, skipping the guarded body.
pub open spec fn spec_cmp_cond(op: Opcode, lhs: u64, rhs: u64) -> bool {
    match op {
        Opcode::I64Eq => lhs != rhs,
        Opcode::I64Ne => lhs == rhs,
        Opcode::I64LtS => (lhs as i64) >= (rhs as i64),
        Opcode::I64LtU => lhs >= rhs,
        Opcode::I64GtS => (lhs as i64) <= (rhs as i64),
        Opcode::I64GtU => lhs <= rhs,
        Opcode::I64LeS => (lhs as i64) > (rhs as i64),
        Opcode::I64LeU => lhs > rhs,
        Opcode::I64GeS => (lhs as i64) < (rhs as i64),
        Opcode::I64GeU => lhs < rhs,
        Opcode::F64Eq => !spec_f64_eq(lhs, rhs),
        Opcode::F64Ne => spec_f64_eq(lhs, rhs),
        Opcode::F64Lt => spec_f64_ge(lhs, rhs),
        Opcode::F64Gt => spec_f64_le(lhs, rhs),
        Opcode::F64Le => spec_f64_gt(lhs, rhs),
        Opcode::F64Ge => spec_f64_lt(lhs, rhs),
        _ => false,
    }
}

/// Absolute value reinterpreted through i64, with the one value that has no
/// positive counterpart left in place.
pub open spec fn spec_i64_abs(v: u64) -> u64 {
    if v == 0x8000_0000_0000_0000 {
        v
    } else if (v as i64) < 0 {
        (-(v as i64)) as u64
    } else {
        v
    }
}

/// The result of a binary integer opcode, `None` on a runtime failure
/// (division or remainder by zero, overflowing division, overflowing
/// exponentiation, a shift amount of 64 or more).
pub open spec fn spec_arith(op: Opcode, lhs: u64, rhs: u64) -> Option<u64> {
    match op {
        Opcode::I64Add => Some(lhs.wrapping_add(rhs)),
        Opcode::I64Sub => Some(lhs.wrapping_sub(rhs)),
        Opcode::I64Mul => Some(lhs.wrapping_mul(rhs)),
        Opcode::I64DivS => match (lhs as i64).checked_div(rhs as i64) {
            Some(q) => Some(q as u64),
            None => None,
        },
        Opcode::I64DivU => if rhs == 0 {
            None
        } else {
            Some(lhs / rhs)
        },
        Opcode::I64RemS => match (lhs as i64).checked_rem(rhs as i64) {
            Some(q) => Some(q as u64),
            None => None,
        },
        Opcode::I64RemU => if rhs == 0 {
            None
        } else {
            Some(lhs % rhs)
        },
        Opcode::I64Pow => if pow(lhs as int, rhs as nat) > u64::MAX {
            None
        } else {
            Some(pow(lhs as int, rhs as nat) as u64)
        },
        Opcode::I64And => Some(lhs & rhs),
        Opcode::I64Or => Some(lhs | rhs),
        Opcode::I64Xor => Some(lhs ^ rhs),
        Opcode::I64Shl => if rhs >= 64 {
            None
        } else {
            Some(lhs << rhs)
        },
        Opcode::I64ShrS => if rhs >= 64 {
            None
        } else {
            Some(((lhs as i64) >> rhs) as u64)
        },
        Opcode::I64ShrU => if rhs >= 64 {
            None
        } else {
            Some(lhs >> rhs)
        },
        Opcode::I64Rotl => {
            let r = rhs % 64;
            if r == 0 {
                Some(lhs)
            } else {
                Some((lhs << r) | (lhs >> (64 - r)))
            }
        },
        Opcode::I64Rotr => {
            let r = rhs % 64;
            if r == 0 {
                Some(lhs)
            } else {
                Some((lhs >> r) | (lhs << (64 - r)))
            }
        },
        _ => None,
    }
}

pub open spec fn spec_can_read(code: Seq<u8>, p: int, k: int) -> bool {
    p + k <= code.len()
}

pub open spec fn spec_imm_u32(code: Seq<u8>, p: int) -> u32 {
    spec_u32_from_le_bytes(code.subrange(p, p + 4))
}

pub open spec fn spec_imm_u64(code: Seq<u8>, p: int) -> u64 {
    spec_u64_from_le_bytes(code.subrange(p, p + 8))
}

/// Jump to `from + off`: branch immediates are relative to the program
/// counter after the immediate was read. A target past the end of the code
/// blob fails.
pub open spec fn spec_jump_to(st: VmStatic, s: ExecState, from: int, off: u64) -> StepRes {
    if from + off > st.code.len() {
        StepRes::Fail
    } else {
        StepRes::Next(ExecState { pc: from + off, ..s })
    }
}

/// Read a branch offset at `p1` and take the branch when `cond` holds.
pub open spec fn spec_branch(st: VmStatic, s: ExecState, p1: int, cond: bool) -> StepRes {
    if !spec_can_read(st.code, p1, 8) {
        StepRes::Fail
    } else {
        let off = spec_imm_u64(st.code, p1);
        let s2 = ExecState { pc: p1 + 8, ..s };
        if cond {
            spec_jump_to(st, s2, p1 + 8, off)
        } else {
            StepRes::Next(s2)
        }
    }
}

/// Read `w` bytes at `off` of the chosen region and push the value (or
/// hand an f32 pattern to the host for widening).
pub open spec fn spec_finish_load(s: ExecState, in_heap: bool, off: u64, w: Width, widen: bool) -> StepRes {
    if off + spec_wlen(w) > spec_region(s, in_heap).len() {
        StepRes::Fail
    } else {
        let v = spec_read_le(spec_region(s, in_heap), off as int, w);
        if widen {
            StepRes::Host(
                FloatReq::Widen(v as u32),
                ExecState { pending: Some(PendingSlot::Push), ..s },
            )
        } else if s.stack.len() >= STACK_CAPACITY {
            StepRes::Fail
        } else {
            StepRes::Next(ExecState { stack: s.stack.push(v), ..s })
        }
    }
}

/// Write the `w` low bytes of `v` at `off` of the chosen region (or hand
/// the f64 pattern to the host for narrowing; the store then happens when
/// the host answers).
pub open spec fn spec_finish_store(s: ExecState, in_heap: bool, off: u64, w: Width, narrow: bool, v: u64) -> StepRes {
    if narrow {
        let slot = if in_heap {
            PendingSlot::StoreHeap { addr: off }
        } else {
            PendingSlot::StoreGlob { addr: off }
        };
        StepRes::Host(FloatReq::Narrow(v), ExecState { pending: Some(slot), ..s })
    } else if off + spec_wlen(w) > spec_region(s, in_heap).len() {
        StepRes::Fail
    } else {
        StepRes::Next(spec_write_mem(s, in_heap, off, w, v))
    }
}

/// A direct load: the immediate names a global whose offset is read.
pub open spec fn spec_load_direct(st: VmStatic, s: ExecState, p1: int, w: Width, widen: bool) -> StepRes {
    if !spec_can_read(st.code, p1, 4) {
        StepRes::Fail
    } else {
        let gi = spec_imm_u32(st.code, p1) as int;
        if gi >= st.glob_refs.len() {
            StepRes::Fail
        } else {
            let s2 = ExecState { pc: p1 + 4, ..s };
            spec_finish_load(s2, false, st.glob_refs[gi].offset, w, widen)
        }
    }
}

/// An indirect load: the address is popped and routed between globals and
/// heap.
pub open spec fn spec_load_indirect(st: VmStatic, s: ExecState, p1: int, w: Width, widen: bool) -> StepRes {
    if s.stack.len() == 0 {
        StepRes::Fail
    } else {
        let addr = s.stack.last();
        let s2 = ExecState { pc: p1, stack: s.stack.drop_last(), ..s };
        match spec_route(s2, addr) {
            None => StepRes::Fail,
            Some((in_heap, off)) => spec_finish_load(s2, in_heap, off, w, widen),
        }
    }
}

/// A direct store: the immediate names a global; the value is popped.
pub open spec fn spec_store_direct(st: VmStatic, s: ExecState, p1: int, w: Width, narrow: bool) -> StepRes {
    if !spec_can_read(st.code, p1, 4) {
        StepRes::Fail
    } else {
        let gi = spec_imm_u32(st.code, p1) as int;
        if gi >= st.glob_refs.len() {
            StepRes::Fail
        } else if s.stack.len() == 0 {
            StepRes::Fail
        } else {
            let v = s.stack.last();
            let s2 = ExecState { pc: p1 + 4, stack: s.stack.drop_last(), ..s };
            spec_finish_store(s2, false, st.glob_refs[gi].offset, w, narrow, v)
        }
    }
}

/// An indirect store: the address is popped first, then the value.
pub open spec fn spec_store_indirect(st: VmStatic, s: ExecState, p1: int, w: Width, narrow: bool) -> StepRes {
    if s.stack.len() < 2 {
        StepRes::Fail
    } else {
        let addr = s.stack.last();
        let v = s.stack.drop_last().last();
        let s2 = ExecState { pc: p1, stack: s.stack.drop_last().drop_last(), ..s };
        match spec_route(s2, addr) {
            None => StepRes::Fail,
            Some((in_heap, off)) => spec_finish_store(s2, in_heap, off, w, narrow, v),
        }
    }
}

/// One instruction, dispatched after the opcode byte at `s.pc` decoded to
/// `op`.
pub open spec fn step_op_spec(st: VmStatic, s: ExecState, op: Opcode) -> StepRes {
    let p1 = s.pc + 1;
    match op {
        Opcode::Nop => StepRes::Next(ExecState { pc: p1, ..s }),
        Opcode::Return => if s.calls.len() == 0 {
            StepRes::Ret(ExecState { pc: p1, ..s })
        } else {
            StepRes::Ret(ExecState { pc: s.calls.last(), calls: s.calls.drop_last(), ..s })
        },
        Opcode::Call => if !spec_can_read(st.code, p1, 4) {
            StepRes::Fail
        } else {
            let fi = spec_imm_u32(st.code, p1) as int;
            if fi >= st.func_refs.len() {
                StepRes::Fail
            } else if st.func_refs[fi].offset > st.code.len() {
                StepRes::Fail
            } else {
                StepRes::Next(
                    ExecState {
                        pc: st.func_refs[fi].offset as int,
                        calls: s.calls.push(p1 + 4),
                        ..s
                    },
                )
            }
        },
        Opcode::Jump => if !spec_can_read(st.code, p1, 8) {
            StepRes::Fail
        } else {
            spec_jump_to(st, s, p1 + 8, spec_imm_u64(st.code, p1))
        },
        Opcode::JumpC => if s.stack.len() == 0 {
            StepRes::Fail
        } else {
            spec_jump_to(
                st,
                ExecState { stack: s.stack.drop_last(), ..s },
                p1,
                s.stack.last(),
            )
        },
        Opcode::Pop => if s.stack.len() == 0 {
            StepRes::Fail
        } else {
            StepRes::Next(ExecState { pc: p1, stack: s.stack.drop_last(), ..s })
        },
        Opcode::StackGet => if !spec_can_read(st.code, p1, 8) {
            StepRes::Fail
        } else {
            let off = spec_imm_u64(st.code, p1);
            if off >= s.stack.len() {
                StepRes::Fail
            } else if s.stack.len() >= STACK_CAPACITY {
                StepRes::Fail
            } else {
                StepRes::Next(
                    ExecState {
                        pc: p1 + 8,
                        stack: s.stack.push(s.stack[s.stack.len() - 1 - off]),
                        ..s
                    },
                )
            }
        },
        Opcode::StackSet => if s.stack.len() == 0 {
            StepRes::Fail
        } else if !spec_can_read(st.code, p1, 8) {
            StepRes::Fail
        } else {
            let off = spec_imm_u64(st.code, p1);
            if off >= s.stack.len() {
                StepRes::Fail
            } else {
                StepRes::Next(
                    ExecState {
                        pc: p1 + 8,
                        stack: s.stack.update(s.stack.len() - 1 - off, s.stack.last()),
                        ..s
                    },
                )
            }
        },
        Opcode::I64Const | Opcode::F64Const => if !spec_can_read(st.code, p1, 8) {
            StepRes::Fail
        } else if s.stack.len() >= STACK_CAPACITY {
            StepRes::Fail
        } else {
            StepRes::Next(
                ExecState { pc: p1 + 8, stack: s.stack.push(spec_imm_u64(st.code, p1)), ..s },
            )
        },
        Opcode::I8Load => spec_load_direct(st, s, p1, Width::W1, false),
        Opcode::I16Load => spec_load_direct(st, s, p1, Width::W2, false),
        Opcode::I32Load => spec_load_direct(st, s, p1, Width::W4, false),
        Opcode::I64Load => spec_load_direct(st, s, p1, Width::W8, false),
        Opcode::F32Load => spec_load_direct(st, s, p1, Width::W4, true),
        Opcode::F64Load => spec_load_direct(st, s, p1, Width::W8, false),
        Opcode::I8LoadC => spec_load_indirect(st, s, p1, Width::W1, false),
        Opcode::I16LoadC => spec_load_indirect(st, s, p1, Width::W2, false),
        Opcode::I32LoadC => spec_load_indirect(st, s, p1, Width::W4, false),
        Opcode::I64LoadC => spec_load_indirect(st, s, p1, Width::W8, false),
        Opcode::F32LoadC => spec_load_indirect(st, s, p1, Width::W4, true),
        Opcode::F64LoadC => spec_load_indirect(st, s, p1, Width::W8, false),
        Opcode::I8Store => spec_store_direct(st, s, p1, Width::W1, false),
        Opcode::I16Store => spec_store_direct(st, s, p1, Width::W2, false),
        Opcode::I32Store => spec_store_direct(st, s, p1, Width::W4, false),
        Opcode::I64Store => spec_store_direct(st, s, p1, Width::W8, false),
        Opcode::F32Store => spec_store_direct(st, s, p1, Width::W4, true),
        Opcode::F64Store => spec_store_direct(st, s, p1, Width::W8, false),
        Opcode::I8StoreC => spec_store_indirect(st, s, p1, Width::W1, false),
        Opcode::I16StoreC => spec_store_indirect(st, s, p1, Width::W2, false),
        Opcode::I32StoreC => spec_store_indirect(st, s, p1, Width::W4, false),
        Opcode::I64StoreC => spec_store_indirect(st, s, p1, Width::W8, false),
        Opcode::F32StoreC => spec_store_indirect(st, s, p1, Width::W4, true),
        Opcode::F64StoreC => spec_store_indirect(st, s, p1, Width::W8, false),
        Opcode::I64Eqz => if s.stack.len() == 0 {
            StepRes::Fail
        } else {
            spec_branch(
                st,
                ExecState { stack: s.stack.drop_last(), ..s },
                p1,
                s.stack.last() != 0,
            )
        },
        Opcode::I64Eq | Opcode::I64Ne | Opcode::I64LtS | Opcode::I64LtU | Opcode::I64GtS
        | Opcode::I64GtU | Opcode::I64LeS | Opcode::I64LeU | Opcode::I64GeS | Opcode::I64GeU
        | Opcode::F64Eq | Opcode::F64Ne | Opcode::F64Lt | Opcode::F64Gt | Opcode::F64Le
        | Opcode::F64Ge => if s.stack.len() < 2 {
            StepRes::Fail
        } else {
            let lhs = s.stack.last();
            let rhs = s.stack.drop_last().last();
            spec_branch(
                st,
                ExecState { stack: s.stack.drop_last().drop_last(), ..s },
                p1,
                spec_cmp_cond(op, lhs, rhs),
            )
        },
        Opcode::I64Add | Opcode::I64Sub | Opcode::I64Mul | Opcode::I64DivS | Opcode::I64DivU
        | Opcode::I64RemS | Opcode::I64RemU | Opcode::I64Pow | Opcode::I64And | Opcode::I64Or
        | Opcode::I64Xor | Opcode::I64Shl | Opcode::I64ShrS | Opcode::I64ShrU | Opcode::I64Rotl
        | Opcode::I64Rotr => if s.stack.len() < 2 {
            StepRes::Fail
        } else {
            let lhs = s.stack.last();
            let rhs = s.stack.drop_last().last();
            match spec_arith(op, lhs, rhs) {
                None => StepRes::Fail,
                Some(v) => StepRes::Next(
                    ExecState {
                        pc: p1,
                        stack: s.stack.drop_last().drop_last().push(v),
                        ..s
                    },
                ),
            }
        },
        Opcode::I64Abs => if s.stack.len() == 0 {
            StepRes::Fail
        } else {
            StepRes::Next(
                ExecState {
                    pc: p1,
                    stack: s.stack.drop_last().push(spec_i64_abs(s.stack.last())),
                    ..s
                },
            )
        },
        Opcode::F64Abs => if s.stack.len() == 0 {
            StepRes::Fail
        } else {
            StepRes::Next(
                ExecState {
                    pc: p1,
                    stack: s.stack.drop_last().push(spec_f64_abs(s.stack.last())),
                    ..s
                },
            )
        },
        Opcode::I64Sqrt | Opcode::F64Sqrt | Opcode::F64Ceil | Opcode::F64Floor
        | Opcode::F64Trunc => if s.stack.len() == 0 {
            StepRes::Fail
        } else {
            let un = match op {
                Opcode::F64Ceil => FloatUn::Ceil,
                Opcode::F64Floor => FloatUn::Floor,
                Opcode::F64Trunc => FloatUn::Trunc,
                _ => FloatUn::Sqrt,
            };
            StepRes::Host(
                FloatReq::Unary(un, s.stack.last()),
                ExecState {
                    pc: p1,
                    stack: s.stack.drop_last(),
                    pending: Some(PendingSlot::Push),
                    ..s
                },
            )
        },
        Opcode::F64Add | Opcode::F64Sub | Opcode::F64Mul | Opcode::F64Div | Opcode::F64Pow => if s.stack.len() < 2 {
            StepRes::Fail
        } else {
            let bin = match op {
                Opcode::F64Add => FloatBin::Add,
                Opcode::F64Sub => FloatBin::Sub,
                Opcode::F64Mul => FloatBin::Mul,
                Opcode::F64Div => FloatBin::Div,
                _ => FloatBin::Pow,
            };
            StepRes::Host(
                FloatReq::Binary(bin, s.stack.last(), s.stack.drop_last().last()),
                ExecState {
                    pc: p1,
                    stack: s.stack.drop_last().drop_last(),
                    pending: Some(PendingSlot::Push),
                    ..s
                },
            )
        },
        Opcode::F64Nearest => StepRes::Fail,
        Opcode::Label => StepRes::Fail,
    }
}

/// One instruction of the engine: decode the byte at the program counter
/// and dispatch. This is the semantics the executable stepper follows.
pub open spec fn step_spec(st: VmStatic, s: ExecState) -> StepRes {
    if !(0 <= s.pc < st.code.len()) {
        StepRes::Fail
    } else {
        match spec_opcode_from_byte(st.code[s.pc]) {
            None => StepRes::Fail,
            Some(op) => step_op_spec(st, s, op),
        }
    }
}

/// What handing the host's answered bits back to the engine does.
pub open spec fn resume_spec(s: ExecState, bits: u64) -> StepRes {
    match s.pending {
        None => StepRes::Fail,
        Some(PendingSlot::Push) => {
            let s2 = ExecState { pending: None, ..s };
            if s2.stack.len() >= STACK_CAPACITY {
                StepRes::Fail
            } else {
                StepRes::Next(ExecState { stack: s2.stack.push(bits), ..s2 })
            }
        },
        Some(PendingSlot::StoreGlob { addr }) => {
            let s2 = ExecState { pending: None, ..s };
            if addr + 4 > s2.globs.len() {
                StepRes::Fail
            } else {
                StepRes::Next(spec_write_mem(s2, false, addr, Width::W4, bits))
            }
        },
        Some(PendingSlot::StoreHeap { addr }) => {
            let s2 = ExecState { pending: None, ..s };
            if addr + 4 > s2.heap.len() {
                StepRes::Fail
            } else {
                StepRes::Next(spec_write_mem(s2, true, addr, Width::W4, bits))
            }
        },
    }
}

/// How a run can stand after some number of steps.
pub ghost enum RunOut {
    /// Still stepping; the current state.
    Running(ExecState),
    /// A `Return` brought the call stack back to the activation the run
    /// started from.
    Done(ExecState),
    /// Paused for the host.
    Host(FloatReq, ExecState),
    /// A runtime error stopped the run.
    Fail,
}

/// Iterate `step_spec` for `fuel` steps from `s`, stopping early when the
/// run finishes (call stack back at depth `base`), pauses or fails.
pub open spec fn run_n(st: VmStatic, s: ExecState, base: int, fuel: nat) -> RunOut
    decreases fuel,
{
    if fuel == 0 {
        RunOut::Running(s)
    } else {
        match step_spec(st, s) {
            StepRes::Next(s2) => run_n(st, s2, base, (fuel - 1) as nat),
            StepRes::Ret(s2) => if s2.calls.len() <= base {
                RunOut::Done(s2)
            } else {
                run_n(st, s2, base, (fuel - 1) as nat)
            },
            StepRes::Host(req, s2) => RunOut::Host(req, s2),
            StepRes::Fail => RunOut::Fail,
        }
    }
}

/// Extending a still-running iteration by one step applies `step_spec` to
/// its current state.
pub proof fn lemma_run_n_snoc(st: VmStatic, s0: ExecState, base: int, n: nat)
    requires
        run_n(st, s0, base, n) is Running,
    ensures
        run_n(st, s0, base, n + 1) == ({
            let cur = run_n(st, s0, base, n)->Running_0;
            match step_spec(st, cur) {
                StepRes::Next(s2) => RunOut::Running(s2),
                StepRes::Ret(s2) => if s2.calls.len() <= base {
                    RunOut::Done(s2)
                } else {
                    RunOut::Running(s2)
                },
                StepRes::Host(req, s2) => RunOut::Host(req, s2),
                StepRes::Fail => RunOut::Fail,
            }
        }),
    decreases n,
{
    reveal_with_fuel(run_n, 3);
    if n > 0 {
        match step_spec(st, s0) {
            StepRes::Next(s1) => {
                lemma_run_n_snoc(st, s1, base, (n - 1) as nat);
            },
            StepRes::Ret(s1) => {
                if s1.calls.len() > base {
                    lemma_run_n_snoc(st, s1, base, (n - 1) as nat);
                }
            },
            _ => {},
        }
    }
}


/// Exact u64 exponentiation: `Some` exactly when the power fits.
fn pow_u64(base: u64, exp: u64) -> (r: Option<u64>)
    ensures
        ({
            let p = pow(base as int, exp as nat);
            match r {
                Some(v) => p <= u64::MAX && v == p,
                None => p > u64::MAX,
            }
        }),
{
    if exp == 0 {
        proof {
            vstd::arithmetic::power::lemma_pow0(base as int);
        }
        return Some(1);
    }
    if base == 0 {
        proof {
            vstd::arithmetic::power::lemma0_pow(exp as nat);
        }
        return Some(0);
    }
    if base == 1 {
        proof {
            vstd::arithmetic::power::lemma1_pow(exp as nat);
        }
        return Some(1);
    }
    let mut acc: u64 = 1;
    let mut i: u64 = 0;
    proof {
        vstd::arithmetic::power::lemma_pow0(base as int);
    }
    while i < exp
        invariant
            i <= exp,
            base >= 2,
            acc == pow(base as int, i as nat),
        decreases exp - i,
    {
        proof {
            vstd::arithmetic::power::lemma_pow1(base as int);
            vstd::arithmetic::power::lemma_pow_adds(base as int, i as nat, 1nat);
            assert(pow(base as int, (i + 1) as nat) == pow(base as int, i as nat) * base);
        }
        match acc.checked_mul(base) {
            Some(a) => {
                acc = a;
            },
            None => {
                proof {
                    vstd::arithmetic::power::lemma_pow_increases(
                        base as nat,
                        (i + 1) as nat,
                        exp as nat,
                    );
                }
                return None;
            },
        }
        i = i + 1;
    }
    Some(acc)
}

/// Absolute value through i64, leaving the one value without a positive
/// counterpart in place.
fn i64_abs(v: u64) -> (r: u64)
    ensures
        r == spec_i64_abs(v),
{
    if v == 0x8000_0000_0000_0000 {
        v
    } else {
        proof {
            assert(v != 0x8000_0000_0000_0000u64 ==> (v as i64) != -0x8000_0000_0000_0000i64)
                by (bit_vector);
        }
        let x = v as i64;
        if x < 0 {
            (-x) as u64
        } else {
            v
        }
    }
}

/// The jump condition of a comparison opcode.
fn cmp_cond(op: Opcode, lhs: u64, rhs: u64) -> (r: bool)
    ensures
        r == spec_cmp_cond(op, lhs, rhs),
{
    match op {
        Opcode::I64Eq => lhs != rhs,
        Opcode::I64Ne => lhs == rhs,
        Opcode::I64LtS => (lhs as i64) >= (rhs as i64),
        Opcode::I64LtU => lhs >= rhs,
        Opcode::I64GtS => (lhs as i64) <= (rhs as i64),
        Opcode::I64GtU => lhs <= rhs,
        Opcode::I64LeS => (lhs as i64) > (rhs as i64),
        Opcode::I64LeU => lhs > rhs,
        Opcode::I64GeS => (lhs as i64) < (rhs as i64),
        Opcode::I64GeU => lhs < rhs,
        Opcode::F64Eq => !f64_eq_bits(lhs, rhs),
        Opcode::F64Ne => f64_eq_bits(lhs, rhs),
        Opcode::F64Lt => f64_ge_bits(lhs, rhs),
        Opcode::F64Gt => f64_le_bits(lhs, rhs),
        Opcode::F64Le => f64_gt_bits(lhs, rhs),
        Opcode::F64Ge => f64_lt_bits(lhs, rhs),
        _ => false,
    }
}

/// The result of a binary integer opcode, or the runtime error it raises.
fn arith_result(op: Opcode, lhs: u64, rhs: u64) -> (r: Result<u64, String>)
    ensures
        match spec_arith(op, lhs, rhs) {
            Some(v) => r == Ok::<u64, String>(v),
            None => r is Err,
        },
{
    match op {
        Opcode::I64Add => Ok(lhs.wrapping_add(rhs)),
        Opcode::I64Sub => Ok(lhs.wrapping_sub(rhs)),
        Opcode::I64Mul => Ok(lhs.wrapping_mul(rhs)),
        Opcode::I64DivS => match (lhs as i64).checked_div(rhs as i64) {
            Some(q) => Ok(q as u64),
            None => Err(
                if rhs == 0 {
                    String::from_str("Division by zero")
                } else {
                    String::from_str("Division overflow")
                },
            ),
        },
        Opcode::I64DivU => if rhs == 0 {
            Err(String::from_str("Division by zero"))
        } else {
            Ok(lhs / rhs)
        },
        Opcode::I64RemS => match (lhs as i64).checked_rem(rhs as i64) {
            Some(q) => Ok(q as u64),
            None => Err(
                if rhs == 0 {
                    String::from_str("Division by zero")
                } else {
                    String::from_str("Division overflow")
                },
            ),
        },
        Opcode::I64RemU => if rhs == 0 {
            Err(String::from_str("Division by zero"))
        } else {
            Ok(lhs % rhs)
        },
        Opcode::I64Pow => match pow_u64(lhs, rhs) {
            Some(v) => Ok(v),
            None => Err(String::from_str("Integer overflow")),
        },
        Opcode::I64And => Ok(lhs & rhs),
        Opcode::I64Or => Ok(lhs | rhs),
        Opcode::I64Xor => Ok(lhs ^ rhs),
        Opcode::I64Shl => if rhs >= 64 {
            Err(String::from_str("Invalid shift amount"))
        } else {
            Ok(lhs << rhs)
        },
        Opcode::I64ShrS => if rhs >= 64 {
            Err(String::from_str("Invalid shift amount"))
        } else {
            Ok(((lhs as i64) >> rhs) as u64)
        },
        Opcode::I64ShrU => if rhs >= 64 {
            Err(String::from_str("Invalid shift amount"))
        } else {
            Ok(lhs >> rhs)
        },
        Opcode::I64Rotl => {
            let r0 = rhs % 64;
            if r0 == 0 {
                Ok(lhs)
            } else {
                Ok((lhs << r0) | (lhs >> (64 - r0)))
            }
        },
        Opcode::I64Rotr => {
            let r0 = rhs % 64;
            if r0 == 0 {
                Ok(lhs)
            } else {
                Ok((lhs >> r0) | (lhs << (64 - r0)))
            }
        },
        _ => Err(String::from_str("Unimplemented instruction")),
    }
}

pub struct VM {
    code: ByteVec,
    code_size: usize,
    glob_data: ByteVec,
    glob_data_size: usize,
    func_refs: Vec<FuncRef>,
    glob_refs: Vec<GlobRef>,
    func_names: Vec<String>,
    glob_names: Vec<String>,
    stack: Stack,
    heap: ByteVec,
    heap_size: u32,
    callstack: Vec<usize>,
    pending: Option<PendingSlot>,
    run_base: usize,
}

impl VM {
    /// The structural invariant every loaded machine keeps.
    pub closed spec fn inv(&self) -> bool {
        &&& self.stack.wf()
        &&& self.code.bytes().len() <= u32::MAX
        &&& self.glob_data.bytes().len() <= u32::MAX
        &&& self.glob_data_size == self.glob_data.bytes().len()
        &&& self.code_size == self.code.bytes().len()
        &&& self.heap.bytes().len() == self.heap_size
        &&& self.func_names@.len() == self.func_refs@.len()
        &&& self.glob_names@.len() == self.glob_refs@.len()
    }

    /// The immutable surroundings of a run.
    pub closed spec fn statics(&self) -> VmStatic {
        VmStatic {
            code: self.code.bytes(),
            func_refs: self.func_refs@,
            glob_refs: self.glob_refs@,
        }
    }

    /// The mutable state of the run, as mathematical values.
    pub closed spec fn state(&self) -> ExecState {
        ExecState {
            pc: self.code.pos(),
            stack: self.stack@,
            calls: self.callstack@.map_values(|x: usize| x as int),
            globs: self.glob_data.bytes(),
            heap: self.heap.bytes(),
            pending: self.pending,
        }
    }

    /// The call-stack depth the current run started from.
    pub closed spec fn base(&self) -> int {
        self.run_base as int
    }

    /// The function names, parallel to the function table.
    pub closed spec fn names(&self) -> Seq<Seq<char>> {
        self.func_names@.map_values(|s: String| s@)
    }

    /// The global names, parallel to the global table.
    pub closed spec fn glob_names_view(&self) -> Seq<Seq<char>> {
        self.glob_names@.map_values(|s: String| s@)
    }

    /// Route a flat address between the globals buffer and the heap.
    fn route(&self, addr: u64) -> (r: Result<(bool, u64), String>)
        requires
            self.inv(),
        ensures
            match spec_route(self.state(), addr) {
                Some(t) => r == Ok::<(bool, u64), String>(t),
                None => r is Err,
            },
    {
        if addr < self.glob_data_size as u64 {
            Ok((false, addr))
        } else {
            let rel = addr - self.glob_data_size as u64;
            if rel >= self.heap_size as u64 {
                Err(String::from_str("Heap overflow"))
            } else {
                Ok((true, rel))
            }
        }
    }

    /// Read `w` bytes little-endian at `off` of the globals or the heap.
    fn mem_read(&mut self, in_heap: bool, off: u64, w: Width) -> (r: Result<u64, String>)
        requires
            old(self).inv(),
        ensures
            final(self).inv(),
            final(self).statics() == old(self).statics(),
            final(self).state() == old(self).state(),
            final(self).base() == old(self).base(),
            final(self).names() == old(self).names(),
            final(self).glob_names_view() == old(self).glob_names_view(),
            r is Ok <==> off + spec_wlen(w) <= spec_region(old(self).state(), in_heap).len(),
            r is Ok ==> r == Ok::<u64, String>(
                spec_read_le(spec_region(old(self).state(), in_heap), off as int, w),
            ),
    {
        if in_heap {
            if off > self.heap.len() as u64 {
                return Err(String::from_str("Index out of bounds"));
            }
            self.heap.set_current_byte_idx(off as usize);
            let v = match w {
                Width::W1 => self.heap.read_u8()? as u64,
                Width::W2 => self.heap.read_u16()? as u64,
                Width::W4 => self.heap.read_u32()? as u64,
                Width::W8 => self.heap.read_u64()?,
            };
            Ok(v)
        } else {
            if off > self.glob_data.len() as u64 {
                return Err(String::from_str("Index out of bounds"));
            }
            self.glob_data.set_current_byte_idx(off as usize);
            let v = match w {
                Width::W1 => self.glob_data.read_u8()? as u64,
                Width::W2 => self.glob_data.read_u16()? as u64,
                Width::W4 => self.glob_data.read_u32()? as u64,
                Width::W8 => self.glob_data.read_u64()?,
            };
            Ok(v)
        }
    }

    /// Write the `w` low bytes of `v` little-endian at `off` of the globals
    /// or the heap.
    fn mem_write(&mut self, in_heap: bool, off: u64, w: Width, v: u64) -> (r: Result<(), String>)
        requires
            old(self).inv(),
        ensures
            final(self).inv(),
            final(self).statics() == old(self).statics(),
            final(self).base() == old(self).base(),
            final(self).names() == old(self).names(),
            final(self).glob_names_view() == old(self).glob_names_view(),
            r is Ok <==> off + spec_wlen(w) <= spec_region(old(self).state(), in_heap).len(),
            r is Ok ==> final(self).state() == spec_write_mem(old(self).state(), in_heap, off, w, v),
            r is Err ==> final(self).state() == old(self).state(),
    {
        proof {
            vstd::bytes::lemma_auto_spec_u16_to_from_le_bytes();
            vstd::bytes::lemma_auto_spec_u32_to_from_le_bytes();
            vstd::bytes::lemma_auto_spec_u64_to_from_le_bytes();
        }
        if in_heap {
            if off > self.heap.len() as u64 {
                return Err(String::from_str("Index out of bounds"));
            }
            self.heap.set_current_byte_idx(off as usize);
            match w {
                Width::W1 => {
                    self.heap.write_u8(v as u8)?;
                    proof {
                        assert(self.heap.bytes() =~= splice(
                            old(self).heap.bytes(),
                            off as int,
                            spec_wbytes(w, v),
                        ));
                    }
                },
                Width::W2 => self.heap.write_u16(v as u16)?,
                Width::W4 => self.heap.write_u32(v as u32)?,
                Width::W8 => self.heap.write_u64(v)?,
            }
            Ok(())
        } else {
            if off > self.glob_data.len() as u64 {
                return Err(String::from_str("Index out of bounds"));
            }
            self.glob_data.set_current_byte_idx(off as usize);
            match w {
                Width::W1 => {
                    self.glob_data.write_u8(v as u8)?;
                    proof {
                        assert(self.glob_data.bytes() =~= splice(
                            old(self).glob_data.bytes(),
                            off as int,
                            spec_wbytes(w, v),
                        ));
                    }
                },
                Width::W2 => self.glob_data.write_u16(v as u16)?,
                Width::W4 => self.glob_data.write_u32(v as u32)?,
                Width::W8 => self.glob_data.write_u64(v)?,
            }
            Ok(())
        }
    }
}


impl VM {
    /// Finish a load once the region and offset are routed: push the value,
    /// or hand an f32 pattern to the host for widening.
    fn finish_load(&mut self, in_heap: bool, off: u64, w: Width, widen: bool) -> (r: Result<
        StepOutcome,
        String,
    >)
        requires
            old(self).inv(),
        ensures
            final(self).inv(),
            final(self).statics() == old(self).statics(),
            final(self).base() == old(self).base(),
            final(self).names() == old(self).names(),
            final(self).glob_names_view() == old(self).glob_names_view(),
            r is Err ==> final(self).state().globs == old(self).state().globs
                && final(self).state().heap == old(self).state().heap
                && final(self).state().calls == old(self).state().calls,
            match spec_finish_load(old(self).state(), in_heap, off, w, widen) {
                StepRes::Next(s2) => r == Ok::<StepOutcome, String>(StepOutcome::Progress)
                    && final(self).state() == s2,
                StepRes::Host(req, s2) => r == Ok::<StepOutcome, String>(StepOutcome::HostReq(req))
                    && final(self).state() == s2,
                StepRes::Fail => r is Err,
                StepRes::Ret(_) => false,
            },
    {
        let v = self.mem_read(in_heap, off, w)?;
        if widen {
            self.pending = Some(PendingSlot::Push);
            Ok(StepOutcome::HostReq(FloatReq::Widen(v as u32)))
        } else {
            self.stack.push(v)?;
            Ok(StepOutcome::Progress)
        }
    }

    /// Finish a store once the region and offset are routed: write the low
    /// bytes, or hand the f64 pattern to the host for narrowing (the store
    /// then happens when the host answers).
    fn finish_store(&mut self, in_heap: bool, off: u64, w: Width, narrow: bool, v: u64) -> (r:
        Result<StepOutcome, String>)
        requires
            old(self).inv(),
        ensures
            final(self).inv(),
            final(self).statics() == old(self).statics(),
            final(self).base() == old(self).base(),
            final(self).names() == old(self).names(),
            final(self).glob_names_view() == old(self).glob_names_view(),
            r is Err ==> final(self).state().globs == old(self).state().globs
                && final(self).state().heap == old(self).state().heap
                && final(self).state().calls == old(self).state().calls,
            match spec_finish_store(old(self).state(), in_heap, off, w, narrow, v) {
                StepRes::Next(s2) => r == Ok::<StepOutcome, String>(StepOutcome::Progress)
                    && final(self).state() == s2,
                StepRes::Host(req, s2) => r == Ok::<StepOutcome, String>(StepOutcome::HostReq(req))
                    && final(self).state() == s2,
                StepRes::Fail => r is Err,
                StepRes::Ret(_) => false,
            },
    {
        if narrow {
            self.pending = Some(
                if in_heap {
                    PendingSlot::StoreHeap { addr: off }
                } else {
                    PendingSlot::StoreGlob { addr: off }
                },
            );
            Ok(StepOutcome::HostReq(FloatReq::Narrow(v)))
        } else {
            self.mem_write(in_heap, off, w, v)?;
            Ok(StepOutcome::Progress)
        }
    }

    /// Set the program counter `offset` bytes past its current place.
    fn jump_by(&mut self, offset: u64) -> (r: Result<(), String>)
        requires
            old(self).inv(),
            old(self).state().pc <= old(self).statics().code.len(),
        ensures
            final(self).inv(),
            final(self).statics() == old(self).statics(),
            final(self).base() == old(self).base(),
            final(self).names() == old(self).names(),
            final(self).glob_names_view() == old(self).glob_names_view(),
            match spec_jump_to(
                old(self).statics(),
                old(self).state(),
                old(self).state().pc,
                offset,
            ) {
                StepRes::Next(s2) => r is Ok && final(self).state() == s2,
                StepRes::Fail => r is Err && final(self).state() == old(self).state(),
                _ => false,
            },
    {
        let cur = self.code.get_current_byte_idx();
        let n = self.code.len();
        if offset > (n - cur) as u64 {
            return Err(String::from_str("Index out of bounds"));
        }
        self.code.set_current_byte_idx(cur + offset as usize);
        Ok(())
    }

    /// Read a branch offset and take the branch when `cond` holds.
    fn do_branch(&mut self, cond: bool) -> (r: Result<(), String>)
        requires
            old(self).inv(),
        ensures
            final(self).inv(),
            final(self).statics() == old(self).statics(),
            final(self).base() == old(self).base(),
            final(self).names() == old(self).names(),
            final(self).glob_names_view() == old(self).glob_names_view(),
            r is Err ==> final(self).state().globs == old(self).state().globs
                && final(self).state().heap == old(self).state().heap
                && final(self).state().calls == old(self).state().calls,
            match spec_branch(
                old(self).statics(),
                old(self).state(),
                old(self).state().pc,
                cond,
            ) {
                StepRes::Next(s2) => r is Ok && final(self).state() == s2,
                StepRes::Fail => r is Err,
                _ => false,
            },
    {
        let offset = self.code.read_u64()?;
        if cond {
            self.jump_by(offset)?;
        }
        Ok(())
    }

    /// A direct load: the immediate names a global whose offset is read.
    fn exec_load_direct(&mut self, w: Width, widen: bool) -> (r: Result<StepOutcome, String>)
        requires
            old(self).inv(),
        ensures
            final(self).inv(),
            final(self).statics() == old(self).statics(),
            final(self).base() == old(self).base(),
            final(self).names() == old(self).names(),
            final(self).glob_names_view() == old(self).glob_names_view(),
            r is Err ==> final(self).state().globs == old(self).state().globs
                && final(self).state().heap == old(self).state().heap
                && final(self).state().calls == old(self).state().calls,
            match spec_load_direct(
                old(self).statics(),
                old(self).state(),
                old(self).state().pc,
                w,
                widen,
            ) {
                StepRes::Next(s2) => r == Ok::<StepOutcome, String>(StepOutcome::Progress)
                    && final(self).state() == s2,
                StepRes::Host(req, s2) => r == Ok::<StepOutcome, String>(StepOutcome::HostReq(req))
                    && final(self).state() == s2,
                StepRes::Fail => r is Err,
                StepRes::Ret(_) => false,
            },
    {
        let gi = self.code.read_u32()?;
        if gi as usize >= self.glob_refs.len() {
            return Err(String::from_str("Unexpected glob idx"));
        }
        let goff = self.glob_refs[gi as usize].offset;
        self.finish_load(false, goff, w, widen)
    }

    /// An indirect load: the address is popped and routed.
    fn exec_load_indirect(&mut self, w: Width, widen: bool) -> (r: Result<StepOutcome, String>)
        requires
            old(self).inv(),
        ensures
            final(self).inv(),
            final(self).statics() == old(self).statics(),
            final(self).base() == old(self).base(),
            final(self).names() == old(self).names(),
            final(self).glob_names_view() == old(self).glob_names_view(),
            r is Err ==> final(self).state().globs == old(self).state().globs
                && final(self).state().heap == old(self).state().heap
                && final(self).state().calls == old(self).state().calls,
            match spec_load_indirect(
                old(self).statics(),
                old(self).state(),
                old(self).state().pc,
                w,
                widen,
            ) {
                StepRes::Next(s2) => r == Ok::<StepOutcome, String>(StepOutcome::Progress)
                    && final(self).state() == s2,
                StepRes::Host(req, s2) => r == Ok::<StepOutcome, String>(StepOutcome::HostReq(req))
                    && final(self).state() == s2,
                StepRes::Fail => r is Err,
                StepRes::Ret(_) => false,
            },
    {
        let addr = self.stack.pop()?;
        let (in_heap, off) = self.route(addr)?;
        self.finish_load(in_heap, off, w, widen)
    }

    /// A direct store: the immediate names a global; the value is popped.
    fn exec_store_direct(&mut self, w: Width, narrow: bool) -> (r: Result<StepOutcome, String>)
        requires
            old(self).inv(),
        ensures
            final(self).inv(),
            final(self).statics() == old(self).statics(),
            final(self).base() == old(self).base(),
            final(self).names() == old(self).names(),
            final(self).glob_names_view() == old(self).glob_names_view(),
            r is Err ==> final(self).state().globs == old(self).state().globs
                && final(self).state().heap == old(self).state().heap
                && final(self).state().calls == old(self).state().calls,
            match spec_store_direct(
                old(self).statics(),
                old(self).state(),
                old(self).state().pc,
                w,
                narrow,
            ) {
                StepRes::Next(s2) => r == Ok::<StepOutcome, String>(StepOutcome::Progress)
                    && final(self).state() == s2,
                StepRes::Host(req, s2) => r == Ok::<StepOutcome, String>(StepOutcome::HostReq(req))
                    && final(self).state() == s2,
                StepRes::Fail => r is Err,
                StepRes::Ret(_) => false,
            },
    {
        let gi = self.code.read_u32()?;
        if gi as usize >= self.glob_refs.len() {
            return Err(String::from_str("Unexpected glob idx"));
        }
        let goff = self.glob_refs[gi as usize].offset;
        let v = self.stack.pop()?;
        self.finish_store(false, goff, w, narrow, v)
    }

    /// An indirect store: the address is popped first, then the value.
    fn exec_store_indirect(&mut self, w: Width, narrow: bool) -> (r: Result<StepOutcome, String>)
        requires
            old(self).inv(),
        ensures
            final(self).inv(),
            final(self).statics() == old(self).statics(),
            final(self).base() == old(self).base(),
            final(self).names() == old(self).names(),
            final(self).glob_names_view() == old(self).glob_names_view(),
            r is Err ==> final(self).state().globs == old(self).state().globs
                && final(self).state().heap == old(self).state().heap
                && final(self).state().calls == old(self).state().calls,
            match spec_store_indirect(
                old(self).statics(),
                old(self).state(),
                old(self).state().pc,
                w,
                narrow,
            ) {
                StepRes::Next(s2) => r == Ok::<StepOutcome, String>(StepOutcome::Progress)
                    && final(self).state() == s2,
                StepRes::Host(req, s2) => r == Ok::<StepOutcome, String>(StepOutcome::HostReq(req))
                    && final(self).state() == s2,
                StepRes::Fail => r is Err,
                StepRes::Ret(_) => false,
            },
    {
        let addr = self.stack.pop()?;
        let v = self.stack.pop()?;
        let (in_heap, off) = self.route(addr)?;
        self.finish_store(in_heap, off, w, narrow, v)
    }

    /// Execute exactly one instruction, following `step_spec`.
    #[verifier::spinoff_prover]
    #[verifier::rlimit(60)]
    fn step(&mut self) -> (r: Result<StepOutcome, String>)
        requires
            old(self).inv(),
        ensures
            final(self).inv(),
            final(self).statics() == old(self).statics(),
            final(self).base() == old(self).base(),
            final(self).names() == old(self).names(),
            final(self).glob_names_view() == old(self).glob_names_view(),
            r is Err ==> final(self).state().globs == old(self).state().globs
                && final(self).state().heap == old(self).state().heap
                && final(self).state().calls == old(self).state().calls,
            match step_spec(old(self).statics(), old(self).state()) {
                StepRes::Next(s2) => r == Ok::<StepOutcome, String>(StepOutcome::Progress)
                    && final(self).state() == s2,
                StepRes::Ret(s2) => r == Ok::<StepOutcome, String>(StepOutcome::Returned)
                    && final(self).state() == s2,
                StepRes::Host(req, s2) => r == Ok::<StepOutcome, String>(StepOutcome::HostReq(req))
                    && final(self).state() == s2,
                StepRes::Fail => r is Err,
            },
    {
        let opcode_byte = self.code.read_u8()?;
        let op = match Opcode::from_byte(opcode_byte) {
            Some(op) => op,
            None => {
                return Err(String::from_str("Unexpected opcode"));
            },
        };

        match op {
            Opcode::Nop => Ok(StepOutcome::Progress),
            Opcode::Return => {
                match self.callstack.pop() {
                    Some(return_address) => {
                        self.code.set_current_byte_idx(return_address);
                        proof {
                            assert(old(self).state().calls.last() == return_address as int);
                            assert(self.callstack@.map_values(|x: usize| x as int) =~= old(
                                self,
                            ).state().calls.drop_last());
                        }
                    },
                    None => {
                        proof {
                            assert(old(self).state().calls.len() == 0);
                        }
                    },
                }
                Ok(StepOutcome::Returned)
            },
            Opcode::Call => {
                let fi = self.code.read_u32()?;
                if fi as usize >= self.func_refs.len() {
                    return Err(String::from_str("Unexpected func idx"));
                }
                let fref = self.func_refs[fi as usize];
                if fref.offset > self.code.len() as u64 {
                    return Err(String::from_str("Index out of bounds"));
                }
                let cur = self.code.get_current_byte_idx();
                self.callstack.push(cur);
                self.code.set_current_byte_idx(fref.offset as usize);
                proof {
                    assert(self.callstack@.map_values(|x: usize| x as int) =~= old(
                        self,
                    ).state().calls.push(old(self).state().pc + 5));
                }
                Ok(StepOutcome::Progress)
            },
            Opcode::Jump => {
                let offset = self.code.read_u64()?;
                self.jump_by(offset)?;
                Ok(StepOutcome::Progress)
            },
            Opcode::JumpC => {
                let offset = self.stack.pop()?;
                self.jump_by(offset)?;
                Ok(StepOutcome::Progress)
            },
            Opcode::Pop => {
                self.stack.pop()?;
                Ok(StepOutcome::Progress)
            },
            Opcode::StackGet => {
                let stack_offset = self.code.read_u64()?;
                let value = self.stack.get(stack_offset)?;
                self.stack.push(value)?;
                Ok(StepOutcome::Progress)
            },
            Opcode::StackSet => {
                let value = self.stack.get(0)?;
                let stack_offset = self.code.read_u64()?;
                self.stack.set(stack_offset, value)?;
                Ok(StepOutcome::Progress)
            },
            Opcode::I64Const | Opcode::F64Const => {
                let value = self.code.read_u64()?;
                self.stack.push(value)?;
                Ok(StepOutcome::Progress)
            },
            Opcode::I8Load => self.exec_load_direct(Width::W1, false),
            Opcode::I16Load => self.exec_load_direct(Width::W2, false),
            Opcode::I32Load => self.exec_load_direct(Width::W4, false),
            Opcode::I64Load => self.exec_load_direct(Width::W8, false),
            Opcode::F32Load => self.exec_load_direct(Width::W4, true),
            Opcode::F64Load => self.exec_load_direct(Width::W8, false),
            Opcode::I8LoadC => self.exec_load_indirect(Width::W1, false),
            Opcode::I16LoadC => self.exec_load_indirect(Width::W2, false),
            Opcode::I32LoadC => self.exec_load_indirect(Width::W4, false),
            Opcode::I64LoadC => self.exec_load_indirect(Width::W8, false),
            Opcode::F32LoadC => self.exec_load_indirect(Width::W4, true),
            Opcode::F64LoadC => self.exec_load_indirect(Width::W8, false),
            Opcode::I8Store => self.exec_store_direct(Width::W1, false),
            Opcode::I16Store => self.exec_store_direct(Width::W2, false),
            Opcode::I32Store => self.exec_store_direct(Width::W4, false),
            Opcode::I64Store => self.exec_store_direct(Width::W8, false),
            Opcode::F32Store => self.exec_store_direct(Width::W4, true),
            Opcode::F64Store => self.exec_store_direct(Width::W8, false),
            Opcode::I8StoreC => self.exec_store_indirect(Width::W1, false),
            Opcode::I16StoreC => self.exec_store_indirect(Width::W2, false),
            Opcode::I32StoreC => self.exec_store_indirect(Width::W4, false),
            Opcode::I64StoreC => self.exec_store_indirect(Width::W8, false),
            Opcode::F32StoreC => self.exec_store_indirect(Width::W4, true),
            Opcode::F64StoreC => self.exec_store_indirect(Width::W8, false),
            Opcode::I64Eqz => {
                let value = self.stack.pop()?;
                self.do_branch(value != 0)?;
                Ok(StepOutcome::Progress)
            },
            Opcode::I64Eq | Opcode::I64Ne | Opcode::I64LtS | Opcode::I64LtU | Opcode::I64GtS
            | Opcode::I64GtU | Opcode::I64LeS | Opcode::I64LeU | Opcode::I64GeS | Opcode::I64GeU
            | Opcode::F64Eq | Opcode::F64Ne | Opcode::F64Lt | Opcode::F64Gt | Opcode::F64Le
            | Opcode::F64Ge => {
                let lhs = self.stack.pop()?;
                let rhs = self.stack.pop()?;
                let cond = cmp_cond(op, lhs, rhs);
                self.do_branch(cond)?;
                Ok(StepOutcome::Progress)
            },
            Opcode::I64Add | Opcode::I64Sub | Opcode::I64Mul | Opcode::I64DivS | Opcode::I64DivU
            | Opcode::I64RemS | Opcode::I64RemU | Opcode::I64Pow | Opcode::I64And | Opcode::I64Or
            | Opcode::I64Xor | Opcode::I64Shl | Opcode::I64ShrS | Opcode::I64ShrU
            | Opcode::I64Rotl | Opcode::I64Rotr => {
                let lhs = self.stack.pop()?;
                let rhs = self.stack.pop()?;
                let value = arith_result(op, lhs, rhs)?;
                self.stack.push(value)?;
                Ok(StepOutcome::Progress)
            },
            Opcode::I64Abs => {
                let value = self.stack.pop()?;
                self.stack.push(i64_abs(value))?;
                Ok(StepOutcome::Progress)
            },
            Opcode::F64Abs => {
                let value = self.stack.pop()?;
                self.stack.push(f64_abs_bits(value))?;
                Ok(StepOutcome::Progress)
            },
            Opcode::I64Sqrt | Opcode::F64Sqrt | Opcode::F64Ceil | Opcode::F64Floor
            | Opcode::F64Trunc => {
                let value = self.stack.pop()?;
                let un = match op {
                    Opcode::F64Ceil => FloatUn::Ceil,
                    Opcode::F64Floor => FloatUn::Floor,
                    Opcode::F64Trunc => FloatUn::Trunc,
                    _ => FloatUn::Sqrt,
                };
                self.pending = Some(PendingSlot::Push);
                Ok(StepOutcome::HostReq(FloatReq::Unary(un, value)))
            },
            Opcode::F64Add | Opcode::F64Sub | Opcode::F64Mul | Opcode::F64Div | Opcode::F64Pow => {
                let lhs = self.stack.pop()?;
                let rhs = self.stack.pop()?;
                let bin = match op {
                    Opcode::F64Add => FloatBin::Add,
                    Opcode::F64Sub => FloatBin::Sub,
                    Opcode::F64Mul => FloatBin::Mul,
                    Opcode::F64Div => FloatBin::Div,
                    _ => FloatBin::Pow,
                };
                self.pending = Some(PendingSlot::Push);
                Ok(StepOutcome::HostReq(FloatReq::Binary(bin, lhs, rhs)))
            },
            Opcode::F64Nearest => Err(String::from_str("Unimplemented instruction F64Nearest")),
            Opcode::Label => Err(String::from_str("Unimplemented instruction")),
        }
    }
}


/// The state a run starts from: the caller's program counter saved on the
/// call stack and the pc at the chosen function's offset.
pub open spec fn spec_entry_state(st: VmStatic, s: ExecState, fi: int) -> ExecState {
    ExecState { pc: st.func_refs[fi].offset as int, calls: s.calls.push(s.pc), ..s }
}

/// The first index whose name matches, if any.
pub open spec fn spec_find_func(names: Seq<Seq<char>>, name: Seq<char>) -> Option<int>
    decreases names.len(),
{
    if names.len() == 0 {
        None
    } else if names[0] == name {
        Some(0int)
    } else {
        match spec_find_func(names.drop_first(), name) {
            Some(i) => Some(i + 1),
            None => None,
        }
    }
}

proof fn lemma_find_func_at(names: Seq<Seq<char>>, name: Seq<char>, i: int)
    requires
        0 <= i < names.len(),
        forall|j: int| 0 <= j < i ==> names[j] != name,
        names[i] == name,
    ensures
        spec_find_func(names, name) == Some(i),
    decreases i,
{
    if i > 0 {
        lemma_find_func_at(names.drop_first(), name, i - 1);
    }
}

proof fn lemma_find_func_none(names: Seq<Seq<char>>, name: Seq<char>)
    requires
        forall|j: int| 0 <= j < names.len() ==> names[j] != name,
    ensures
        spec_find_func(names, name) is None,
    decreases names.len(),
{
    if names.len() > 0 {
        lemma_find_func_none(names.drop_first(), name);
    }
}

impl VM {
    /// The position of the first function with this name.
    fn find_func(&self, name: &str) -> (r: Option<usize>)
        requires
            self.inv(),
        ensures
            match spec_find_func(self.names(), name@) {
                Some(i) => 0 <= i <= usize::MAX && i < self.names().len() && r == Some(
                    i as usize,
                ),
                None => r is None,
            },
    {
        let query: String = name.to_owned();
        let n = self.func_names.len();
        let mut i: usize = 0;
        while i < n
            invariant
                i <= n,
                n == self.func_names@.len(),
                query@ == name@,
                forall|j: int| 0 <= j < i ==> self.names()[j] != name@,
            decreases n - i,
        {
            if self.func_names[i] == query {
                proof {
                    lemma_find_func_at(self.names(), name@, i as int);
                }
                return Some(i);
            }
            i = i + 1;
        }
        proof {
            lemma_find_func_none(self.names(), name@);
        }
        None
    }

    /// Step until the run finishes, pauses for the host, fails, or `budget`
    /// instructions have been executed.
    fn run_loop(&mut self, budget: u64) -> (r: Result<Outcome, String>)
        requires
            old(self).inv(),
        ensures
            final(self).inv(),
            final(self).statics() == old(self).statics(),
            final(self).base() == old(self).base(),
            final(self).names() == old(self).names(),
            final(self).glob_names_view() == old(self).glob_names_view(),
            match r {
                Ok(Outcome::Done) => exists|n: nat|
                    run_n(old(self).statics(), old(self).state(), old(self).base(), n)
                        == RunOut::Done(final(self).state()),
                Ok(Outcome::Host(req)) => exists|n: nat|
                    run_n(old(self).statics(), old(self).state(), old(self).base(), n)
                        == RunOut::Host(req, final(self).state()),
                Ok(Outcome::Pause) => run_n(
                    old(self).statics(),
                    old(self).state(),
                    old(self).base(),
                    budget as nat,
                ) == RunOut::Running(final(self).state()),
                Err(_) => exists|n: nat|
                    ({
                        &&& (#[trigger] run_n(
                            old(self).statics(),
                            old(self).state(),
                            old(self).base(),
                            n,
                        )) matches RunOut::Running(s_pre)
                        &&& step_spec(old(self).statics(), s_pre) is Fail
                        &&& run_n(old(self).statics(), old(self).state(), old(self).base(), n + 1)
                            == RunOut::Fail
                        &&& final(self).state().globs == s_pre.globs
                        &&& final(self).state().heap == s_pre.heap
                        &&& final(self).state().calls == s_pre.calls
                    }),
            },
    {
        let ghost st = old(self).statics();
        let ghost s0 = old(self).state();
        let ghost base = old(self).base();
        let mut i: u64 = 0;
        loop
            invariant
                i <= budget,
                self.inv(),
                self.statics() == st,
                self.base() == base,
                self.names() == old(self).names(),
                self.glob_names_view() == old(self).glob_names_view(),
                st == old(self).statics(),
                base == old(self).base(),
                s0 == old(self).state(),
                run_n(st, s0, base, i as nat) == RunOut::Running(self.state()),
            decreases budget - i,
        {
            if i >= budget {
                return Ok(Outcome::Pause);
            }
            proof {
                lemma_run_n_snoc(st, s0, base, i as nat);
            }
            match self.step() {
                Ok(StepOutcome::Progress) => {
                    i = i + 1;
                },
                Ok(StepOutcome::Returned) => {
                    i = i + 1;
                    if self.callstack.len() <= self.run_base {
                        proof {
                            assert(run_n(st, s0, base, i as nat) == RunOut::Done(self.state()));
                        }
                        return Ok(Outcome::Done);
                    }
                },
                Ok(StepOutcome::HostReq(req)) => {
                    proof {
                        assert(run_n(st, s0, base, (i + 1) as nat) == RunOut::Host(
                            req,
                            self.state(),
                        ));
                    }
                    return Ok(Outcome::Host(req));
                },
                Err(e) => {
                    proof {
                        assert(run_n(st, s0, base, i as nat) matches RunOut::Running(s_pre)
                            && step_spec(st, s_pre) is Fail);
                        assert(run_n(st, s0, base, (i + 1) as nat) == RunOut::Fail);
                    }
                    return Err(e);
                },
            }
        }
    }

    /// Look the function up by name, enter it, and run. The run's meaning:
    /// starting from the entry state (the caller's program counter saved,
    /// the pc at the function's offset), iterating `step_spec` reaches the
    /// reported outcome; `Pause` means the budget ran out and `resume`
    /// continues.
    #[verifier::spinoff_prover]
    #[verifier::rlimit(60)]
    pub fn execute(&mut self, func_name: &str, budget: u64) -> (r: Result<Outcome, String>)
        requires
            old(self).inv(),
        ensures
            final(self).inv(),
            final(self).statics() == old(self).statics(),
            final(self).names() == old(self).names(),
            final(self).glob_names_view() == old(self).glob_names_view(),
            match spec_find_func(old(self).names(), func_name@) {
                None => r is Err && final(self).state() == old(self).state() && final(self).base()
                    == old(self).base(),
                Some(fi) => ({
                    let s0 = spec_entry_state(old(self).statics(), old(self).state(), fi);
                    let base = old(self).state().calls.len() as int;
                    &&& final(self).base() == base
                    &&& match r {
                        Ok(Outcome::Done) => exists|n: nat|
                            run_n(old(self).statics(), s0, base, n) == RunOut::Done(
                                final(self).state(),
                            ),
                        Ok(Outcome::Host(req)) => exists|n: nat|
                            run_n(old(self).statics(), s0, base, n) == RunOut::Host(
                                req,
                                final(self).state(),
                            ),
                        Ok(Outcome::Pause) => run_n(old(self).statics(), s0, base, budget as nat)
                            == RunOut::Running(final(self).state()),
                        Err(_) => exists|n: nat|
                            ({
                                &&& (#[trigger] run_n(old(self).statics(), s0, base, n))
                                    matches RunOut::Running(s_pre)
                                &&& step_spec(old(self).statics(), s_pre) is Fail
                                &&& run_n(old(self).statics(), s0, base, n + 1) == RunOut::Fail
                                &&& final(self).state().globs == s_pre.globs
                                &&& final(self).state().heap == s_pre.heap
                                &&& final(self).state().calls == s_pre.calls
                            }),
                    }
                }),
            },
    {
        let fi = match self.find_func(func_name) {
            Some(fi) => fi,
            None => {
                return Err(String::from_str("Unable to find func"));
            },
        };
        proof {
            assert(spec_find_func(self.names(), func_name@)->0 == fi as int);
        }
        let fref = self.func_refs[fi];
        self.run_base = self.callstack.len();
        let cur = self.code.get_current_byte_idx();
        self.callstack.push(cur);
        let ghost st = old(self).statics();
        let ghost base = old(self).state().calls.len() as int;
        let ghost s0 = spec_entry_state(st, old(self).state(), fi as int);
        proof {
            assert(self.callstack@.map_values(|x: usize| x as int) =~= old(
                self,
            ).state().calls.push(old(self).state().pc));
        }
        if fref.offset > self.code.len() as u64 {
            proof {
                assert(step_spec(st, s0) is Fail);
                assert(run_n(st, s0, base, 0nat) == RunOut::Running(s0));
                assert(run_n(st, s0, base, 1nat) == RunOut::Fail);
                assert(self.state().globs == s0.globs && self.state().heap == s0.heap
                    && self.state().calls == s0.calls);
                assert(s0 == spec_entry_state(
                    old(self).statics(),
                    old(self).state(),
                    spec_find_func(old(self).names(), func_name@)->0,
                ));
            }
            return Err(String::from_str("Index out of bounds"));
        }
        self.code.set_current_byte_idx(fref.offset as usize);
        proof {
            assert(self.state() =~= s0);
            assert(s0 == spec_entry_state(
                old(self).statics(),
                old(self).state(),
                spec_find_func(old(self).names(), func_name@)->0,
            ));
        }
        self.run_loop(budget)
    }

    /// Keep running after a `Pause`: the same iteration, continued from the
    /// current state.
    pub fn resume(&mut self, budget: u64) -> (r: Result<Outcome, String>)
        requires
            old(self).inv(),
        ensures
            final(self).inv(),
            final(self).statics() == old(self).statics(),
            final(self).base() == old(self).base(),
            final(self).names() == old(self).names(),
            final(self).glob_names_view() == old(self).glob_names_view(),
            match r {
                Ok(Outcome::Done) => exists|n: nat|
                    run_n(old(self).statics(), old(self).state(), old(self).base(), n)
                        == RunOut::Done(final(self).state()),
                Ok(Outcome::Host(req)) => exists|n: nat|
                    run_n(old(self).statics(), old(self).state(), old(self).base(), n)
                        == RunOut::Host(req, final(self).state()),
                Ok(Outcome::Pause) => run_n(
                    old(self).statics(),
                    old(self).state(),
                    old(self).base(),
                    budget as nat,
                ) == RunOut::Running(final(self).state()),
                Err(_) => exists|n: nat|
                    ({
                        &&& (#[trigger] run_n(
                            old(self).statics(),
                            old(self).state(),
                            old(self).base(),
                            n,
                        )) matches RunOut::Running(s_pre)
                        &&& step_spec(old(self).statics(), s_pre) is Fail
                        &&& run_n(old(self).statics(), old(self).state(), old(self).base(), n + 1)
                            == RunOut::Fail
                        &&& final(self).state().globs == s_pre.globs
                        &&& final(self).state().heap == s_pre.heap
                        &&& final(self).state().calls == s_pre.calls
                    }),
            },
    {
        self.run_loop(budget)
    }

    /// Hand the host's answered bits back: the pending slot consumes them
    /// (a push, or the four-byte store of a narrowed float), and the run
    /// continues from there.
    pub fn resume_float(&mut self, bits: u64, budget: u64) -> (r: Result<Outcome, String>)
        requires
            old(self).inv(),
        ensures
            final(self).inv(),
            final(self).statics() == old(self).statics(),
            final(self).base() == old(self).base(),
            final(self).names() == old(self).names(),
            final(self).glob_names_view() == old(self).glob_names_view(),
            match resume_spec(old(self).state(), bits) {
                StepRes::Fail => r is Err && final(self).state().globs == old(self).state().globs
                    && final(self).state().heap == old(self).state().heap
                    && final(self).state().calls == old(self).state().calls,
                StepRes::Next(s1) => match r {
                    Ok(Outcome::Done) => exists|n: nat|
                        run_n(old(self).statics(), s1, old(self).base(), n) == RunOut::Done(
                            final(self).state(),
                        ),
                    Ok(Outcome::Host(req)) => exists|n: nat|
                        run_n(old(self).statics(), s1, old(self).base(), n) == RunOut::Host(
                            req,
                            final(self).state(),
                        ),
                    Ok(Outcome::Pause) => run_n(old(self).statics(), s1, old(self).base(), budget as nat)
                        == RunOut::Running(final(self).state()),
                    Err(_) => exists|n: nat|
                        ({
                            &&& (#[trigger] run_n(old(self).statics(), s1, old(self).base(), n))
                                matches RunOut::Running(s_pre)
                            &&& step_spec(old(self).statics(), s_pre) is Fail
                            &&& run_n(old(self).statics(), s1, old(self).base(), n + 1)
                                == RunOut::Fail
                            &&& final(self).state().globs == s_pre.globs
                            &&& final(self).state().heap == s_pre.heap
                            &&& final(self).state().calls == s_pre.calls
                        }),
                },
                _ => false,
            },
    {
        let slot = match self.pending {
            Some(slot) => slot,
            None => {
                return Err(String::from_str("No pending host request"));
            },
        };
        self.pending = None;
        match slot {
            PendingSlot::Push => {
                self.stack.push(bits)?;
            },
            PendingSlot::StoreGlob { addr } => {
                self.mem_write(false, addr, Width::W4, bits)?;
            },
            PendingSlot::StoreHeap { addr } => {
                self.mem_write(true, addr, Width::W4, bits)?;
            },
        }
        self.run_loop(budget)
    }
}


/// The name starting at `idx` of the string table resolves: a NUL
/// terminator exists and the bytes before it are valid UTF-8.
pub open spec fn spec_name_ok(tab: Seq<u8>, idx: int) -> bool {
    &&& spec_first_nul(tab, idx) < tab.len()
    &&& valid_utf8(tab.subrange(idx, spec_first_nul(tab, idx)))
}

/// The bytes of the name starting at `idx` of the string table.
pub open spec fn spec_name_bytes(tab: Seq<u8>, idx: int) -> Seq<u8> {
    tab.subrange(idx, spec_first_nul(tab, idx))
}

/// How many entries the function table of an image holds.
pub open spec fn spec_func_count(b: Seq<u8>) -> int {
    spec_hdr_func_size(b) / (FUNC_REF_SIZE as int)
}

/// How many entries the global table of an image holds.
pub open spec fn spec_glob_count(b: Seq<u8>) -> int {
    spec_hdr_glob_size(b) / (GLOB_REF_SIZE as int)
}

/// Every function and global name of the image resolves through the
/// string table.
pub open spec fn spec_all_names_ok(b: Seq<u8>) -> bool {
    &&& forall|k: int|
        0 <= k < spec_func_count(b) ==> spec_name_ok(
            spec_strtab(b),
            (#[trigger] spec_parsed_func_ref(b, k)).name_idx as int,
        )
    &&& forall|k: int|
        0 <= k < spec_glob_count(b) ==> spec_name_ok(
            spec_strtab(b),
            (#[trigger] spec_parsed_glob_ref(b, k)).name_idx as int,
        )
}

impl VM {
    /// Load a machine from image bytes: parse the image, resolve every
    /// name, copy the global data, and allocate a zeroed heap of
    /// `heap_size` bytes. Succeeds exactly on well-formed images whose
    /// names all resolve.
    pub fn init(image_bytes: Vec<u8>, heap_size: u32) -> (r: Result<VM, String>)
        ensures
            r is Ok <==> spec_image_wf(image_bytes@) && spec_all_names_ok(image_bytes@),
            r is Ok ==> ({
                let vm = r->Ok_0;
                let b = image_bytes@;
                &&& vm.inv()
                &&& vm.statics().code == spec_code_section(b)
                &&& vm.statics().func_refs == Seq::new(
                    spec_func_count(b) as nat,
                    |k: int| spec_parsed_func_ref(b, k),
                )
                &&& vm.statics().glob_refs == Seq::new(
                    spec_glob_count(b) as nat,
                    |k: int| spec_parsed_glob_ref(b, k),
                )
                &&& vm.state().pc == 0
                &&& vm.state().stack == Seq::<u64>::empty()
                &&& vm.state().calls == Seq::<int>::empty()
                &&& vm.state().globs == spec_glob_data_section(b)
                &&& vm.state().heap == Seq::new(heap_size as nat, |i: int| 0u8)
                &&& vm.state().pending is None
                &&& vm.base() == 0
                &&& vm.names().len() == spec_func_count(b)
                &&& forall|k: int|
                    0 <= k < spec_func_count(b) ==> encode_utf8(#[trigger] vm.names()[k])
                        == spec_name_bytes(
                        spec_strtab(b),
                        spec_parsed_func_ref(b, k).name_idx as int,
                    )
                &&& vm.glob_names_view().len() == spec_glob_count(b)
                &&& forall|k: int|
                    0 <= k < spec_glob_count(b) ==> encode_utf8(
                        #[trigger] vm.glob_names_view()[k],
                    ) == spec_name_bytes(
                        spec_strtab(b),
                        spec_parsed_glob_ref(b, k).name_idx as int,
                    )
            }),
    {
        let img = match Image::deserialize(&image_bytes) {
            Ok(img) => img,
            Err(e) => {
                return Err(e);
            },
        };
        let ghost b = image_bytes@;
        proof {
            vstd::arithmetic::div_mod::lemma_fundamental_div_mod(
                spec_hdr_func_size(b),
                FUNC_REF_SIZE as int,
            );
            vstd::arithmetic::div_mod::lemma_fundamental_div_mod(
                spec_hdr_glob_size(b),
                GLOB_REF_SIZE as int,
            );
            assert(img.func_refs@.len() == spec_func_count(b));
            assert(img.glob_refs@.len() == spec_glob_count(b));
        }
        let nf = img.func_refs.len();
        let mut func_names: Vec<String> = Vec::new();
        let mut i: usize = 0;
        while i < nf
            invariant
                i <= nf,
                nf == img.func_refs@.len(),
                nf == spec_func_count(b),
                b == image_bytes@,
                img.str_table@ == spec_strtab(b),
                forall|k: int|
                    0 <= k < nf ==> #[trigger] img.func_refs@[k] == spec_parsed_func_ref(b, k),
                func_names@.len() == i,
                forall|k: int|
                    0 <= k < i ==> spec_name_ok(
                        spec_strtab(b),
                        (#[trigger] spec_parsed_func_ref(b, k)).name_idx as int,
                    ),
                forall|k: int|
                    0 <= k < i ==> encode_utf8(#[trigger] func_names@[k]@) == spec_name_bytes(
                        spec_strtab(b),
                        spec_parsed_func_ref(b, k).name_idx as int,
                    ),
            decreases nf - i,
        {
            let name = match str_from_table(&img.str_table, img.func_refs[i].name_idx) {
                Ok(name) => name,
                Err(e) => {
                    proof {
                        assert(!spec_name_ok(
                            spec_strtab(b),
                            spec_parsed_func_ref(b, i as int).name_idx as int,
                        ));
                    }
                    return Err(e);
                },
            };
            func_names.push(name);
            i = i + 1;
        }
        let ng = img.glob_refs.len();
        let mut glob_names: Vec<String> = Vec::new();
        let mut j: usize = 0;
        while j < ng
            invariant
                j <= ng,
                ng == img.glob_refs@.len(),
                ng == spec_glob_count(b),
                b == image_bytes@,
                img.str_table@ == spec_strtab(b),
                forall|k: int|
                    0 <= k < ng ==> #[trigger] img.glob_refs@[k] == spec_parsed_glob_ref(b, k),
                glob_names@.len() == j,
                forall|k: int|
                    0 <= k < j ==> spec_name_ok(
                        spec_strtab(b),
                        (#[trigger] spec_parsed_glob_ref(b, k)).name_idx as int,
                    ),
                forall|k: int|
                    0 <= k < j ==> encode_utf8(#[trigger] glob_names@[k]@) == spec_name_bytes(
                        spec_strtab(b),
                        spec_parsed_glob_ref(b, k).name_idx as int,
                    ),
            decreases ng - j,
        {
            let name = match str_from_table(&img.str_table, img.glob_refs[j].name_idx) {
                Ok(name) => name,
                Err(e) => {
                    proof {
                        assert(!spec_name_ok(
                            spec_strtab(b),
                            spec_parsed_glob_ref(b, j as int).name_idx as int,
                        ));
                    }
                    return Err(e);
                },
            };
            glob_names.push(name);
            j = j + 1;
        }
        let mut heap = ByteVec::new(Vec::new());
        heap.resize(heap_size as usize);
        let code_size = img.code.len();
        let glob_data_size = img.glob_data.len();
        let vm = VM {
            code: ByteVec::new(img.code),
            code_size,
            glob_data: ByteVec::new(img.glob_data),
            glob_data_size,
            func_refs: img.func_refs,
            glob_refs: img.glob_refs,
            func_names,
            glob_names,
            stack: Stack::new(),
            heap,
            heap_size,
            callstack: Vec::new(),
            pending: None,
            run_base: 0,
        };
        proof {
            assert(vm.statics().func_refs =~= Seq::new(
                spec_func_count(b) as nat,
                |k: int| spec_parsed_func_ref(b, k),
            ));
            assert(vm.statics().glob_refs =~= Seq::new(
                spec_glob_count(b) as nat,
                |k: int| spec_parsed_glob_ref(b, k),
            ));
            assert(vm.state().calls =~= Seq::<int>::empty());
            assert(vm.state().heap =~= Seq::new(heap_size as nat, |i0: int| 0u8));
            assert(forall|k: int|
                0 <= k < spec_func_count(b) ==> encode_utf8(#[trigger] vm.names()[k])
                    == spec_name_bytes(
                    spec_strtab(b),
                    spec_parsed_func_ref(b, k).name_idx as int,
                ));
            assert(forall|k: int|
                0 <= k < spec_glob_count(b) ==> encode_utf8(#[trigger] vm.glob_names_view()[k])
                    == spec_name_bytes(
                    spec_strtab(b),
                    spec_parsed_glob_ref(b, k).name_idx as int,
                ));
        }
        Ok(vm)
    }
}


impl VM {
    /// Host surface: push a value onto the operand stack (between steps).
    pub fn stack_push(&mut self, value: u64) -> (r: Result<(), String>)
        requires
            old(self).inv(),
        ensures
            final(self).inv(),
            final(self).statics() == old(self).statics(),
            final(self).base() == old(self).base(),
            final(self).names() == old(self).names(),
            final(self).glob_names_view() == old(self).glob_names_view(),
            r is Ok <==> old(self).state().stack.len() < STACK_CAPACITY,
            r is Ok ==> final(self).state() == (ExecState {
                stack: old(self).state().stack.push(value),
                ..old(self).state()
            }),
            r is Err ==> final(self).state() == old(self).state(),
    {
        self.stack.push(value)
    }

    /// Host surface: pop the top of the operand stack (between steps).
    pub fn stack_pop(&mut self) -> (r: Result<u64, String>)
        requires
            old(self).inv(),
        ensures
            final(self).inv(),
            final(self).statics() == old(self).statics(),
            final(self).base() == old(self).base(),
            final(self).names() == old(self).names(),
            final(self).glob_names_view() == old(self).glob_names_view(),
            r is Ok <==> old(self).state().stack.len() > 0,
            r is Ok ==> r == Ok::<u64, String>(old(self).state().stack.last())
                && final(self).state() == (ExecState {
                stack: old(self).state().stack.drop_last(),
                ..old(self).state()
            }),
            r is Err ==> final(self).state() == old(self).state(),
    {
        self.stack.pop()
    }

    /// Host surface: read one byte of the flat memory (globals first, then
    /// the heap).
    pub fn peek_memory(&mut self, address: u64) -> (r: Result<u8, String>)
        requires
            old(self).inv(),
        ensures
            final(self).inv(),
            final(self).statics() == old(self).statics(),
            final(self).state() == old(self).state(),
            final(self).base() == old(self).base(),
            final(self).names() == old(self).names(),
            final(self).glob_names_view() == old(self).glob_names_view(),
            match spec_route(old(self).state(), address) {
                Some((in_heap, off)) => r == Ok::<u8, String>(
                    spec_region(old(self).state(), in_heap)[off as int] as u8,
                ),
                None => r is Err,
            },
    {
        let (in_heap, off) = self.route(address)?;
        let v = self.mem_read(in_heap, off, Width::W1)?;
        proof {
            match spec_route(old(self).state(), address) {
                Some((h, o)) => {
                    assert(off + 1 <= spec_region(old(self).state(), h).len());
                },
                None => {},
            }
        }
        Ok(v as u8)
    }
}

/// The `w` low bytes of `v`, as the value a load zero-extends them to.
pub open spec fn spec_truncate(w: Width, v: u64) -> u64 {
    match w {
        Width::W1 => (v as u8) as u64,
        Width::W2 => (v as u16) as u64,
        Width::W4 => (v as u32) as u64,
        Width::W8 => v,
    }
}

/// Address routing: any flat address below the globals size resolves to
/// the globals buffer at that index, and any address from the globals size
/// up to the end of the heap resolves to the heap at `addr - globs.len()`;
/// past that it is a heap overflow.
pub proof fn lemma_route_partition(s: ExecState, addr: u64)
    ensures
        (addr as int) < s.globs.len() ==> spec_route(s, addr) == Some((false, addr)),
        s.globs.len() <= addr as int && addr as int - s.globs.len() < s.heap.len()
            ==> spec_route(s, addr) == Some((true, (addr as int - s.globs.len()) as u64)),
        addr as int - s.globs.len() >= s.heap.len() && s.globs.len() <= addr as int
            ==> spec_route(s, addr) is None,
{
}

/// A store followed by a load of the same width at the same routed
/// location yields the stored value (truncated to the width), and the
/// other region is untouched. With `Width::W8` this is also the float
/// round trip: a stored f64 bit pattern is read back bit for bit.
pub proof fn lemma_store_then_load(s: ExecState, in_heap: bool, off: u64, w: Width, v: u64)
    requires
        off + spec_wlen(w) <= spec_region(s, in_heap).len(),
    ensures
        ({
            let s2 = spec_write_mem(s, in_heap, off, w, v);
            &&& spec_read_le(spec_region(s2, in_heap), off as int, w) == spec_truncate(w, v)
            &&& spec_region(s2, !in_heap) == spec_region(s, !in_heap)
            &&& spec_region(s2, in_heap).len() == spec_region(s, in_heap).len()
            &&& s2.stack == s.stack && s2.pc == s.pc && s2.calls == s.calls
        }),
{
    vstd::bytes::lemma_auto_spec_u16_to_from_le_bytes();
    vstd::bytes::lemma_auto_spec_u32_to_from_le_bytes();
    vstd::bytes::lemma_auto_spec_u64_to_from_le_bytes();
    let s2 = spec_write_mem(s, in_heap, off, w, v);
    let reg = spec_region(s2, in_heap);
    assert(reg =~= splice(spec_region(s, in_heap), off as int, spec_wbytes(w, v)));
    assert(reg.subrange(off as int, off + spec_wlen(w)) =~= spec_wbytes(w, v));
    match w {
        Width::W1 => {
            assert(reg[off as int] == (v as u8));
        },
        Width::W2 => {
            assert(spec_u16_from_le_bytes(spec_u16_to_le_bytes(v as u16)) == v as u16);
        },
        Width::W4 => {
            assert(spec_u32_from_le_bytes(spec_u32_to_le_bytes(v as u32)) == v as u32);
        },
        Width::W8 => {
            assert(spec_u64_from_le_bytes(spec_u64_to_le_bytes(v)) == v);
        },
    }
}

} // verus!
