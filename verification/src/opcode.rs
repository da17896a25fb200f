//! The opcode table: one byte value per operation, and the classification
//! that says which opcodes carry an immediate in the code stream and how
//! wide it is.
//!
//! `Label` is a pseudo-opcode: it exists only while assembling and must
//! never appear in a final binary. A symbolic jump uses the real `Jump`
//! opcode with a label literal; the assembler patches its placeholder.

use vstd::prelude::*;

verus! {

#[derive(Clone, Copy, Debug, PartialEq, Eq, Structural)]
pub enum Opcode {
    Nop,
    Return,
    Call,
    Jump,
    JumpC,
    Pop,
    StackGet,
    StackSet,
    I64Const,
    F64Const,
    I8Load,
    I8LoadC,
    I16Load,
    I16LoadC,
    I32Load,
    I32LoadC,
    I64Load,
    I64LoadC,
    F32Load,
    F32LoadC,
    F64Load,
    F64LoadC,
    I8Store,
    I8StoreC,
    I16Store,
    I16StoreC,
    I32Store,
    I32StoreC,
    I64Store,
    I64StoreC,
    F32Store,
    F32StoreC,
    F64Store,
    F64StoreC,
    I64Eqz,
    I64Eq,
    I64Ne,
    I64LtS,
    I64LtU,
    I64GtS,
    I64GtU,
    I64LeS,
    I64LeU,
    I64GeS,
    I64GeU,
    F64Eq,
    F64Ne,
    F64Lt,
    F64Gt,
    F64Le,
    F64Ge,
    I64Add,
    I64Sub,
    I64Mul,
    I64DivS,
    I64DivU,
    I64RemS,
    I64RemU,
    I64Pow,
    I64Abs,
    I64Sqrt,
    I64And,
    I64Or,
    I64Xor,
    I64Shl,
    I64ShrS,
    I64ShrU,
    I64Rotl,
    I64Rotr,
    F64Add,
    F64Sub,
    F64Mul,
    F64Div,
    F64Pow,
    F64Abs,
    F64Ceil,
    F64Floor,
    F64Trunc,
    F64Nearest,
    F64Sqrt,
    Label,
}

/// The byte that encodes an opcode in the code stream.
pub open spec fn spec_opcode_byte(op: Opcode) -> u8 {
    match op {
        Opcode::Nop => 0x00,
        Opcode::Return => 0x01,
        Opcode::Call => 0x02,
        Opcode::Jump => 0x03,
        Opcode::JumpC => 0x04,
        Opcode::Pop => 0x05,
        Opcode::StackGet => 0x06,
        Opcode::StackSet => 0x07,
        Opcode::I64Const => 0x08,
        Opcode::F64Const => 0x09,
        Opcode::I8Load => 0x0a,
        Opcode::I8LoadC => 0x0b,
        Opcode::I16Load => 0x0c,
        Opcode::I16LoadC => 0x0d,
        Opcode::I32Load => 0x0e,
        Opcode::I32LoadC => 0x0f,
        Opcode::I64Load => 0x10,
        Opcode::I64LoadC => 0x11,
        Opcode::F32Load => 0x12,
        Opcode::F32LoadC => 0x13,
        Opcode::F64Load => 0x14,
        Opcode::F64LoadC => 0x15,
        Opcode::I8Store => 0x16,
        Opcode::I8StoreC => 0x17,
        Opcode::I16Store => 0x18,
        Opcode::I16StoreC => 0x19,
        Opcode::I32Store => 0x1a,
        Opcode::I32StoreC => 0x1b,
        Opcode::I64Store => 0x1c,
        Opcode::I64StoreC => 0x1d,
        Opcode::F32Store => 0x1e,
        Opcode::F32StoreC => 0x1f,
        Opcode::F64Store => 0x20,
        Opcode::F64StoreC => 0x21,
        Opcode::I64Eqz => 0x22,
        Opcode::I64Eq => 0x23,
        Opcode::I64Ne => 0x24,
        Opcode::I64LtS => 0x25,
        Opcode::I64LtU => 0x26,
        Opcode::I64GtS => 0x27,
        Opcode::I64GtU => 0x28,
        Opcode::I64LeS => 0x29,
        Opcode::I64LeU => 0x2a,
        Opcode::I64GeS => 0x2b,
        Opcode::I64GeU => 0x2c,
        Opcode::F64Eq => 0x2d,
        Opcode::F64Ne => 0x2e,
        Opcode::F64Lt => 0x2f,
        Opcode::F64Gt => 0x30,
        Opcode::F64Le => 0x31,
        Opcode::F64Ge => 0x32,
        Opcode::I64Add => 0x33,
        Opcode::I64Sub => 0x34,
        Opcode::I64Mul => 0x35,
        Opcode::I64DivS => 0x36,
        Opcode::I64DivU => 0x37,
        Opcode::I64RemS => 0x38,
        Opcode::I64RemU => 0x39,
        Opcode::I64Pow => 0x3a,
        Opcode::I64Abs => 0x3b,
        Opcode::I64Sqrt => 0x3c,
        Opcode::I64And => 0x3d,
        Opcode::I64Or => 0x3e,
        Opcode::I64Xor => 0x3f,
        Opcode::I64Shl => 0x40,
        Opcode::I64ShrS => 0x41,
        Opcode::I64ShrU => 0x42,
        Opcode::I64Rotl => 0x43,
        Opcode::I64Rotr => 0x44,
        Opcode::F64Add => 0x45,
        Opcode::F64Sub => 0x46,
        Opcode::F64Mul => 0x47,
        Opcode::F64Div => 0x48,
        Opcode::F64Pow => 0x49,
        Opcode::F64Abs => 0x4a,
        Opcode::F64Ceil => 0x4b,
        Opcode::F64Floor => 0x4c,
        Opcode::F64Trunc => 0x4d,
        Opcode::F64Nearest => 0x4e,
        Opcode::F64Sqrt => 0x4f,
        Opcode::Label => 0x50,
    }
}

/// The opcode a byte stands for, if any.
pub open spec fn spec_opcode_from_byte(b: u8) -> Option<Opcode> {
    match b {
        0x00u8 => Some(Opcode::Nop),
        0x01u8 => Some(Opcode::Return),
        0x02u8 => Some(Opcode::Call),
        0x03u8 => Some(Opcode::Jump),
        0x04u8 => Some(Opcode::JumpC),
        0x05u8 => Some(Opcode::Pop),
        0x06u8 => Some(Opcode::StackGet),
        0x07u8 => Some(Opcode::StackSet),
        0x08u8 => Some(Opcode::I64Const),
        0x09u8 => Some(Opcode::F64Const),
        0x0au8 => Some(Opcode::I8Load),
        0x0bu8 => Some(Opcode::I8LoadC),
        0x0cu8 => Some(Opcode::I16Load),
        0x0du8 => Some(Opcode::I16LoadC),
        0x0eu8 => Some(Opcode::I32Load),
        0x0fu8 => Some(Opcode::I32LoadC),
        0x10u8 => Some(Opcode::I64Load),
        0x11u8 => Some(Opcode::I64LoadC),
        0x12u8 => Some(Opcode::F32Load),
        0x13u8 => Some(Opcode::F32LoadC),
        0x14u8 => Some(Opcode::F64Load),
        0x15u8 => Some(Opcode::F64LoadC),
        0x16u8 => Some(Opcode::I8Store),
        0x17u8 => Some(Opcode::I8StoreC),
        0x18u8 => Some(Opcode::I16Store),
        0x19u8 => Some(Opcode::I16StoreC),
        0x1au8 => Some(Opcode::I32Store),
        0x1bu8 => Some(Opcode::I32StoreC),
        0x1cu8 => Some(Opcode::I64Store),
        0x1du8 => Some(Opcode::I64StoreC),
        0x1eu8 => Some(Opcode::F32Store),
        0x1fu8 => Some(Opcode::F32StoreC),
        0x20u8 => Some(Opcode::F64Store),
        0x21u8 => Some(Opcode::F64StoreC),
        0x22u8 => Some(Opcode::I64Eqz),
        0x23u8 => Some(Opcode::I64Eq),
        0x24u8 => Some(Opcode::I64Ne),
        0x25u8 => Some(Opcode::I64LtS),
        0x26u8 => Some(Opcode::I64LtU),
        0x27u8 => Some(Opcode::I64GtS),
        0x28u8 => Some(Opcode::I64GtU),
        0x29u8 => Some(Opcode::I64LeS),
        0x2au8 => Some(Opcode::I64LeU),
        0x2bu8 => Some(Opcode::I64GeS),
        0x2cu8 => Some(Opcode::I64GeU),
        0x2du8 => Some(Opcode::F64Eq),
        0x2eu8 => Some(Opcode::F64Ne),
        0x2fu8 => Some(Opcode::F64Lt),
        0x30u8 => Some(Opcode::F64Gt),
        0x31u8 => Some(Opcode::F64Le),
        0x32u8 => Some(Opcode::F64Ge),
        0x33u8 => Some(Opcode::I64Add),
        0x34u8 => Some(Opcode::I64Sub),
        0x35u8 => Some(Opcode::I64Mul),
        0x36u8 => Some(Opcode::I64DivS),
        0x37u8 => Some(Opcode::I64DivU),
        0x38u8 => Some(Opcode::I64RemS),
        0x39u8 => Some(Opcode::I64RemU),
        0x3au8 => Some(Opcode::I64Pow),
        0x3bu8 => Some(Opcode::I64Abs),
        0x3cu8 => Some(Opcode::I64Sqrt),
        0x3du8 => Some(Opcode::I64And),
        0x3eu8 => Some(Opcode::I64Or),
        0x3fu8 => Some(Opcode::I64Xor),
        0x40u8 => Some(Opcode::I64Shl),
        0x41u8 => Some(Opcode::I64ShrS),
        0x42u8 => Some(Opcode::I64ShrU),
        0x43u8 => Some(Opcode::I64Rotl),
        0x44u8 => Some(Opcode::I64Rotr),
        0x45u8 => Some(Opcode::F64Add),
        0x46u8 => Some(Opcode::F64Sub),
        0x47u8 => Some(Opcode::F64Mul),
        0x48u8 => Some(Opcode::F64Div),
        0x49u8 => Some(Opcode::F64Pow),
        0x4au8 => Some(Opcode::F64Abs),
        0x4bu8 => Some(Opcode::F64Ceil),
        0x4cu8 => Some(Opcode::F64Floor),
        0x4du8 => Some(Opcode::F64Trunc),
        0x4eu8 => Some(Opcode::F64Nearest),
        0x4fu8 => Some(Opcode::F64Sqrt),
        0x50u8 => Some(Opcode::Label),
        _ => None,
    }
}

/// Assemble-time only; must never stand in a final binary.
pub open spec fn spec_is_pseudo(op: Opcode) -> bool {
    op is Label
}

/// Opcodes whose immediate is a u32 index into the function table.
pub open spec fn spec_takes_func_idx(op: Opcode) -> bool {
    op is Call
}

/// Opcodes whose immediate is a u32 index into the global table.
pub open spec fn spec_takes_glob_idx(op: Opcode) -> bool {
    match op {
        Opcode::I8Load | Opcode::I16Load | Opcode::I32Load | Opcode::I64Load | Opcode::F32Load
        | Opcode::F64Load | Opcode::I8Store | Opcode::I16Store | Opcode::I32Store
        | Opcode::I64Store | Opcode::F32Store | Opcode::F64Store => true,
        _ => false,
    }
}

/// Comparison opcodes: they pop their operands and then read a u64 branch
/// offset, jumping when the *opposite* of the named relation holds.
pub open spec fn spec_is_cmp_branch(op: Opcode) -> bool {
    match op {
        Opcode::I64Eqz | Opcode::I64Eq | Opcode::I64Ne | Opcode::I64LtS | Opcode::I64LtU
        | Opcode::I64GtS | Opcode::I64GtU | Opcode::I64LeS | Opcode::I64LeU | Opcode::I64GeS
        | Opcode::I64GeU | Opcode::F64Eq | Opcode::F64Ne | Opcode::F64Lt | Opcode::F64Gt
        | Opcode::F64Le | Opcode::F64Ge => true,
        _ => false,
    }
}

/// Opcodes whose immediate is a full u64 (a constant, a stack offset or a
/// branch offset).
pub open spec fn spec_takes_u64_imm(op: Opcode) -> bool {
    match op {
        Opcode::Jump | Opcode::StackGet | Opcode::StackSet | Opcode::I64Const
        | Opcode::F64Const => true,
        _ => spec_is_cmp_branch(op),
    }
}

/// Width in bytes of the immediate that follows the opcode byte.
pub open spec fn spec_imm_size(op: Opcode) -> int {
    if spec_takes_func_idx(op) || spec_takes_glob_idx(op) {
        4
    } else if spec_takes_u64_imm(op) {
        8
    } else {
        0
    }
}

impl Opcode {
    /// The byte value of this opcode on the wire.
    pub fn to_byte(self) -> (r: u8)
        ensures
            r == spec_opcode_byte(self),
    {
        match self {
            Opcode::Nop => 0x00,
            Opcode::Return => 0x01,
            Opcode::Call => 0x02,
            Opcode::Jump => 0x03,
            Opcode::JumpC => 0x04,
            Opcode::Pop => 0x05,
            Opcode::StackGet => 0x06,
            Opcode::StackSet => 0x07,
            Opcode::I64Const => 0x08,
            Opcode::F64Const => 0x09,
            Opcode::I8Load => 0x0a,
            Opcode::I8LoadC => 0x0b,
            Opcode::I16Load => 0x0c,
            Opcode::I16LoadC => 0x0d,
            Opcode::I32Load => 0x0e,
            Opcode::I32LoadC => 0x0f,
            Opcode::I64Load => 0x10,
            Opcode::I64LoadC => 0x11,
            Opcode::F32Load => 0x12,
            Opcode::F32LoadC => 0x13,
            Opcode::F64Load => 0x14,
            Opcode::F64LoadC => 0x15,
            Opcode::I8Store => 0x16,
            Opcode::I8StoreC => 0x17,
            Opcode::I16Store => 0x18,
            Opcode::I16StoreC => 0x19,
            Opcode::I32Store => 0x1a,
            Opcode::I32StoreC => 0x1b,
            Opcode::I64Store => 0x1c,
            Opcode::I64StoreC => 0x1d,
            Opcode::F32Store => 0x1e,
            Opcode::F32StoreC => 0x1f,
            Opcode::F64Store => 0x20,
            Opcode::F64StoreC => 0x21,
            Opcode::I64Eqz => 0x22,
            Opcode::I64Eq => 0x23,
            Opcode::I64Ne => 0x24,
            Opcode::I64LtS => 0x25,
            Opcode::I64LtU => 0x26,
            Opcode::I64GtS => 0x27,
            Opcode::I64GtU => 0x28,
            Opcode::I64LeS => 0x29,
            Opcode::I64LeU => 0x2a,
            Opcode::I64GeS => 0x2b,
            Opcode::I64GeU => 0x2c,
            Opcode::F64Eq => 0x2d,
            Opcode::F64Ne => 0x2e,
            Opcode::F64Lt => 0x2f,
            Opcode::F64Gt => 0x30,
            Opcode::F64Le => 0x31,
            Opcode::F64Ge => 0x32,
            Opcode::I64Add => 0x33,
            Opcode::I64Sub => 0x34,
            Opcode::I64Mul => 0x35,
            Opcode::I64DivS => 0x36,
            Opcode::I64DivU => 0x37,
            Opcode::I64RemS => 0x38,
            Opcode::I64RemU => 0x39,
            Opcode::I64Pow => 0x3a,
            Opcode::I64Abs => 0x3b,
            Opcode::I64Sqrt => 0x3c,
            Opcode::I64And => 0x3d,
            Opcode::I64Or => 0x3e,
            Opcode::I64Xor => 0x3f,
            Opcode::I64Shl => 0x40,
            Opcode::I64ShrS => 0x41,
            Opcode::I64ShrU => 0x42,
            Opcode::I64Rotl => 0x43,
            Opcode::I64Rotr => 0x44,
            Opcode::F64Add => 0x45,
            Opcode::F64Sub => 0x46,
            Opcode::F64Mul => 0x47,
            Opcode::F64Div => 0x48,
            Opcode::F64Pow => 0x49,
            Opcode::F64Abs => 0x4a,
            Opcode::F64Ceil => 0x4b,
            Opcode::F64Floor => 0x4c,
            Opcode::F64Trunc => 0x4d,
            Opcode::F64Nearest => 0x4e,
            Opcode::F64Sqrt => 0x4f,
            Opcode::Label => 0x50,
        }
    }

    /// Decode a byte from the code stream; unknown bytes yield `None`.
    pub fn from_byte(b: u8) -> (r: Option<Opcode>)
        ensures
            r == spec_opcode_from_byte(b),
    {
        match b {
            0x00 => Some(Opcode::Nop),
            0x01 => Some(Opcode::Return),
            0x02 => Some(Opcode::Call),
            0x03 => Some(Opcode::Jump),
            0x04 => Some(Opcode::JumpC),
            0x05 => Some(Opcode::Pop),
            0x06 => Some(Opcode::StackGet),
            0x07 => Some(Opcode::StackSet),
            0x08 => Some(Opcode::I64Const),
            0x09 => Some(Opcode::F64Const),
            0x0a => Some(Opcode::I8Load),
            0x0b => Some(Opcode::I8LoadC),
            0x0c => Some(Opcode::I16Load),
            0x0d => Some(Opcode::I16LoadC),
            0x0e => Some(Opcode::I32Load),
            0x0f => Some(Opcode::I32LoadC),
            0x10 => Some(Opcode::I64Load),
            0x11 => Some(Opcode::I64LoadC),
            0x12 => Some(Opcode::F32Load),
            0x13 => Some(Opcode::F32LoadC),
            0x14 => Some(Opcode::F64Load),
            0x15 => Some(Opcode::F64LoadC),
            0x16 => Some(Opcode::I8Store),
            0x17 => Some(Opcode::I8StoreC),
            0x18 => Some(Opcode::I16Store),
            0x19 => Some(Opcode::I16StoreC),
            0x1a => Some(Opcode::I32Store),
            0x1b => Some(Opcode::I32StoreC),
            0x1c => Some(Opcode::I64Store),
            0x1d => Some(Opcode::I64StoreC),
            0x1e => Some(Opcode::F32Store),
            0x1f => Some(Opcode::F32StoreC),
            0x20 => Some(Opcode::F64Store),
            0x21 => Some(Opcode::F64StoreC),
            0x22 => Some(Opcode::I64Eqz),
            0x23 => Some(Opcode::I64Eq),
            0x24 => Some(Opcode::I64Ne),
            0x25 => Some(Opcode::I64LtS),
            0x26 => Some(Opcode::I64LtU),
            0x27 => Some(Opcode::I64GtS),
            0x28 => Some(Opcode::I64GtU),
            0x29 => Some(Opcode::I64LeS),
            0x2a => Some(Opcode::I64LeU),
            0x2b => Some(Opcode::I64GeS),
            0x2c => Some(Opcode::I64GeU),
            0x2d => Some(Opcode::F64Eq),
            0x2e => Some(Opcode::F64Ne),
            0x2f => Some(Opcode::F64Lt),
            0x30 => Some(Opcode::F64Gt),
            0x31 => Some(Opcode::F64Le),
            0x32 => Some(Opcode::F64Ge),
            0x33 => Some(Opcode::I64Add),
            0x34 => Some(Opcode::I64Sub),
            0x35 => Some(Opcode::I64Mul),
            0x36 => Some(Opcode::I64DivS),
            0x37 => Some(Opcode::I64DivU),
            0x38 => Some(Opcode::I64RemS),
            0x39 => Some(Opcode::I64RemU),
            0x3a => Some(Opcode::I64Pow),
            0x3b => Some(Opcode::I64Abs),
            0x3c => Some(Opcode::I64Sqrt),
            0x3d => Some(Opcode::I64And),
            0x3e => Some(Opcode::I64Or),
            0x3f => Some(Opcode::I64Xor),
            0x40 => Some(Opcode::I64Shl),
            0x41 => Some(Opcode::I64ShrS),
            0x42 => Some(Opcode::I64ShrU),
            0x43 => Some(Opcode::I64Rotl),
            0x44 => Some(Opcode::I64Rotr),
            0x45 => Some(Opcode::F64Add),
            0x46 => Some(Opcode::F64Sub),
            0x47 => Some(Opcode::F64Mul),
            0x48 => Some(Opcode::F64Div),
            0x49 => Some(Opcode::F64Pow),
            0x4a => Some(Opcode::F64Abs),
            0x4b => Some(Opcode::F64Ceil),
            0x4c => Some(Opcode::F64Floor),
            0x4d => Some(Opcode::F64Trunc),
            0x4e => Some(Opcode::F64Nearest),
            0x4f => Some(Opcode::F64Sqrt),
            0x50 => Some(Opcode::Label),
            _ => None,
        }
    }

    /// Does this opcode carry an immediate, and if so how wide is it?
    pub fn has_immediate(self) -> (r: bool)
        ensures
            r == (spec_imm_size(self) != 0),
    {
        self.imm_size() != 0
    }

    /// Width in bytes of the immediate that follows the opcode byte.
    pub fn imm_size(self) -> (r: usize)
        ensures
            r == spec_imm_size(self),
    {
        match self {
            Opcode::Call => 4,
            Opcode::I8Load | Opcode::I16Load | Opcode::I32Load | Opcode::I64Load
            | Opcode::F32Load | Opcode::F64Load | Opcode::I8Store | Opcode::I16Store
            | Opcode::I32Store | Opcode::I64Store | Opcode::F32Store | Opcode::F64Store => 4,
            Opcode::Jump | Opcode::StackGet | Opcode::StackSet | Opcode::I64Const
            | Opcode::F64Const => 8,
            Opcode::I64Eqz | Opcode::I64Eq | Opcode::I64Ne | Opcode::I64LtS | Opcode::I64LtU
            | Opcode::I64GtS | Opcode::I64GtU | Opcode::I64LeS | Opcode::I64LeU
            | Opcode::I64GeS | Opcode::I64GeU | Opcode::F64Eq | Opcode::F64Ne | Opcode::F64Lt
            | Opcode::F64Gt | Opcode::F64Le | Opcode::F64Ge => 8,
            _ => 0,
        }
    }

    /// Does the immediate name a function table entry?
    pub fn takes_func_idx(self) -> (r: bool)
        ensures
            r == spec_takes_func_idx(self),
    {
        matches!(self, Opcode::Call)
    }

    /// Does the immediate name a global table entry?
    pub fn takes_glob_idx(self) -> (r: bool)
        ensures
            r == spec_takes_glob_idx(self),
    {
        match self {
            Opcode::I8Load | Opcode::I16Load | Opcode::I32Load | Opcode::I64Load
            | Opcode::F32Load | Opcode::F64Load | Opcode::I8Store | Opcode::I16Store
            | Opcode::I32Store | Opcode::I64Store | Opcode::F32Store | Opcode::F64Store => true,
            _ => false,
        }
    }

    /// Is the immediate a full u64?
    pub fn takes_u64_imm(self) -> (r: bool)
        ensures
            r == spec_takes_u64_imm(self),
    {
        match self {
            Opcode::Jump | Opcode::StackGet | Opcode::StackSet | Opcode::I64Const
            | Opcode::F64Const => true,
            Opcode::I64Eqz | Opcode::I64Eq | Opcode::I64Ne | Opcode::I64LtS | Opcode::I64LtU
            | Opcode::I64GtS | Opcode::I64GtU | Opcode::I64LeS | Opcode::I64LeU
            | Opcode::I64GeS | Opcode::I64GeU | Opcode::F64Eq | Opcode::F64Ne | Opcode::F64Lt
            | Opcode::F64Gt | Opcode::F64Le | Opcode::F64Ge => true,
            _ => false,
        }
    }

    /// Assemble-time only; must never stand in a final binary.
    pub fn is_pseudo(self) -> (r: bool)
        ensures
            r == spec_is_pseudo(self),
    {
        matches!(self, Opcode::Label)
    }
}

/// Decoding inverts encoding: every opcode's byte decodes back to it.
pub proof fn lemma_opcode_byte_round_trip(op: Opcode)
    ensures
        spec_opcode_from_byte(spec_opcode_byte(op)) == Some(op),
{
}

} // verus!
