use archmage::context::Context;
use archmage::func::Func;
use archmage::glob::GlobalValue;
use archmage::image::Image;
use archmage::instruction::{Instruction, Literal};
use archmage::opcode::Opcode;
use archmage::out_bin::OutBin;
use archmage::vm::{FloatReq, Outcome, VM};

const BUDGET: u64 = 1_000_000;

fn instr(op: Opcode, lit: Literal) -> Instruction {
    Instruction::new(op, lit)
}

fn build_image(code: Vec<Instruction>, globs: Vec<(&str, GlobalValue)>) -> Vec<u8> {
    let mut ctx = Context::new();
    ctx.make_func_with_code("main", 1, code).unwrap();
    for (name, value) in globs {
        ctx.make_glob_with_value(name, value).unwrap();
    }
    ctx.to_bytes().unwrap()
}

fn run_to_done(vm: &mut VM) -> u64 {
    match vm.execute("main", BUDGET).unwrap() {
        Outcome::Done => {}
        other => panic!("unexpected outcome: {:?}", other),
    }
    vm.stack_pop().unwrap()
}

#[test]
fn jump_skips_by_the_read_offset() {
    // Jump 10 skips the "I64Const 1; Return" pair right after the
    // immediate (relative to the pc after the offset was read).
    let image = build_image(
        vec![
            instr(Opcode::Jump, Literal::Offset(10)),
            instr(Opcode::I64Const, Literal::Const(1)),
            instr(Opcode::Return, Literal::Empty),
            instr(Opcode::I64Const, Literal::Const(2)),
            instr(Opcode::Return, Literal::Empty),
        ],
        vec![],
    );
    let mut vm = VM::init(image, 16).unwrap();
    assert_eq!(run_to_done(&mut vm), 2);
}

#[test]
fn jump_c_takes_the_offset_from_the_stack() {
    let image = build_image(
        vec![
            instr(Opcode::I64Const, Literal::Const(10)),
            instr(Opcode::JumpC, Literal::Empty),
            instr(Opcode::I64Const, Literal::Const(1)),
            instr(Opcode::Return, Literal::Empty),
            instr(Opcode::I64Const, Literal::Const(2)),
            instr(Opcode::Return, Literal::Empty),
        ],
        vec![],
    );
    let mut vm = VM::init(image, 16).unwrap();
    assert_eq!(run_to_done(&mut vm), 2);
}

#[test]
fn jump_past_the_code_end_is_an_error() {
    let image = build_image(
        vec![
            instr(Opcode::Jump, Literal::Offset(1_000_000)),
            instr(Opcode::Return, Literal::Empty),
        ],
        vec![],
    );
    let mut vm = VM::init(image, 16).unwrap();
    assert!(vm.execute("main", BUDGET).is_err());
}

#[test]
fn stack_set_overwrites_below_the_top() {
    // StackSet peeks the top and writes it one cell down; Pop then exposes
    // the overwritten cell.
    let image = build_image(
        vec![
            instr(Opcode::I64Const, Literal::Const(10)),
            instr(Opcode::I64Const, Literal::Const(20)),
            instr(Opcode::StackSet, Literal::Offset(1)),
            instr(Opcode::Pop, Literal::Empty),
            instr(Opcode::Return, Literal::Empty),
        ],
        vec![],
    );
    let mut vm = VM::init(image, 16).unwrap();
    assert_eq!(run_to_done(&mut vm), 20);
}

#[test]
fn eqz_branches_on_nonzero() {
    let image = build_image(
        vec![
            instr(Opcode::I64Const, Literal::Const(0)),
            instr(Opcode::I64Eqz, Literal::Offset(10)),
            instr(Opcode::I64Const, Literal::Const(7)),
            instr(Opcode::Return, Literal::Empty),
            instr(Opcode::I64Const, Literal::Const(8)),
            instr(Opcode::Return, Literal::Empty),
        ],
        vec![],
    );
    let mut vm = VM::init(image, 16).unwrap();
    assert_eq!(run_to_done(&mut vm), 7);
}

#[test]
fn sixteen_bit_store_and_load() {
    let image = build_image(
        vec![
            instr(Opcode::I64Const, Literal::Const(0xFFFF_1234)),
            instr(Opcode::I16Store, Literal::Glob("g".to_string())),
            instr(Opcode::I16Load, Literal::Glob("g".to_string())),
            instr(Opcode::Return, Literal::Empty),
        ],
        vec![("g", GlobalValue::U16(0))],
    );
    let mut vm = VM::init(image, 16).unwrap();
    // stores truncate to the width, loads zero-extend
    assert_eq!(run_to_done(&mut vm), 0x1234);
}

#[test]
fn i64_abs_and_f64_abs() {
    let image = build_image(
        vec![
            instr(Opcode::I64Const, Literal::Const((-9_i64) as u64)),
            instr(Opcode::I64Abs, Literal::Empty),
            instr(Opcode::Return, Literal::Empty),
        ],
        vec![],
    );
    let mut vm = VM::init(image, 16).unwrap();
    assert_eq!(run_to_done(&mut vm), 9);

    let image = build_image(
        vec![
            instr(Opcode::F64Const, Literal::FloatConst((-2.5_f64).to_bits())),
            instr(Opcode::F64Abs, Literal::Empty),
            instr(Opcode::Return, Literal::Empty),
        ],
        vec![],
    );
    let mut vm = VM::init(image, 16).unwrap();
    assert_eq!(run_to_done(&mut vm), 2.5_f64.to_bits());
}

#[test]
fn rotations_wrap_the_bits() {
    let image = build_image(
        vec![
            instr(Opcode::I64Const, Literal::Const(4)),
            instr(Opcode::I64Const, Literal::Const(0x8000_0000_0000_0001)),
            instr(Opcode::I64Rotl, Literal::Empty),
            instr(Opcode::Return, Literal::Empty),
        ],
        vec![],
    );
    let mut vm = VM::init(image, 16).unwrap();
    assert_eq!(run_to_done(&mut vm), 0x8000_0000_0000_0001_u64.rotate_left(4));
}

#[test]
fn f32_store_narrows_through_the_host() {
    // F32Store pops the f64 bits, asks the host to narrow them, and the
    // four-byte store happens when the answer arrives.
    let c = 7.5_f64;
    let image = build_image(
        vec![
            instr(Opcode::F64Const, Literal::FloatConst(c.to_bits())),
            instr(Opcode::F32Store, Literal::Glob("g".to_string())),
            instr(Opcode::Return, Literal::Empty),
        ],
        vec![("g", GlobalValue::F32(0))],
    );
    let mut vm = VM::init(image, 16).unwrap();
    let req = match vm.execute("main", BUDGET).unwrap() {
        Outcome::Host(req) => req,
        other => panic!("unexpected outcome: {:?}", other),
    };
    let answer = match req {
        FloatReq::Narrow(bits) => (f64::from_bits(bits) as f32).to_bits() as u64,
        other => panic!("unexpected request: {:?}", other),
    };
    match vm.resume_float(answer, BUDGET).unwrap() {
        Outcome::Done => {}
        other => panic!("unexpected outcome: {:?}", other),
    }
    // the stored pattern is the narrowed f32, little-endian in the globals
    let expected = (7.5_f32).to_bits();
    let b0 = vm.peek_memory(0).unwrap() as u32;
    let b1 = vm.peek_memory(1).unwrap() as u32;
    let b2 = vm.peek_memory(2).unwrap() as u32;
    let b3 = vm.peek_memory(3).unwrap() as u32;
    assert_eq!(b0 | (b1 << 8) | (b2 << 16) | (b3 << 24), expected);
}

#[test]
fn f32_load_widens_through_the_host() {
    let image = build_image(
        vec![
            instr(Opcode::F32Load, Literal::Glob("g".to_string())),
            instr(Opcode::Return, Literal::Empty),
        ],
        vec![("g", GlobalValue::F32(1.25_f32.to_bits()))],
    );
    let mut vm = VM::init(image, 16).unwrap();
    let req = match vm.execute("main", BUDGET).unwrap() {
        Outcome::Host(req) => req,
        other => panic!("unexpected outcome: {:?}", other),
    };
    let answer = match req {
        FloatReq::Widen(bits) => (f32::from_bits(bits) as f64).to_bits(),
        other => panic!("unexpected request: {:?}", other),
    };
    match vm.resume_float(answer, BUDGET).unwrap() {
        Outcome::Done => {}
        other => panic!("unexpected outcome: {:?}", other),
    }
    assert_eq!(vm.stack_pop().unwrap(), 1.25_f64.to_bits());
}

#[test]
fn unimplemented_nearest_is_an_error() {
    let image = build_image(
        vec![
            instr(Opcode::F64Const, Literal::FloatConst(1.5_f64.to_bits())),
            instr(Opcode::F64Nearest, Literal::Empty),
            instr(Opcode::Return, Literal::Empty),
        ],
        vec![],
    );
    let mut vm = VM::init(image, 16).unwrap();
    assert_eq!(
        vm.execute("main", BUDGET).unwrap_err(),
        "Unimplemented instruction F64Nearest"
    );
}

#[test]
fn label_order_follows_emitted_bytes() {
    // Two labels separated by an emitting instruction get strictly
    // increasing destinations, visible through their patched jumps.
    let mut bin = OutBin::new();
    let func = Func::new_with_code(
        "f".to_string(),
        0,
        vec![
            instr(Opcode::Label, Literal::Label("a".to_string())),
            instr(Opcode::Nop, Literal::Empty),
            instr(Opcode::Label, Literal::Label("b".to_string())),
            instr(Opcode::Jump, Literal::Jump("a".to_string())),
            instr(Opcode::Jump, Literal::Jump("b".to_string())),
        ],
    );
    bin.add_func(&func);
    func.encode(&mut bin).unwrap();
    let img = Image::deserialize(&bin.to_bytes()).unwrap();
    let dest_a = u64::from_le_bytes(img.code[2..10].try_into().unwrap());
    let dest_b = u64::from_le_bytes(img.code[11..19].try_into().unwrap());
    assert_eq!(dest_a, 0);
    assert_eq!(dest_b, 1);
    assert!(dest_b > dest_a);
}

#[test]
fn host_push_and_pop_between_steps() {
    let image = build_image(
        vec![instr(Opcode::Return, Literal::Empty)],
        vec![],
    );
    let mut vm = VM::init(image, 16).unwrap();
    vm.stack_push(0x77).unwrap();
    assert_eq!(vm.stack_pop().unwrap(), 0x77);
    assert!(vm.stack_pop().is_err());
}
