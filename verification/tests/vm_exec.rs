use archmage::context::Context;
use archmage::glob::GlobalValue;
use archmage::instruction::{Instruction, Literal};
use archmage::opcode::Opcode;
use archmage::vm::{FloatBin, FloatReq, Outcome, VM};

const BUDGET: u64 = 1_000_000;

fn instr(op: Opcode, lit: Literal) -> Instruction {
    Instruction::new(op, lit)
}

fn build_image(code: Vec<Instruction>, globs: Vec<(&str, GlobalValue)>) -> Vec<u8> {
    let mut ctx = Context::new();
    ctx.make_func_with_code("main", 1, code).unwrap();
    for (name, value) in globs {
        ctx.make_glob_with_value(name, value).unwrap();
    }
    ctx.to_bytes().unwrap()
}

fn run_to_done(vm: &mut VM) -> u64 {
    match vm.execute("main", BUDGET).unwrap() {
        Outcome::Done => {}
        other => panic!("unexpected outcome: {:?}", other),
    }
    vm.stack_pop().unwrap()
}

#[test]
fn constant_arithmetic_pop_order() {
    // I64Const 7; I64Const 5; I64Sub; Return. The first popped operand is
    // the left-hand side, so the result is 5 - 7 wrapped modulo 2^64.
    let image = build_image(
        vec![
            instr(Opcode::I64Const, Literal::Const(7)),
            instr(Opcode::I64Const, Literal::Const(5)),
            instr(Opcode::I64Sub, Literal::Empty),
            instr(Opcode::Return, Literal::Empty),
        ],
        vec![],
    );
    let mut vm = VM::init(image, 16).unwrap();
    assert_eq!(run_to_done(&mut vm), 5u64.wrapping_sub(7));
}

#[test]
fn branch_on_equality() {
    // Equal operands fall through, so the first return path wins.
    let image = build_image(
        vec![
            instr(Opcode::I64Const, Literal::Const(3)),
            instr(Opcode::I64Const, Literal::Const(3)),
            instr(Opcode::I64Eq, Literal::Offset(16)),
            instr(Opcode::I64Const, Literal::Const(99)),
            instr(Opcode::Return, Literal::Empty),
            instr(Opcode::I64Const, Literal::Const(42)),
            instr(Opcode::Return, Literal::Empty),
        ],
        vec![],
    );
    let mut vm = VM::init(image, 16).unwrap();
    assert_eq!(run_to_done(&mut vm), 99);
}

#[test]
fn branch_taken_when_unequal() {
    // Unequal operands jump over the guarded body: offset 10 skips the
    // "I64Const 99; Return" pair (9 + 1 bytes).
    let image = build_image(
        vec![
            instr(Opcode::I64Const, Literal::Const(3)),
            instr(Opcode::I64Const, Literal::Const(4)),
            instr(Opcode::I64Eq, Literal::Offset(10)),
            instr(Opcode::I64Const, Literal::Const(99)),
            instr(Opcode::Return, Literal::Empty),
            instr(Opcode::I64Const, Literal::Const(42)),
            instr(Opcode::Return, Literal::Empty),
        ],
        vec![],
    );
    let mut vm = VM::init(image, 16).unwrap();
    assert_eq!(run_to_done(&mut vm), 42);
}

#[test]
fn globals_store_load_round_trip() {
    let image = build_image(
        vec![
            instr(Opcode::I64Const, Literal::Const(0xDEAD_BEEF)),
            instr(Opcode::I32Store, Literal::Glob("g".to_string())),
            instr(Opcode::I32Load, Literal::Glob("g".to_string())),
            instr(Opcode::Return, Literal::Empty),
        ],
        vec![("g", GlobalValue::U32(0))],
    );
    let mut vm = VM::init(image, 16).unwrap();
    assert_eq!(run_to_done(&mut vm), 0x0000_0000_DEAD_BEEF);
}

#[test]
fn heap_indirect_access() {
    // globals occupy 8 bytes, so flat address 12 is heap offset 4.
    let image = build_image(
        vec![
            instr(Opcode::I64Const, Literal::Const(0xAB)),
            instr(Opcode::I64Const, Literal::Const(12)),
            instr(Opcode::I8StoreC, Literal::Empty),
            instr(Opcode::I64Const, Literal::Const(12)),
            instr(Opcode::I8LoadC, Literal::Empty),
            instr(Opcode::Return, Literal::Empty),
        ],
        vec![("g", GlobalValue::U64(0))],
    );
    let mut vm = VM::init(image, 16).unwrap();
    assert_eq!(run_to_done(&mut vm), 0xAB);
    assert_eq!(vm.peek_memory(12).unwrap(), 0xAB);
}

#[test]
fn globals_indirect_access() {
    // An address below the globals size lands in the globals buffer.
    let image = build_image(
        vec![
            instr(Opcode::I64Const, Literal::Const(0x5C)),
            instr(Opcode::I64Const, Literal::Const(3)),
            instr(Opcode::I8StoreC, Literal::Empty),
            instr(Opcode::I64Const, Literal::Const(3)),
            instr(Opcode::I8LoadC, Literal::Empty),
            instr(Opcode::Return, Literal::Empty),
        ],
        vec![("g", GlobalValue::U64(0))],
    );
    let mut vm = VM::init(image, 16).unwrap();
    assert_eq!(run_to_done(&mut vm), 0x5C);
    assert_eq!(vm.peek_memory(3).unwrap(), 0x5C);
}

#[test]
fn heap_overflow_rejected() {
    // a good store first, then one past the heap end: the failure leaves
    // globals and heap exactly as the successful prefix left them
    let image = build_image(
        vec![
            instr(Opcode::I64Const, Literal::Const(0x5A)),
            instr(Opcode::I64Const, Literal::Const(9)),
            instr(Opcode::I8StoreC, Literal::Empty),
            instr(Opcode::I64Const, Literal::Const(1)),
            instr(Opcode::I64Const, Literal::Const(100)),
            instr(Opcode::I8StoreC, Literal::Empty),
            instr(Opcode::Return, Literal::Empty),
        ],
        vec![("g", GlobalValue::U64(0))],
    );
    let mut vm = VM::init(image, 16).unwrap();
    let err = vm.execute("main", BUDGET).unwrap_err();
    assert_eq!(err, "Heap overflow");
    assert_eq!(vm.peek_memory(9).unwrap(), 0x5A);
    for a in 0..8u64 {
        assert_eq!(vm.peek_memory(a).unwrap(), 0, "global byte {a}");
    }
}

#[test]
fn float_bits_round_trip() {
    let c = 1234.5678_f64;
    let image = build_image(
        vec![
            instr(Opcode::F64Const, Literal::FloatConst(c.to_bits())),
            instr(Opcode::F64Store, Literal::Glob("f".to_string())),
            instr(Opcode::F64Load, Literal::Glob("f".to_string())),
            instr(Opcode::Return, Literal::Empty),
        ],
        vec![("f", GlobalValue::F64(0))],
    );
    let mut vm = VM::init(image, 16).unwrap();
    assert_eq!(run_to_done(&mut vm), c.to_bits());
}

#[test]
fn integer_add_wraps() {
    let image = build_image(
        vec![
            instr(Opcode::I64Const, Literal::Const(1u64 << 63)),
            instr(Opcode::I64Const, Literal::Const(1u64 << 63)),
            instr(Opcode::I64Add, Literal::Empty),
            instr(Opcode::Return, Literal::Empty),
        ],
        vec![],
    );
    let mut vm = VM::init(image, 16).unwrap();
    assert_eq!(run_to_done(&mut vm), 0);
}

#[test]
fn integer_signed_division() {
    // The first popped operand is the dividend: (-6) / 2 == -3.
    let image = build_image(
        vec![
            instr(Opcode::I64Const, Literal::Const(2)),
            instr(Opcode::I64Const, Literal::Const((-6_i64) as u64)),
            instr(Opcode::I64DivS, Literal::Empty),
            instr(Opcode::Return, Literal::Empty),
        ],
        vec![],
    );
    let mut vm = VM::init(image, 16).unwrap();
    assert_eq!(run_to_done(&mut vm), (-3_i64) as u64);
}

#[test]
fn integer_arithmetic_shift_preserves_sign() {
    let image = build_image(
        vec![
            instr(Opcode::I64Const, Literal::Const(1)),
            instr(Opcode::I64Const, Literal::Const((-8_i64) as u64)),
            instr(Opcode::I64ShrS, Literal::Empty),
            instr(Opcode::Return, Literal::Empty),
        ],
        vec![],
    );
    let mut vm = VM::init(image, 16).unwrap();
    let top = run_to_done(&mut vm);
    assert_eq!(top, (-4_i64) as u64);
    assert_eq!(top >> 63, 1);
}

#[test]
fn division_by_zero_is_an_error() {
    let image = build_image(
        vec![
            instr(Opcode::I64Const, Literal::Const(0)),
            instr(Opcode::I64Const, Literal::Const(6)),
            instr(Opcode::I64DivU, Literal::Empty),
            instr(Opcode::Return, Literal::Empty),
        ],
        vec![],
    );
    let mut vm = VM::init(image, 16).unwrap();
    assert_eq!(vm.execute("main", BUDGET).unwrap_err(), "Division by zero");
}

#[test]
fn oversized_shift_is_an_error() {
    let image = build_image(
        vec![
            instr(Opcode::I64Const, Literal::Const(64)),
            instr(Opcode::I64Const, Literal::Const(1)),
            instr(Opcode::I64Shl, Literal::Empty),
            instr(Opcode::Return, Literal::Empty),
        ],
        vec![],
    );
    let mut vm = VM::init(image, 16).unwrap();
    assert_eq!(vm.execute("main", BUDGET).unwrap_err(), "Invalid shift amount");
}

#[test]
fn pow_computes_and_overflows() {
    let image = build_image(
        vec![
            instr(Opcode::I64Const, Literal::Const(10)),
            instr(Opcode::I64Const, Literal::Const(2)),
            instr(Opcode::I64Pow, Literal::Empty),
            instr(Opcode::Return, Literal::Empty),
        ],
        vec![],
    );
    let mut vm = VM::init(image, 16).unwrap();
    assert_eq!(run_to_done(&mut vm), 1024);

    let image = build_image(
        vec![
            instr(Opcode::I64Const, Literal::Const(64)),
            instr(Opcode::I64Const, Literal::Const(2)),
            instr(Opcode::I64Pow, Literal::Empty),
            instr(Opcode::Return, Literal::Empty),
        ],
        vec![],
    );
    let mut vm = VM::init(image, 16).unwrap();
    assert_eq!(vm.execute("main", BUDGET).unwrap_err(), "Integer overflow");
}

#[test]
fn float_add_goes_through_the_host() {
    let a = 1.5_f64;
    let b = 2.25_f64;
    let image = build_image(
        vec![
            instr(Opcode::F64Const, Literal::FloatConst(a.to_bits())),
            instr(Opcode::F64Const, Literal::FloatConst(b.to_bits())),
            instr(Opcode::F64Add, Literal::Empty),
            instr(Opcode::Return, Literal::Empty),
        ],
        vec![],
    );
    let mut vm = VM::init(image, 16).unwrap();
    let req = match vm.execute("main", BUDGET).unwrap() {
        Outcome::Host(req) => req,
        other => panic!("unexpected outcome: {:?}", other),
    };
    let answer = match req {
        FloatReq::Binary(FloatBin::Add, lhs, rhs) => {
            (f64::from_bits(lhs) + f64::from_bits(rhs)).to_bits()
        }
        other => panic!("unexpected request: {:?}", other),
    };
    match vm.resume_float(answer, BUDGET).unwrap() {
        Outcome::Done => {}
        other => panic!("unexpected outcome: {:?}", other),
    }
    assert_eq!(vm.stack_pop().unwrap(), (a + b).to_bits());
}

#[test]
fn float_comparison_runs_inside_the_engine() {
    // F64Lt jumps when the relation does NOT hold; 1.0 < 2.0 holds, so the
    // fall-through path runs without any host request.
    let image = build_image(
        vec![
            instr(Opcode::F64Const, Literal::FloatConst(2.0_f64.to_bits())),
            instr(Opcode::F64Const, Literal::FloatConst(1.0_f64.to_bits())),
            instr(Opcode::F64Lt, Literal::Offset(10)),
            instr(Opcode::I64Const, Literal::Const(1)),
            instr(Opcode::Return, Literal::Empty),
            instr(Opcode::I64Const, Literal::Const(0)),
            instr(Opcode::Return, Literal::Empty),
        ],
        vec![],
    );
    let mut vm = VM::init(image, 16).unwrap();
    assert_eq!(run_to_done(&mut vm), 1);
}

#[test]
fn budget_pauses_and_resumes() {
    let image = build_image(
        vec![
            instr(Opcode::I64Const, Literal::Const(5)),
            instr(Opcode::I64Const, Literal::Const(6)),
            instr(Opcode::I64Add, Literal::Empty),
            instr(Opcode::Return, Literal::Empty),
        ],
        vec![],
    );
    let mut vm = VM::init(image, 16).unwrap();
    match vm.execute("main", 1).unwrap() {
        Outcome::Pause => {}
        other => panic!("unexpected outcome: {:?}", other),
    }
    match vm.resume(BUDGET).unwrap() {
        Outcome::Done => {}
        other => panic!("unexpected outcome: {:?}", other),
    }
    assert_eq!(vm.stack_pop().unwrap(), 11);
}

#[test]
fn call_and_return_restore_the_caller() {
    let mut ctx = Context::new();
    ctx.make_func_with_code(
        "main",
        1,
        vec![
            instr(Opcode::Call, Literal::Func("five".to_string())),
            instr(Opcode::I64Const, Literal::Const(1)),
            instr(Opcode::I64Add, Literal::Empty),
            instr(Opcode::Return, Literal::Empty),
        ],
    )
    .unwrap();
    ctx.make_func_with_code(
        "five",
        1,
        vec![
            instr(Opcode::I64Const, Literal::Const(5)),
            instr(Opcode::Return, Literal::Empty),
        ],
    )
    .unwrap();
    let image = ctx.to_bytes().unwrap();
    let mut vm = VM::init(image, 16).unwrap();
    assert_eq!(run_to_done(&mut vm), 6);
}

#[test]
fn stack_get_and_set_duplicate_and_overwrite() {
    let image = build_image(
        vec![
            instr(Opcode::I64Const, Literal::Const(10)),
            instr(Opcode::I64Const, Literal::Const(20)),
            instr(Opcode::StackGet, Literal::Offset(1)),
            instr(Opcode::Return, Literal::Empty),
        ],
        vec![],
    );
    let mut vm = VM::init(image, 16).unwrap();
    assert_eq!(run_to_done(&mut vm), 10);
}

#[test]
fn unknown_function_name_is_an_error() {
    let image = build_image(
        vec![instr(Opcode::Return, Literal::Empty)],
        vec![],
    );
    let mut vm = VM::init(image, 16).unwrap();
    assert!(vm.execute("absent", BUDGET).is_err());
}

#[test]
fn unknown_opcode_byte_is_an_error() {
    let image = build_image(
        vec![
            instr(Opcode::Nop, Literal::Empty),
            instr(Opcode::Return, Literal::Empty),
        ],
        vec![],
    );
    // Corrupt the first code byte (the code blob is the last-but-one
    // section; patch via parse, edit, re-serialize).
    let mut img = archmage::image::Image::deserialize(&image).unwrap();
    img.code[0] = 0xEE;
    let corrupted = img.serialize();
    let mut vm = VM::init(corrupted, 16).unwrap();
    assert_eq!(vm.execute("main", BUDGET).unwrap_err(), "Unexpected opcode");
}

#[test]
fn stack_underflow_during_execution() {
    let image = build_image(
        vec![
            instr(Opcode::Pop, Literal::Empty),
            instr(Opcode::Return, Literal::Empty),
        ],
        vec![],
    );
    let mut vm = VM::init(image, 16).unwrap();
    assert_eq!(vm.execute("main", BUDGET).unwrap_err(), "Stack empty");
}
