use archmage::byte_vec_reader::ByteVecReader;
use archmage::func::Func;
use archmage::glob::{Glob, GlobalValue};
use archmage::image::Image;
use archmage::instruction::{Instruction, Literal};
use archmage::opcode::Opcode;
use archmage::out_bin::OutBin;

fn instr(op: Opcode, lit: Literal) -> Instruction {
    Instruction::new(op, lit)
}

#[test]
fn label_free_block_length_is_the_sum_of_sizes() {
    // opcode byte + immediate width per instruction: 9 + 1 + 9 + 1 = 20
    let mut bin = OutBin::new();
    let func = Func::new_with_code(
        "f".to_string(),
        0,
        vec![
            instr(Opcode::I64Const, Literal::Const(1)),
            instr(Opcode::Pop, Literal::Empty),
            instr(Opcode::StackGet, Literal::Offset(0)),
            instr(Opcode::Return, Literal::Empty),
        ],
    );
    bin.add_func(&func);
    func.encode(&mut bin).unwrap();
    let img = Image::deserialize(&bin.to_bytes()).unwrap();
    assert_eq!(img.code.len(), 20);
    assert_eq!(img.func_refs[0].offset, 0);
    assert_eq!(img.func_refs[0].size, 20);
}

#[test]
fn labels_emit_nothing() {
    let mut bin = OutBin::new();
    let func = Func::new_with_code(
        "f".to_string(),
        0,
        vec![
            instr(Opcode::Label, Literal::Label("a".to_string())),
            instr(Opcode::Nop, Literal::Empty),
            instr(Opcode::Label, Literal::Label("b".to_string())),
            instr(Opcode::Return, Literal::Empty),
        ],
    );
    bin.add_func(&func);
    func.encode(&mut bin).unwrap();
    let img = Image::deserialize(&bin.to_bytes()).unwrap();
    assert_eq!(img.code.len(), 2);
}

#[test]
fn label_resolution_patches_the_jump() {
    // Label L; I64Const 1; Jump L: the patched word decodes to 0, the
    // destination recorded at the start of the block.
    let mut bin = OutBin::new();
    let func = Func::new_with_code(
        "f".to_string(),
        0,
        vec![
            instr(Opcode::Label, Literal::Label("l".to_string())),
            instr(Opcode::I64Const, Literal::Const(1)),
            instr(Opcode::Jump, Literal::Jump("l".to_string())),
        ],
    );
    bin.add_func(&func);
    func.encode(&mut bin).unwrap();
    let img = Image::deserialize(&bin.to_bytes()).unwrap();
    assert_eq!(img.code.len(), 18);
    assert_eq!(img.code[9], Opcode::Jump.to_byte());
    assert_eq!(&img.code[10..18], &[0u8; 8]);
}

#[test]
fn forward_jump_gets_the_later_destination() {
    // Jump over one 9-byte constant: the destination is byte 18.
    let mut bin = OutBin::new();
    let func = Func::new_with_code(
        "f".to_string(),
        0,
        vec![
            instr(Opcode::Jump, Literal::Jump("end".to_string())),
            instr(Opcode::I64Const, Literal::Const(7)),
            instr(Opcode::Label, Literal::Label("end".to_string())),
            instr(Opcode::Return, Literal::Empty),
        ],
    );
    bin.add_func(&func);
    func.encode(&mut bin).unwrap();
    let img = Image::deserialize(&bin.to_bytes()).unwrap();
    assert_eq!(&img.code[1..9], &18u64.to_le_bytes());
}

#[test]
fn unknown_label_is_a_hard_failure() {
    let mut bin = OutBin::new();
    let func = Func::new_with_code(
        "f".to_string(),
        0,
        vec![instr(Opcode::Jump, Literal::Jump("nowhere".to_string()))],
    );
    bin.add_func(&func);
    assert_eq!(func.encode(&mut bin).unwrap_err(), "Unknown label");
}

#[test]
fn unknown_function_name_is_a_hard_failure() {
    let mut bin = OutBin::new();
    let func = Func::new_with_code(
        "f".to_string(),
        0,
        vec![instr(Opcode::Call, Literal::Func("absent".to_string()))],
    );
    bin.add_func(&func);
    assert!(func.encode(&mut bin).is_err());
}

#[test]
fn add_func_deduplicates_by_name() {
    let mut bin = OutBin::new();
    let f = Func::new("f".to_string(), 0);
    let g = Func::new("g".to_string(), 0);
    assert_eq!(bin.add_func(&f), 0);
    assert_eq!(bin.add_func(&g), 1);
    assert_eq!(bin.add_func(&f), 0);
    assert_eq!(bin.get_func_idx("g"), Some(1));
    assert_eq!(bin.get_func_idx("h"), None);
}

#[test]
fn shared_names_share_string_table_entries() {
    let mut bin = OutBin::new();
    let f = Func::new("same".to_string(), 0);
    let g = Glob::new("same".to_string());
    bin.add_func(&f);
    bin.add_glob(&g);
    let img = Image::deserialize(&bin.to_bytes()).unwrap();
    // one NUL-terminated entry serves both tables
    assert_eq!(img.str_table, b"same\0".to_vec());
    assert_eq!(img.func_refs[0].name_idx, 0);
    assert_eq!(img.glob_refs[0].name_idx, 0);
}

#[test]
fn glob_encode_fills_the_table_entry() {
    let mut bin = OutBin::new();
    let g = Glob::new_with_value("g".to_string(), GlobalValue::U16(0x1234));
    bin.add_glob(&g);
    g.encode(&mut bin).unwrap();
    let img = Image::deserialize(&bin.to_bytes()).unwrap();
    assert_eq!(img.glob_refs[0].offset, 0);
    assert_eq!(img.glob_refs[0].size, 2);
    assert_eq!(img.glob_refs[0].value_type, 1);
    assert_eq!(img.glob_data, vec![0x34, 0x12]);
}

#[test]
fn instruction_decode_inverts_encode() {
    let mut bin = OutBin::new();
    let main = Func::new("main".to_string(), 0);
    bin.add_func(&main);
    let mut code: Vec<u8> = Vec::new();
    let mut dests: Vec<(String, u64)> = Vec::new();
    let mut jumps: Vec<(u64, String)> = Vec::new();
    instr(Opcode::I64Const, Literal::Const(0x42))
        .encode(&mut code, &bin, &mut dests, &mut jumps)
        .unwrap();
    instr(Opcode::Call, Literal::Func("main".to_string()))
        .encode(&mut code, &bin, &mut dests, &mut jumps)
        .unwrap();

    let func_names = vec!["main".to_string()];
    let glob_names: Vec<String> = vec![];
    let mut reader = ByteVecReader::new(code);
    let (i1, s1) = Instruction::decode(&mut reader, &func_names, &glob_names).unwrap();
    assert_eq!(i1.get_opcode(), Opcode::I64Const);
    assert!(matches!(i1.get_literal(), Literal::Const(0x42)));
    assert_eq!(s1, 9);
    let (i2, s2) = Instruction::decode(&mut reader, &func_names, &glob_names).unwrap();
    assert_eq!(i2.get_opcode(), Opcode::Call);
    assert!(matches!(i2.get_literal(), Literal::Func(n) if n == "main"));
    assert_eq!(s2, 5);
}

#[test]
fn decode_rejects_pseudo_and_unknown_bytes() {
    let func_names: Vec<String> = vec![];
    let glob_names: Vec<String> = vec![];
    let mut reader = ByteVecReader::new(vec![Opcode::Label.to_byte()]);
    assert!(Instruction::decode(&mut reader, &func_names, &glob_names).is_err());
    let mut reader = ByteVecReader::new(vec![0xEE]);
    assert!(Instruction::decode(&mut reader, &func_names, &glob_names).is_err());
}

#[test]
fn failed_name_resolution_appends_nothing() {
    let bin = OutBin::new();
    let mut code: Vec<u8> = Vec::new();
    let mut dests: Vec<(String, u64)> = Vec::new();
    let mut jumps: Vec<(u64, String)> = Vec::new();
    let r = instr(Opcode::Call, Literal::Func("absent".to_string()))
        .encode(&mut code, &bin, &mut dests, &mut jumps);
    assert!(r.is_err());
    assert!(code.is_empty());
    let r = instr(Opcode::I32Load, Literal::Glob("absent".to_string()))
        .encode(&mut code, &bin, &mut dests, &mut jumps);
    assert!(r.is_err());
    assert!(code.is_empty());
    assert!(dests.is_empty());
    assert!(jumps.is_empty());
}
