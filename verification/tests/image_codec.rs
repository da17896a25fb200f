use archmage::context::Context;
use archmage::glob::GlobalValue;
use archmage::image::Image;
use archmage::instruction::{Instruction, Literal};
use archmage::opcode::Opcode;
use archmage::vm::VM;

fn sample_image() -> Vec<u8> {
    let mut ctx = Context::new();
    ctx.make_func_with_code(
        "main",
        1,
        vec![
            Instruction::new(Opcode::I64Const, Literal::Const(7)),
            Instruction::new(Opcode::I32Store, Literal::Glob("counter".to_string())),
            Instruction::new(Opcode::Return, Literal::Empty),
        ],
    )
    .unwrap();
    ctx.make_func_with_code(
        "noop",
        0,
        vec![Instruction::new(Opcode::Return, Literal::Empty)],
    )
    .unwrap();
    ctx.make_glob_with_value("counter", GlobalValue::U32(5)).unwrap();
    ctx.make_glob_with_value("blob", GlobalValue::ByteArray(vec![1, 2, 3]))
        .unwrap();
    ctx.to_bytes().unwrap()
}

#[test]
fn serialize_deserialize_round_trip() {
    let bytes = sample_image();
    let img = Image::deserialize(&bytes).unwrap();
    assert_eq!(img.serialize(), bytes);
}

#[test]
fn header_fields_describe_the_sections() {
    let bytes = sample_image();
    let img = Image::deserialize(&bytes).unwrap();
    assert_eq!(&img.header.magic, b"archmage");
    assert_eq!(img.header.header_size, 82);
    assert_eq!(img.header.checksum, 0);
    assert_eq!(img.header.file_size as usize, bytes.len());
    assert_eq!(img.header.str_tab_size as usize, img.str_table.len());
    assert_eq!(img.header.func_tab_size as usize, img.func_refs.len() * 17);
    assert_eq!(img.header.glob_tab_size as usize, img.glob_refs.len() * 17);
    assert_eq!(img.header.code_size as usize, img.code.len());
    assert_eq!(img.header.glob_size as usize, img.glob_data.len());
    // global data holds the u32 scalar then the verbatim byte array
    assert_eq!(img.glob_data, vec![5, 0, 0, 0, 1, 2, 3]);
}

#[test]
fn bad_magic_is_rejected() {
    let mut bytes = sample_image();
    bytes[0..8].copy_from_slice(b"notmagic");
    let err = match Image::deserialize(&bytes) {
        Err(e) => e,
        Ok(_) => panic!("expected an error"),
    };
    assert_eq!(err, "Bad magic");
    let err = match VM::init(bytes, 16) {
        Err(e) => e,
        Ok(_) => panic!("expected an error"),
    };
    assert_eq!(err, "Bad magic");
}

#[test]
fn ragged_function_table_is_rejected() {
    let mut bytes = sample_image();
    // func_tab_size field: not a whole number of 17-byte records
    bytes[42] = 16;
    bytes[43] = 0;
    bytes[44] = 0;
    bytes[45] = 0;
    let err = match Image::deserialize(&bytes) {
        Err(e) => e,
        Ok(_) => panic!("expected an error"),
    };
    assert_eq!(err, "Function table size is not a multiple of its entry size");
}

#[test]
fn truncated_image_is_rejected() {
    let bytes = sample_image();
    let truncated = bytes[..bytes.len() - 1].to_vec();
    assert!(Image::deserialize(&truncated).is_err());
    assert!(Image::deserialize(&vec![0u8; 10]).is_err());
}

#[test]
fn loader_resolves_names() {
    let bytes = sample_image();
    let mut vm = VM::init(bytes, 16).unwrap();
    assert!(vm.execute("noop", 1000).is_ok());
}
