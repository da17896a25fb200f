use archmage::byte_vec::ByteVec;
use archmage::byte_vec_reader::ByteVecReader;
use archmage::bin_utils::str_from_table;
use archmage::opcode::Opcode;

#[test]
fn byte_vec_write_read_round_trip() {
    let mut bv = ByteVec::new(vec![0u8; 32]);
    bv.write_u8(0x11).unwrap();
    bv.write_u16(0x2233).unwrap();
    bv.write_u32(0x4455_6677).unwrap();
    bv.write_u64(0x8899_AABB_CCDD_EEFF).unwrap();
    bv.set_current_byte_idx(0);
    assert_eq!(bv.read_u8().unwrap(), 0x11);
    assert_eq!(bv.read_u16().unwrap(), 0x2233);
    assert_eq!(bv.read_u32().unwrap(), 0x4455_6677);
    assert_eq!(bv.read_u64().unwrap(), 0x8899_AABB_CCDD_EEFF);
}

#[test]
fn byte_vec_little_endian_layout() {
    let mut bv = ByteVec::new(vec![0u8; 4]);
    bv.write_u32(0x0102_0304).unwrap();
    bv.set_current_byte_idx(0);
    assert_eq!(bv.read_u8().unwrap(), 0x04);
    assert_eq!(bv.read_u8().unwrap(), 0x03);
    assert_eq!(bv.read_u8().unwrap(), 0x02);
    assert_eq!(bv.read_u8().unwrap(), 0x01);
}

#[test]
fn byte_vec_rejects_out_of_bounds() {
    let mut bv = ByteVec::new(vec![0u8; 2]);
    assert!(bv.write_u32(1).is_err());
    bv.set_current_byte_idx(1);
    assert!(bv.read_u16().is_err());
    bv.set_current_byte_idx(5);
    assert!(bv.read_u8().is_err());
    assert!(bv.write_u8(1).is_err());
}

#[test]
fn byte_vec_resize_grows_with_zeros() {
    let mut bv = ByteVec::new(vec![7u8]);
    bv.resize(3);
    assert_eq!(bv.len(), 3);
    bv.set_current_byte_idx(2);
    assert_eq!(bv.read_u8().unwrap(), 0);
}

#[test]
fn reader_reads_sections() {
    let mut r = ByteVecReader::new(vec![1, 0, 2, 0, 0, 0, 9]);
    assert_eq!(r.read_u16().unwrap(), 1);
    assert_eq!(r.read_u32().unwrap(), 2);
    assert_eq!(r.get_current_byte_idx(), 6);
    assert_eq!(r.read_u8().unwrap(), 9);
    assert!(r.read_u8().is_err());
}

#[test]
fn str_from_table_reads_nul_terminated() {
    let table = b"main\0helper\0".to_vec();
    assert_eq!(str_from_table(&table, 0).unwrap(), "main");
    assert_eq!(str_from_table(&table, 5).unwrap(), "helper");
}

#[test]
fn str_from_table_missing_terminator_fails() {
    let table = b"main".to_vec();
    assert!(str_from_table(&table, 0).is_err());
    assert!(str_from_table(&table, 10).is_err());
}

#[test]
fn str_from_table_invalid_utf8_fails() {
    let table = vec![0xFF, 0xFE, 0x00];
    assert!(str_from_table(&table, 0).is_err());
}

#[test]
fn opcode_byte_round_trip() {
    let ops = [
        Opcode::Nop,
        Opcode::Return,
        Opcode::Call,
        Opcode::Jump,
        Opcode::I64Const,
        Opcode::F64Const,
        Opcode::I8LoadC,
        Opcode::F64Sqrt,
        Opcode::Label,
    ];
    for op in ops {
        assert_eq!(Opcode::from_byte(op.to_byte()), Some(op));
    }
    assert_eq!(Opcode::from_byte(0xFF), None);
}

#[test]
fn opcode_immediate_widths() {
    assert_eq!(Opcode::Call.imm_size(), 4);
    assert_eq!(Opcode::I32Load.imm_size(), 4);
    assert_eq!(Opcode::I64Const.imm_size(), 8);
    assert_eq!(Opcode::I64Eq.imm_size(), 8);
    assert_eq!(Opcode::I64Add.imm_size(), 0);
    assert!(!Opcode::Nop.has_immediate());
    assert!(Opcode::Jump.has_immediate());
}
