use archmage::memory::{
    MachineMemory, CALL_STACK_START, IMAGE_SIZE, RESERVED_MEMORY_START, STACK_START,
};
use archmage::float_bits::{f64_abs_bits, f64_eq_bits, f64_ge_bits, f64_le_bits, f64_lt_bits};
use archmage::sys_call::SysCall;
use archmage::video_mode::VideoMode;

#[test]
fn kernel_is_laid_at_the_bottom() {
    let mem = MachineMemory::new(vec![9, 8, 7]).unwrap();
    assert_eq!(mem.ram_start_address(), 3);
    assert_eq!(mem.read_u8(0).unwrap(), 9);
    assert_eq!(mem.read_u8(2).unwrap(), 7);
    assert_eq!(mem.read_u8(3).unwrap(), 0);
    assert_eq!(mem.dump_memory().len(), IMAGE_SIZE);
}

#[test]
fn oversized_kernel_is_rejected() {
    let big = vec![0u8; RESERVED_MEMORY_START as usize];
    assert!(MachineMemory::new(big).is_err());
    let fitting = vec![0u8; RESERVED_MEMORY_START as usize - 1];
    assert!(MachineMemory::new(fitting).is_ok());
}

#[test]
fn kernel_region_is_read_only() {
    let mut mem = MachineMemory::new(vec![1, 2, 3]).unwrap();
    assert!(mem.write_u8(1, 0xAA).is_err());
    mem.write_u8(3, 0xAA).unwrap();
    assert_eq!(mem.read_u8(3).unwrap(), 0xAA);
}

#[test]
fn memory_layout_constants_nest() {
    assert!(CALL_STACK_START < STACK_START);
    let mem = MachineMemory::new(vec![]).unwrap();
    assert_eq!(mem.stack_start_address(), STACK_START);
    assert_eq!(mem.call_stack_start_address(), CALL_STACK_START);
}

#[test]
fn dump_memory_range_is_inclusive() {
    let mut mem = MachineMemory::new(vec![]).unwrap();
    mem.write_u8(10, 1).unwrap();
    mem.write_u8(11, 2).unwrap();
    mem.write_u8(12, 3).unwrap();
    assert_eq!(mem.dump_memory_range(10, 12), vec![1, 2, 3]);
}

#[test]
fn sys_call_ids_round_trip() {
    for s in [SysCall::Idle, SysCall::RenderVRAM, SysCall::PollInputEvents] {
        assert_eq!(SysCall::from_id(s.to_id()), Some(s));
    }
    assert_eq!(SysCall::from_id(0xEE), None);
}

#[test]
fn video_mode_ids_round_trip() {
    for m in [VideoMode::Pixel, VideoMode::Text] {
        assert_eq!(VideoMode::from_id(m.to_id()), Some(m));
    }
    assert_eq!(VideoMode::from_id(2), None);
}

#[test]
fn float_bit_comparisons_match_ieee() {
    let samples = [
        0.0_f64, -0.0, 1.0, -1.0, 1.5, -2.5, f64::INFINITY, f64::NEG_INFINITY, f64::NAN,
        f64::MIN_POSITIVE, 1e308,
    ];
    for &a in &samples {
        for &b in &samples {
            let (x, y) = (a.to_bits(), b.to_bits());
            assert_eq!(f64_eq_bits(x, y), a == b, "eq {a} {b}");
            assert_eq!(f64_lt_bits(x, y), a < b, "lt {a} {b}");
            assert_eq!(f64_le_bits(x, y), a <= b, "le {a} {b}");
            assert_eq!(f64_ge_bits(x, y), a >= b, "ge {a} {b}");
        }
    }
}

#[test]
fn float_bit_abs_clears_the_sign() {
    assert_eq!(f64_abs_bits((-3.5_f64).to_bits()), 3.5_f64.to_bits());
    assert_eq!(f64_abs_bits(3.5_f64.to_bits()), 3.5_f64.to_bits());
    assert_eq!(f64_abs_bits((-0.0_f64).to_bits()), 0.0_f64.to_bits());
}
