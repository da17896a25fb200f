use archmage::stack::{Stack, STACK_CAPACITY};

#[test]
fn pop_returns_pushed_value() {
    let mut s = Stack::new();
    s.push(0xDEAD_BEEF_u64).unwrap();
    assert_eq!(s.pop().unwrap(), 0xDEAD_BEEF_u64);
}

#[test]
fn get_zero_is_top_after_push() {
    let mut s = Stack::new();
    s.push(7).unwrap();
    s.push(42).unwrap();
    assert_eq!(s.get(0).unwrap(), 42);
    assert_eq!(s.get(1).unwrap(), 7);
}

#[test]
fn set_overwrites_below_top() {
    let mut s = Stack::new();
    s.push(1).unwrap();
    s.push(2).unwrap();
    s.set(1, 99).unwrap();
    assert_eq!(s.get(1).unwrap(), 99);
    assert_eq!(s.get(0).unwrap(), 2);
}

#[test]
fn pop_empty_fails() {
    let mut s = Stack::new();
    assert!(s.pop().is_err());
}

#[test]
fn get_out_of_range_fails() {
    let mut s = Stack::new();
    s.push(5).unwrap();
    assert!(s.get(1).is_err());
    assert!(s.set(1, 0).is_err());
}

#[test]
fn push_overflows_at_capacity() {
    let mut s = Stack::new();
    for i in 0..STACK_CAPACITY {
        s.push(i as u64).unwrap();
    }
    assert!(s.push(0).is_err());
    assert_eq!(s.pop().unwrap(), (STACK_CAPACITY - 1) as u64);
}
