use lc3_vm::memory::{KeyNeeded, MemRegister, Memory, KBDR, KBSR, MEMORY_SIZE};

#[test]
fn new_memory_is_all_zero() {
    let m = Memory::new();
    assert_eq!(m.raw().len(), MEMORY_SIZE);
    assert!(m.raw().iter().all(|w| *w == 0));
}

#[test]
fn register_addresses() {
    assert_eq!(MemRegister::KBSR.address(), 0xFE00);
    assert_eq!(MemRegister::KBDR.address(), 0xFE02);
    assert_eq!(KBSR, 0xFE00);
    assert_eq!(KBDR, 0xFE02);
}

#[test]
fn read_after_write_gives_value_back() {
    let mut m = Memory::new();
    m.memory_write(0x3000, 0xBEEF);
    assert_eq!(m.memory_read(0x3000, None), Ok(0xBEEF));
    m.memory_write(0xFFFF, 7);
    assert_eq!(m.memory_read(0xFFFF, Some(b'x')), Ok(7));
}

#[test]
fn write_leaves_other_addresses() {
    let mut m = Memory::new();
    m.memory_write(0x1234, 1);
    m.memory_write(0x1235, 2);
    assert_eq!(m.memory_read(0x1234, None), Ok(1));
    assert_eq!(m.memory_read(0x1233, None), Ok(0));
}

#[test]
fn raw_mut_writes_are_seen() {
    let mut m = Memory::new();
    m.raw_mut()[0x4000] = 42;
    assert_eq!(m.raw()[0x4000], 42);
    assert_eq!(m.memory_read(0x4000, None), Ok(42));
}

#[test]
fn status_register_read_needs_a_key() {
    let mut m = Memory::new();
    m.memory_write(KBSR, 0x1111);
    assert_eq!(m.memory_read(KBSR, None), Err(KeyNeeded));
    // Refused reads change nothing.
    assert_eq!(m.raw()[KBSR as usize], 0x1111);
}

#[test]
fn keypress_sets_status_and_data() {
    let mut m = Memory::new();
    assert_eq!(m.memory_read(KBSR, Some(b'a')), Ok(0x8000));
    assert_eq!(m.memory_read(KBDR, None), Ok(97));
}

#[test]
fn zero_key_clears_status() {
    let mut m = Memory::new();
    m.memory_write(KBSR, 0x8000);
    m.memory_write(KBDR, 5);
    assert_eq!(m.memory_read(KBSR, Some(0)), Ok(0));
    assert_eq!(m.memory_read(KBDR, None), Ok(5));
}

#[test]
fn data_register_read_needs_no_key() {
    let mut m = Memory::new();
    m.memory_write(KBDR, 9);
    assert_eq!(m.memory_read(KBDR, None), Ok(9));
}
