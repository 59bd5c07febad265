use lc3_vm::cpu::{decode_fault, Action, Condition, Fault, Instruction, Trap, CPU};
use lc3_vm::memory::{KeyNeeded, Memory, KBDR, KBSR};

const POS: u16 = 1;
const ZRO: u16 = 2;
const NEG: u16 = 4;

#[test]
fn new_cpu_starts_at_0x3000() {
    let mut mem = Memory::new();
    let cpu = CPU::new(&mut mem);
    assert_eq!(cpu.pc, 0x3000);
    assert_eq!(cpu.cond, 0);
    assert_eq!(
        [cpu.r0, cpu.r1, cpu.r2, cpu.r3, cpu.r4, cpu.r5, cpu.r6, cpu.r7],
        [0; 8]
    );
}

#[test]
fn opcodes_round_trip() {
    for v in 0u8..16 {
        assert_eq!(Instruction::from(v).value(), v);
    }
    assert_eq!(Instruction::from(0xF), Instruction::OpTrap);
    assert_eq!(Instruction::OpLea.value(), 0xE);
}

#[test]
fn traps_by_vector() {
    assert_eq!(Trap::from(0x20), Trap::GetC);
    assert_eq!(Trap::from(0x21), Trap::Out);
    assert_eq!(Trap::from(0x22), Trap::PutS);
    assert_eq!(Trap::from(0x23), Trap::In);
    assert_eq!(Trap::from(0x24), Trap::PutSp);
    assert_eq!(Trap::from(0x25), Trap::Halt);
}

#[test]
fn condition_flags() {
    assert_eq!(Condition::from(1), Condition::FlPos);
    assert_eq!(Condition::from(2), Condition::FlZro);
    assert_eq!(Condition::from(4), Condition::FlNeg);
    assert_eq!(Condition::FlNeg.value(), 4);
}

#[test]
fn set_cond_sets_one_flag_by_sign() {
    let mut mem = Memory::new();
    let mut cpu = CPU::new(&mut mem);
    cpu.set_cond(0);
    assert_eq!(cpu.cond, ZRO);
    cpu.set_cond(0x8000);
    assert_eq!(cpu.cond, NEG);
    cpu.set_cond(0x7FFF);
    assert_eq!(cpu.cond, POS);
    cpu.set_cond(0xFFFF);
    assert_eq!(cpu.cond, NEG);
}

#[test]
fn next_instruction_wraps() {
    let mut mem = Memory::new();
    let mut cpu = CPU::new(&mut mem);
    cpu.next_instruction();
    assert_eq!(cpu.pc, 0x3001);
    cpu.pc = 0xFFFF;
    cpu.next_instruction();
    assert_eq!(cpu.pc, 0);
}

#[test]
fn add_registers() {
    let mut mem = Memory::new();
    let mut cpu = CPU::new(&mut mem);
    cpu.r1 = 3;
    cpu.r2 = 4;
    cpu.add(0x1242); // ADD R1, R1, R2
    assert_eq!(cpu.r1, 7);
    assert_eq!(cpu.cond, POS);
    assert_eq!(cpu.r2, 4);
}

#[test]
fn add_immediate_sign_extends() {
    let mut mem = Memory::new();
    let mut cpu = CPU::new(&mut mem);
    cpu.add(0x127F); // ADD R1, R1, #-1
    assert_eq!(cpu.r1, 0xFFFF);
    assert_eq!(cpu.cond, NEG);
    cpu.add(0x1261); // ADD R1, R1, #1
    assert_eq!(cpu.r1, 0);
    assert_eq!(cpu.cond, ZRO);
}

#[test]
fn add_zero_immediate_copies() {
    let mut mem = Memory::new();
    let mut cpu = CPU::new(&mut mem);
    cpu.r3 = 1234;
    cpu.add(0x1AE0); // ADD R5, R3, #0
    assert_eq!(cpu.r5, 1234);
    assert_eq!(cpu.cond, POS);
}

#[test]
fn and_immediate_and_register() {
    let mut mem = Memory::new();
    let mut cpu = CPU::new(&mut mem);
    cpu.r0 = 0xFFFF;
    cpu.bitwise_and(0x5020); // AND R0, R0, #0
    assert_eq!(cpu.r0, 0);
    assert_eq!(cpu.cond, ZRO);
    cpu.r0 = 0xF0F0;
    cpu.r1 = 0xFF00;
    cpu.bitwise_and(0x5401); // AND R2, R0, R1
    assert_eq!(cpu.r2, 0xF000);
    assert_eq!(cpu.cond, NEG);
    cpu.r3 = 0x1234;
    cpu.bitwise_and(0x56FF); // AND R3, R3, #-1
    assert_eq!(cpu.r3, 0x1234);
}

#[test]
fn not_twice_restores() {
    let mut mem = Memory::new();
    let mut cpu = CPU::new(&mut mem);
    cpu.r3 = 0x0F0F;
    cpu.bitwise_not(0x96FF); // NOT R3, R3
    assert_eq!(cpu.r3, 0xF0F0);
    assert_eq!(cpu.cond, NEG);
    cpu.bitwise_not(0x96FF);
    assert_eq!(cpu.r3, 0x0F0F);
    assert_eq!(cpu.cond, POS);
}

#[test]
fn branch_taken_only_on_matching_flag() {
    let mut mem = Memory::new();
    let mut cpu = CPU::new(&mut mem);
    cpu.cond = ZRO;
    cpu.branch(0x0402); // BRz #2
    assert_eq!(cpu.pc, 0x3002);
    cpu.branch(0x0802); // BRn #2
    assert_eq!(cpu.pc, 0x3002);
    cpu.cond = NEG;
    cpu.branch(0x09FF); // BRn #-1
    assert_eq!(cpu.pc, 0x3001);
}

#[test]
fn branch_wraps_around_memory() {
    let mut mem = Memory::new();
    let mut cpu = CPU::new(&mut mem);
    cpu.pc = 0x0001;
    cpu.cond = POS;
    cpu.branch(0x03FD); // BRp #-3
    assert_eq!(cpu.pc, 0xFFFE);
}

#[test]
fn jump_and_return() {
    let mut mem = Memory::new();
    let mut cpu = CPU::new(&mut mem);
    cpu.r2 = 0x4000;
    cpu.jump(0xC080); // JMP R2
    assert_eq!(cpu.pc, 0x4000);
}

#[test]
fn call_then_return() {
    let mut mem = Memory::new();
    let mut cpu = CPU::new(&mut mem);
    cpu.jump_register(0x4810); // JSR #16
    assert_eq!(cpu.r7, 0x3000);
    assert_eq!(cpu.pc, 0x3010);
    cpu.jump(0xC1C0); // RET
    assert_eq!(cpu.pc, 0x3000);
}

#[test]
fn call_through_register() {
    let mut mem = Memory::new();
    let mut cpu = CPU::new(&mut mem);
    cpu.r3 = 0x5000;
    cpu.jump_register(0x40C0); // JSRR R3
    assert_eq!(cpu.pc, 0x5000);
    assert_eq!(cpu.r7, 0x3000);
}

#[test]
fn call_through_r7_reads_the_new_link() {
    let mut mem = Memory::new();
    let mut cpu = CPU::new(&mut mem);
    cpu.r7 = 0x5000;
    cpu.jump_register(0x41C0); // JSRR R7
    assert_eq!(cpu.r7, 0x3000);
    assert_eq!(cpu.pc, 0x3000);
}

#[test]
fn load_pc_relative() {
    let mut mem = Memory::new();
    mem.memory_write(0x3005, 0x8001);
    let mut cpu = CPU::new(&mut mem);
    assert_eq!(cpu.load(0x2005, None), Ok(())); // LD R0, #5
    assert_eq!(cpu.r0, 0x8001);
    assert_eq!(cpu.cond, NEG);
}

#[test]
fn load_register_base_offset() {
    let mut mem = Memory::new();
    mem.memory_write(0x3FFE, 77);
    let mut cpu = CPU::new(&mut mem);
    cpu.r2 = 0x4000;
    assert_eq!(cpu.load_register(0x68BE, None), Ok(())); // LDR R4, R2, #-2
    assert_eq!(cpu.r4, 77);
    assert_eq!(cpu.cond, POS);
}

#[test]
fn load_indirect_follows_pointer() {
    let mut mem = Memory::new();
    mem.memory_write(0x3001, 0x4000);
    mem.memory_write(0x4000, 0);
    let mut cpu = CPU::new(&mut mem);
    cpu.r1 = 9;
    assert_eq!(cpu.load_indirect(0xA201, None), Ok(())); // LDI R1, #1
    assert_eq!(cpu.r1, 0);
    assert_eq!(cpu.cond, ZRO);
}

#[test]
fn load_effective_address() {
    let mut mem = Memory::new();
    let mut cpu = CPU::new(&mut mem);
    cpu.load_effective_address(0xEBFD); // LEA R5, #-3
    assert_eq!(cpu.r5, 0x2FFD);
    assert_eq!(cpu.cond, POS);
}

#[test]
fn store_then_load() {
    let mut mem = Memory::new();
    let mut cpu = CPU::new(&mut mem);
    cpu.r0 = 0xCAFE;
    cpu.store(0x3005); // ST R0, #5
    cpu.r0 = 0;
    assert_eq!(cpu.load(0x2005, None), Ok(())); // LD R0, #5
    assert_eq!(cpu.r0, 0xCAFE);
    assert_eq!(cpu.memory.raw()[0x3005], 0xCAFE);
}

#[test]
fn store_register_then_load_register() {
    let mut mem = Memory::new();
    let mut cpu = CPU::new(&mut mem);
    cpu.r2 = 0x6000;
    cpu.r4 = 0x1357;
    cpu.store_register(0x7883); // STR R4, R2, #3
    assert_eq!(cpu.memory.raw()[0x6003], 0x1357);
    assert_eq!(cpu.load_register(0x6283, None), Ok(())); // LDR R1, R2, #3
    assert_eq!(cpu.r1, 0x1357);
}

#[test]
fn store_indirect_follows_pointer() {
    let mut mem = Memory::new();
    mem.memory_write(0x3001, 0x4444);
    let mut cpu = CPU::new(&mut mem);
    cpu.r1 = 5;
    assert_eq!(cpu.store_indirect(0xB201, None), Ok(())); // STI R1, #1
    assert_eq!(cpu.memory.raw()[0x4444], 5);
}

#[test]
fn load_from_keyboard_status_needs_key() {
    let mut mem = Memory::new();
    let mut cpu = CPU::new(&mut mem);
    cpu.pc = 0xFDFF;
    cpu.r0 = 3;
    assert_eq!(cpu.load(0x2001, None), Err(KeyNeeded)); // LD R0, #1 -> 0xFE00
    assert_eq!(cpu.r0, 3);
    assert_eq!(cpu.load(0x2001, Some(b'q')), Ok(()));
    assert_eq!(cpu.r0, 0x8000);
    assert_eq!(cpu.cond, NEG);
    assert_eq!(cpu.memory.raw()[KBDR as usize], b'q' as u16);
}

#[test]
fn load_indirect_through_status_pointer_needs_key() {
    let mut mem = Memory::new();
    mem.memory_write(0x3001, KBSR);
    let mut cpu = CPU::new(&mut mem);
    assert_eq!(cpu.load_indirect(0xA201, None), Err(KeyNeeded));
    assert_eq!(cpu.r1, 0);
    assert_eq!(cpu.load_indirect(0xA201, Some(0)), Ok(()));
    assert_eq!(cpu.r1, 0);
    assert_eq!(cpu.cond, ZRO);
}

#[test]
fn fetch_reads_and_advances() {
    let mut mem = Memory::new();
    mem.memory_write(0x3000, 0x1261);
    let mut cpu = CPU::new(&mut mem);
    assert_eq!(cpu.fetch(None), Ok(0x1261));
    assert_eq!(cpu.pc, 0x3001);
}

#[test]
fn fetch_from_keyboard_status_needs_key() {
    let mut mem = Memory::new();
    let mut cpu = CPU::new(&mut mem);
    cpu.pc = KBSR;
    assert_eq!(cpu.fetch(None), Err(KeyNeeded));
    assert_eq!(cpu.pc, KBSR);
    assert_eq!(cpu.fetch(Some(b'k')), Ok(0x8000));
    assert_eq!(cpu.pc, KBSR + 1);
}

#[test]
fn faults() {
    assert_eq!(decode_fault(0x8000), Some(Fault::Rti));
    assert_eq!(decode_fault(0xD000), Some(Fault::Reserved));
    assert_eq!(decode_fault(0x0000), Some(Fault::InvalidCondition(0)));
    assert_eq!(decode_fault(0x0E05), Some(Fault::InvalidCondition(7)));
    assert_eq!(decode_fault(0xF026), Some(Fault::InvalidTrap(0x26)));
    assert_eq!(decode_fault(0xF01F), Some(Fault::InvalidTrap(0x1F)));
    assert_eq!(decode_fault(0x1261), None);
    assert_eq!(decode_fault(0x0402), None);
    assert_eq!(decode_fault(0xF025), None);
}

#[test]
fn exec_dispatches() {
    let mut mem = Memory::new();
    let mut cpu = CPU::new(&mut mem);
    assert_eq!(cpu.exec(0x127F, None), Ok(Action::Continue));
    assert_eq!(cpu.r1, 0xFFFF);
    assert_eq!(cpu.exec(0x96FF, None), Ok(Action::Continue)); // NOT R3, R3
    assert_eq!(cpu.r3, 0xFFFF);
    assert_eq!(cpu.exec(0x0802, None), Ok(Action::Continue)); // BRn #2
    assert_eq!(cpu.pc, 0x3002);
}

#[test]
fn key_only_matters_to_keyboard_reads() {
    let mut mem1 = Memory::new();
    let mut cpu1 = CPU::new(&mut mem1);
    let mut mem2 = Memory::new();
    let mut cpu2 = CPU::new(&mut mem2);
    cpu1.r2 = 40;
    cpu2.r2 = 40;
    assert_eq!(cpu1.exec(0x1242, None), Ok(Action::Continue));
    assert_eq!(cpu2.exec(0x1242, Some(b'z')), Ok(Action::Continue));
    assert_eq!((cpu1.r1, cpu1.cond), (cpu2.r1, cpu2.cond));
    assert_eq!(cpu1.memory.raw()[KBSR as usize], cpu2.memory.raw()[KBSR as usize]);
}

#[test]
fn exec_traps() {
    let mut mem = Memory::new();
    let mut cpu = CPU::new(&mut mem);
    cpu.r0 = 0x0141;
    assert_eq!(cpu.out(), b'A');
    assert_eq!(cpu.exec(0xF021, None), Ok(Action::Output(vec![b'A'])));
    assert_eq!(cpu.exec(0xF020, None), Ok(Action::GetChar));
    cpu.get_c(b'g');
    assert_eq!(cpu.r0, b'g' as u16);
    assert_eq!(cpu.exec(0xF023, None), Ok(Action::ReadChar));
    cpu.read(b'i');
    assert_eq!(cpu.r0, b'i' as u16);
    assert_eq!(cpu.exec(0xF025, None), Ok(Action::Halt));
}

#[test]
fn puts_writes_low_bytes_until_zero() {
    let mut mem = Memory::new();
    mem.memory_write(0x4000, 0x0148);
    mem.memory_write(0x4001, 0x0069);
    mem.memory_write(0x4002, 0);
    mem.memory_write(0x4003, 0x0021);
    let mut cpu = CPU::new(&mut mem);
    cpu.r0 = 0x4000;
    assert_eq!(cpu.put_s(None), Ok(b"Hi".to_vec()));
    assert_eq!(cpu.exec(0xF022, None), Ok(Action::Output(b"Hi".to_vec())));
    cpu.r0 = 0x4002;
    assert_eq!(cpu.put_s(None), Ok(vec![]));
}

#[test]
fn putsp_writes_two_bytes_per_word() {
    let mut mem = Memory::new();
    mem.memory_write(0x4000, 0x6261); // "ab"
    mem.memory_write(0x4001, 0x0063); // "c"
    mem.memory_write(0x4002, 0);
    let mut cpu = CPU::new(&mut mem);
    cpu.r0 = 0x4000;
    assert_eq!(cpu.put_sp(None), Ok(b"abc".to_vec()));
    assert_eq!(cpu.exec(0xF024, None), Ok(Action::Output(b"abc".to_vec())));
}

#[test]
fn string_through_keyboard_status_needs_key() {
    let mut mem = Memory::new();
    for a in 0xFDFEu16..0xFE00 {
        mem.memory_write(a, 0x41);
    }
    mem.memory_write(0xFE01, 0x42);
    mem.memory_write(0xFE02, 0x43);
    let mut cpu = CPU::new(&mut mem);
    cpu.r0 = 0xFDFE;
    assert_eq!(cpu.put_s(None), Err(KeyNeeded));
    assert!(cpu.string_terminates(0));
    // A zero key clears the status register, which ends the string.
    assert_eq!(cpu.put_s(Some(0)), Ok(b"AA".to_vec()));
}

#[test]
fn string_continues_past_polled_status() {
    let mut mem = Memory::new();
    mem.memory_write(0xFDFF, 0x41);
    mem.memory_write(0xFE01, 0x42);
    let mut cpu = CPU::new(&mut mem);
    cpu.r0 = 0xFDFF;
    assert!(cpu.string_terminates(b'x'));
    // 0xFE00 reads 0x8000 (low byte 0), 0xFE02 holds the key, 0xFE03 is zero.
    assert_eq!(cpu.put_s(Some(b'x')), Ok(vec![0x41, 0x00, 0x42, b'x']));
}

#[test]
fn string_without_terminator() {
    let mut mem = Memory::new();
    for w in mem.raw_mut().iter_mut() {
        *w = 0x20;
    }
    let mut cpu = CPU::new(&mut mem);
    cpu.r0 = 0x3000;
    assert!(!cpu.string_terminates(b'x'));
    assert!(cpu.string_terminates(0));
}
