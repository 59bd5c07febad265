use vstd::prelude::*;
use vstd::arithmetic::power2::{pow2, lemma2_to64};
use vstd::bits::{lemma_u16_shl_is_mul, lemma_u16_pow2_no_overflow};

use crate::memory::{Memory, KeyNeeded, KBSR, MEMORY_SIZE, after_read, read_needs_key, key_byte, polled};

verus! {

broadcast use crate::memory::lemma_memory_len;

// ---------------------------------------------------------------------------------------
// Trap vectors, condition flags and opcodes
// ---------------------------------------------------------------------------------------

/// The trap routines, by trap vector (0x20 to 0x25).
#[derive(Clone, Copy, Debug, PartialEq, Eq, Structural)]
pub enum Trap {
    /// 0x20: get a character from the keyboard, not echoed.
    GetC,
    /// 0x21: output a character.
    Out,
    /// 0x22: output a string of one character per word.
    PutS,
    /// 0x23: get a character from the keyboard, with a prompt, echoed.
    In,
    /// 0x24: output a string of two characters per word.
    PutSp,
    /// 0x25: halt the program.
    Halt,
}

impl Trap {
    pub open spec fn spec_from(v: u16) -> Trap {
        if v == 0x20 {
            Trap::GetC
        } else if v == 0x21 {
            Trap::Out
        } else if v == 0x22 {
            Trap::PutS
        } else if v == 0x23 {
            Trap::In
        } else if v == 0x24 {
            Trap::PutSp
        } else {
            Trap::Halt
        }
    }

    /// The trap routine with trap vector `v`.
    pub fn from(v: u16) -> (t: Trap)
        requires
            0x20 <= v <= 0x25,
        ensures
            t == Trap::spec_from(v),
    {
        match v {
            0x20 => Trap::GetC,
            0x21 => Trap::Out,
            0x22 => Trap::PutS,
            0x23 => Trap::In,
            0x24 => Trap::PutSp,
            _ => Trap::Halt,
        }
    }
}

/// The condition flags, one bit each.
#[derive(Clone, Copy, Debug, PartialEq, Eq, Structural)]
pub enum Condition {
    /// Bit 0: the last result was positive.
    FlPos,
    /// Bit 1: the last result was zero.
    FlZro,
    /// Bit 2: the last result was negative.
    FlNeg,
}

impl Condition {
    pub open spec fn spec_from(v: u16) -> Condition {
        if v == 1 {
            Condition::FlPos
        } else if v == 2 {
            Condition::FlZro
        } else {
            Condition::FlNeg
        }
    }

    pub open spec fn spec_value(self) -> u16 {
        match self {
            Condition::FlPos => 1,
            Condition::FlZro => 2,
            Condition::FlNeg => 4,
        }
    }

    /// The flag whose bit is `v` (1, 2 or 4).
    pub fn from(v: u16) -> (c: Condition)
        requires
            v == 1 || v == 2 || v == 4,
        ensures
            c == Condition::spec_from(v),
            c.spec_value() == v,
    {
        match v {
            1 => Condition::FlPos,
            2 => Condition::FlZro,
            _ => Condition::FlNeg,
        }
    }

    /// The flag's bit in the condition register.
    pub fn value(&self) -> (v: u16)
        ensures
            v == self.spec_value(),
    {
        match self {
            Condition::FlPos => 1,
            Condition::FlZro => 2,
            Condition::FlNeg => 4,
        }
    }
}

/// The sixteen opcodes, in opcode order.
#[derive(Clone, Copy, Debug, PartialEq, Eq, Structural)]
pub enum Instruction {
    OpBr,
    OpAdd,
    OpLd,
    OpSt,
    OpJsr,
    OpAnd,
    OpLdr,
    OpStr,
    OpRti,
    OpNot,
    OpLdi,
    OpSti,
    OpJmp,
    OpRes,
    OpLea,
    OpTrap,
}

impl Instruction {
    pub open spec fn spec_from(v: u8) -> Instruction {
        if v == 0x0 {
            Instruction::OpBr
        } else if v == 0x1 {
            Instruction::OpAdd
        } else if v == 0x2 {
            Instruction::OpLd
        } else if v == 0x3 {
            Instruction::OpSt
        } else if v == 0x4 {
            Instruction::OpJsr
        } else if v == 0x5 {
            Instruction::OpAnd
        } else if v == 0x6 {
            Instruction::OpLdr
        } else if v == 0x7 {
            Instruction::OpStr
        } else if v == 0x8 {
            Instruction::OpRti
        } else if v == 0x9 {
            Instruction::OpNot
        } else if v == 0xA {
            Instruction::OpLdi
        } else if v == 0xB {
            Instruction::OpSti
        } else if v == 0xC {
            Instruction::OpJmp
        } else if v == 0xD {
            Instruction::OpRes
        } else if v == 0xE {
            Instruction::OpLea
        } else {
            Instruction::OpTrap
        }
    }

    pub open spec fn spec_value(self) -> u8 {
        match self {
            Instruction::OpBr => 0x0,
            Instruction::OpAdd => 0x1,
            Instruction::OpLd => 0x2,
            Instruction::OpSt => 0x3,
            Instruction::OpJsr => 0x4,
            Instruction::OpAnd => 0x5,
            Instruction::OpLdr => 0x6,
            Instruction::OpStr => 0x7,
            Instruction::OpRti => 0x8,
            Instruction::OpNot => 0x9,
            Instruction::OpLdi => 0xA,
            Instruction::OpSti => 0xB,
            Instruction::OpJmp => 0xC,
            Instruction::OpRes => 0xD,
            Instruction::OpLea => 0xE,
            Instruction::OpTrap => 0xF,
        }
    }

    /// The instruction with opcode `v`.
    pub fn from(v: u8) -> (i: Instruction)
        requires
            v < 16,
        ensures
            i == Instruction::spec_from(v),
    {
        match v {
            0x0 => Instruction::OpBr,
            0x1 => Instruction::OpAdd,
            0x2 => Instruction::OpLd,
            0x3 => Instruction::OpSt,
            0x4 => Instruction::OpJsr,
            0x5 => Instruction::OpAnd,
            0x6 => Instruction::OpLdr,
            0x7 => Instruction::OpStr,
            0x8 => Instruction::OpRti,
            0x9 => Instruction::OpNot,
            0xA => Instruction::OpLdi,
            0xB => Instruction::OpSti,
            0xC => Instruction::OpJmp,
            0xD => Instruction::OpRes,
            0xE => Instruction::OpLea,
            _ => Instruction::OpTrap,
        }
    }

    /// The instruction's opcode.
    pub fn value(&self) -> (v: u8)
        ensures
            v == self.spec_value(),
    {
        match self {
            Instruction::OpBr => 0x0,
            Instruction::OpAdd => 0x1,
            Instruction::OpLd => 0x2,
            Instruction::OpSt => 0x3,
            Instruction::OpJsr => 0x4,
            Instruction::OpAnd => 0x5,
            Instruction::OpLdr => 0x6,
            Instruction::OpStr => 0x7,
            Instruction::OpRti => 0x8,
            Instruction::OpNot => 0x9,
            Instruction::OpLdi => 0xA,
            Instruction::OpSti => 0xB,
            Instruction::OpJmp => 0xC,
            Instruction::OpRes => 0xD,
            Instruction::OpLea => 0xE,
            Instruction::OpTrap => 0xF,
        }
    }
}

// ---------------------------------------------------------------------------------------
// Instruction fields and machine arithmetic
// ---------------------------------------------------------------------------------------

/// The opcode: bits 15..12.
pub open spec fn opcode(instr: u16) -> u16 {
    instr >> 12
}

/// The destination (or, for stores, source) register: bits 11..9.
pub open spec fn dr(instr: u16) -> int {
    ((instr >> 9) & 7) as int
}

/// The first source (or base) register: bits 8..6.
pub open spec fn sr1(instr: u16) -> int {
    ((instr >> 6) & 7) as int
}

/// The second source register: bits 2..0.
pub open spec fn sr2(instr: u16) -> int {
    (instr & 7) as int
}

/// Bit 5: the second operand is an immediate.
pub open spec fn imm_mode(instr: u16) -> bool {
    (instr >> 5) & 1 == 1
}

/// Bit 11: a subroutine call is PC-relative rather than through a register.
pub open spec fn jsr_pc_relative(instr: u16) -> bool {
    (instr >> 11) & 1 == 1
}

/// The branch condition mask: bits 11..9.
pub open spec fn nzp(instr: u16) -> u16 {
    (instr >> 9) & 7
}

/// The trap vector: bits 7..0.
pub open spec fn trap_vector(instr: u16) -> u16 {
    instr & 0xFF
}

/// Two's-complement widening to 16 bits of a field whose top bit has the value `sign_bit`:
/// a field with its top bit set stands for `field - 2 * sign_bit`.
pub open spec fn sext(field: u16, sign_bit: int) -> u16 {
    if field >= sign_bit {
        (field + 0x10000 - 2 * sign_bit) as u16
    } else {
        field
    }
}

/// The immediate operand: bits 4..0, sign-extended.
pub open spec fn imm5(instr: u16) -> u16 {
    sext(instr & 0x1F, 0x10)
}

/// The base-relative offset: bits 5..0, sign-extended.
pub open spec fn offset6(instr: u16) -> u16 {
    sext(instr & 0x3F, 0x20)
}

/// The PC-relative offset: bits 8..0, sign-extended.
pub open spec fn offset9(instr: u16) -> u16 {
    sext(instr & 0x1FF, 0x100)
}

/// The subroutine offset: bits 10..0, sign-extended.
pub open spec fn offset11(instr: u16) -> u16 {
    sext(instr & 0x7FF, 0x400)
}

/// Addition modulo 2^16.
pub open spec fn add16(a: int, b: int) -> u16 {
    ((a + b) % 0x10000) as u16
}

/// The condition flag that a result sets: zero, negative (bit 15 set) or positive.
pub open spec fn cond_flag(v: u16) -> u16 {
    if v == 0 {
        Condition::FlZro.spec_value()
    } else if v >= 0x8000 {
        Condition::FlNeg.spec_value()
    } else {
        Condition::FlPos.spec_value()
    }
}

/// The ranges of the instruction fields, and bit 15 as the sign.
pub(crate) proof fn lemma_fields(instr: u16)
    by (bit_vector)
    ensures
        instr >> 12 < 16,
        (instr >> 9) & 7 < 8,
        (instr >> 6) & 7 < 8,
        instr & 7 < 8,
        instr & 0x1F < 0x20,
        instr & 0x3F < 0x40,
        instr & 0x1FF < 0x200,
        instr & 0x7FF < 0x800,
        instr & 0xFF < 0x100,
        ((instr >> 15) & 1 == 1) == (instr >= 0x8000),
{
}

// ---------------------------------------------------------------------------------------
// Supported instructions and what executing one asks of the caller
// ---------------------------------------------------------------------------------------

/// Why an instruction cannot be executed.
#[derive(Clone, Copy, Debug, PartialEq, Eq, Structural)]
pub enum Fault {
    /// RTI, return from interrupt, is not supported.
    Rti,
    /// The reserved opcode.
    Reserved,
    /// A branch whose condition mask (given) does not name exactly one flag.
    InvalidCondition(u16),
    /// A trap vector (given) outside 0x20 to 0x25.
    InvalidTrap(u16),
}

/// The instruction can be executed: neither RTI nor the reserved opcode, a branch mask
/// naming exactly one flag, a trap vector from 0x20 to 0x25.
pub open spec fn supported(instr: u16) -> bool {
    &&& opcode(instr) != 8
    &&& opcode(instr) != 13
    &&& opcode(instr) == 0 ==> (nzp(instr) == 1 || nzp(instr) == 2 || nzp(instr) == 4)
    &&& opcode(instr) == 15 ==> 0x20 <= trap_vector(instr) <= 0x25
}

/// The reason the instruction cannot be executed, if any.
pub open spec fn fault_of(instr: u16) -> Option<Fault> {
    if opcode(instr) == 8 {
        Some(Fault::Rti)
    } else if opcode(instr) == 13 {
        Some(Fault::Reserved)
    } else if opcode(instr) == 0 && !(nzp(instr) == 1 || nzp(instr) == 2 || nzp(instr) == 4) {
        Some(Fault::InvalidCondition(nzp(instr)))
    } else if opcode(instr) == 15 && !(0x20 <= trap_vector(instr) <= 0x25) {
        Some(Fault::InvalidTrap(trap_vector(instr)))
    } else {
        None
    }
}

/// Checks that `instruction` can be executed, and says why not otherwise.
pub fn decode_fault(instruction: u16) -> (f: Option<Fault>)
    ensures
        f == fault_of(instruction),
        f is None <==> supported(instruction),
{
    let op_code = instruction >> 12;
    let cond = (instruction >> 9) & 0x7;
    let vector = instruction & 0xFF;
    if op_code == 8 {
        Some(Fault::Rti)
    } else if op_code == 13 {
        Some(Fault::Reserved)
    } else if op_code == 0 && !(cond == 1 || cond == 2 || cond == 4) {
        Some(Fault::InvalidCondition(cond))
    } else if op_code == 15 && !(0x20 <= vector && vector <= 0x25) {
        Some(Fault::InvalidTrap(vector))
    } else {
        None
    }
}

/// TRAP PUTS or TRAP PUTSP: the instructions that write a string from memory.
pub open spec fn outputs_string(instr: u16) -> bool {
    opcode(instr) == 15 && (trap_vector(instr) == 0x22 || trap_vector(instr) == 0x24)
}

/// Whether `instruction` is TRAP PUTS or TRAP PUTSP, whose keyboard byte may only be given
/// when `CPU::string_terminates` holds for it.
pub fn writes_string(instruction: u16) -> (r: bool)
    ensures
        r == outputs_string(instruction),
{
    let vector = instruction & 0xFF;
    (instruction >> 12) == 15 && (vector == 0x22 || vector == 0x24)
}

/// What an executed instruction leaves to the caller, as a value.
pub enum Effect {
    Continue,
    Output(Seq<u8>),
    GetChar,
    ReadChar,
    Halt,
}

/// What an executed instruction leaves to the caller.
#[derive(Debug, PartialEq, Eq)]
pub enum Action {
    /// Nothing: go on with the next instruction.
    Continue,
    /// Write these characters.
    Output(Vec<u8>),
    /// Read one character and hand it to `CPU::get_c`.
    GetChar,
    /// Prompt for one character, read and echo it, and hand it to `CPU::read`.
    ReadChar,
    /// Stop the machine.
    Halt,
}

impl View for Action {
    type V = Effect;

    open spec fn view(&self) -> Effect {
        match self {
            Action::Continue => Effect::Continue,
            Action::Output(v) => Effect::Output(v@),
            Action::GetChar => Effect::GetChar,
            Action::ReadChar => Effect::ReadChar,
            Action::Halt => Effect::Halt,
        }
    }
}

/// Wrapping addition of 16-bit words is addition modulo 2^16.
proof fn lemma_add16(a: u16, b: u16)
    ensures
        vstd::wrapping::u16_specs::wrapping_add(a, b) == add16(a as int, b as int),
{
}

/// The sizes of the immediate and offset fields, and of their sign bits.
proof fn lemma_field_widths()
    ensures
        pow2(4) == 0x10 && pow2(5) == 0x20 && pow2(6) == 0x40,
        pow2(8) == 0x100 && pow2(9) == 0x200,
        pow2(10) == 0x400 && pow2(11) == 0x800,
{
    lemma2_to64();
}

// ---------------------------------------------------------------------------------------
// Machine state
// ---------------------------------------------------------------------------------------

/// The machine as a value: the eight general-purpose registers, the program counter, the
/// condition register and the contents of memory.
pub struct CpuState {
    pub r0: u16,
    pub r1: u16,
    pub r2: u16,
    pub r3: u16,
    pub r4: u16,
    pub r5: u16,
    pub r6: u16,
    pub r7: u16,
    pub pc: u16,
    pub cond: u16,
    pub mem: Seq<u16>,
}

impl CpuState {
    /// Register `i`: 0 to 7 are the general-purpose registers, 8 the program counter and
    /// 9 the condition register.
    pub open spec fn reg(self, i: int) -> u16 {
        if i == 0 {
            self.r0
        } else if i == 1 {
            self.r1
        } else if i == 2 {
            self.r2
        } else if i == 3 {
            self.r3
        } else if i == 4 {
            self.r4
        } else if i == 5 {
            self.r5
        } else if i == 6 {
            self.r6
        } else if i == 7 {
            self.r7
        } else if i == 8 {
            self.pc
        } else {
            self.cond
        }
    }

    /// The state with register `i` (numbered as in `reg`) set to `v`.
    pub open spec fn with_reg(self, i: int, v: u16) -> CpuState {
        if i == 0 {
            CpuState { r0: v, ..self }
        } else if i == 1 {
            CpuState { r1: v, ..self }
        } else if i == 2 {
            CpuState { r2: v, ..self }
        } else if i == 3 {
            CpuState { r3: v, ..self }
        } else if i == 4 {
            CpuState { r4: v, ..self }
        } else if i == 5 {
            CpuState { r5: v, ..self }
        } else if i == 6 {
            CpuState { r6: v, ..self }
        } else if i == 7 {
            CpuState { r7: v, ..self }
        } else if i == 8 {
            CpuState { pc: v, ..self }
        } else {
            CpuState { cond: v, ..self }
        }
    }

    pub open spec fn with_pc(self, v: u16) -> CpuState {
        CpuState { pc: v, ..self }
    }

    pub open spec fn with_cond(self, v: u16) -> CpuState {
        CpuState { cond: v, ..self }
    }

    pub open spec fn with_mem(self, m: Seq<u16>) -> CpuState {
        CpuState { mem: m, ..self }
    }

    /// Writes a result to register `d` and sets the condition flag from it.
    pub open spec fn set_result(self, d: int, v: u16) -> CpuState {
        self.with_reg(d, v).with_cond(cond_flag(v))
    }

    /// The second operand of ADD and AND: the immediate, or the second source register.
    pub open spec fn operand2(self, instr: u16) -> u16 {
        if imm_mode(instr) {
            imm5(instr)
        } else {
            self.reg(sr2(instr))
        }
    }

    /// The address PC + offset9.
    pub open spec fn pc_relative(self, instr: u16) -> u16 {
        add16(self.pc as int, offset9(instr) as int)
    }

    /// The address base register + offset6.
    pub open spec fn base_relative(self, instr: u16) -> u16 {
        add16(self.reg(sr1(instr)) as int, offset6(instr) as int)
    }

    /// ADD: the sum, modulo 2^16, of the first source register and the second operand.
    pub open spec fn add_spec(self, instr: u16) -> CpuState {
        self.set_result(dr(instr), add16(self.reg(sr1(instr)) as int, self.operand2(instr) as int))
    }

    /// AND: the bitwise and of the first source register and the second operand.
    pub open spec fn and_spec(self, instr: u16) -> CpuState {
        self.set_result(dr(instr), self.reg(sr1(instr)) & self.operand2(instr))
    }

    /// NOT: the bitwise complement of the source register.
    pub open spec fn not_spec(self, instr: u16) -> CpuState {
        self.set_result(dr(instr), !self.reg(sr1(instr)))
    }

    /// BR: jump to PC + offset9 when the condition register has one of the tested flags.
    pub open spec fn branch_spec(self, instr: u16) -> CpuState {
        if self.cond & nzp(instr) != 0 {
            self.with_pc(self.pc_relative(instr))
        } else {
            self
        }
    }

    /// JMP: jump to the address in the base register.
    pub open spec fn jump_spec(self, instr: u16) -> CpuState {
        self.with_pc(self.reg(sr1(instr)))
    }

    /// JSR / JSRR: R7 takes the return address, then the PC takes either PC + offset11 or
    /// the base register (read after R7 was written).
    pub open spec fn jsr_spec(self, instr: u16) -> CpuState {
        let linked = self.with_reg(7, self.pc);
        if jsr_pc_relative(instr) {
            linked.with_pc(add16(self.pc as int, offset11(instr) as int))
        } else {
            linked.with_pc(linked.reg(sr1(instr)))
        }
    }

    /// LEA: the address PC + offset9 itself.
    pub open spec fn lea_spec(self, instr: u16) -> CpuState {
        self.set_result(dr(instr), self.pc_relative(instr))
    }

    /// A load of the word at `addr` into register `d`, polling the keyboard if it is read.
    pub open spec fn load_from(self, d: int, addr: u16, key: u8) -> CpuState {
        let m = after_read(self.mem, addr, key);
        self.with_mem(m).set_result(d, m[addr as int])
    }

    /// LD: load from PC + offset9.
    pub open spec fn load_spec(self, instr: u16, key: u8) -> CpuState {
        self.load_from(dr(instr), self.pc_relative(instr), key)
    }

    /// LDR: load from base register + offset6.
    pub open spec fn ldr_spec(self, instr: u16, key: u8) -> CpuState {
        self.load_from(dr(instr), self.base_relative(instr), key)
    }

    /// LDI: load from the address stored at PC + offset9.
    pub open spec fn ldi_spec(self, instr: u16, key: u8) -> CpuState {
        let a = self.pc_relative(instr);
        let m = after_read(self.mem, a, key);
        self.with_mem(m).load_from(dr(instr), m[a as int], key)
    }

    /// ST: store the source register at PC + offset9.
    pub open spec fn st_spec(self, instr: u16) -> CpuState {
        self.with_mem(self.mem.update(self.pc_relative(instr) as int, self.reg(dr(instr))))
    }

    /// STR: store the source register at base register + offset6.
    pub open spec fn str_spec(self, instr: u16) -> CpuState {
        self.with_mem(self.mem.update(self.base_relative(instr) as int, self.reg(dr(instr))))
    }

    /// STI: store the source register at the address stored at PC + offset9.
    pub open spec fn sti_spec(self, instr: u16, key: u8) -> CpuState {
        let a = self.pc_relative(instr);
        let m = after_read(self.mem, a, key);
        self.with_mem(m.update(m[a as int] as int, self.reg(dr(instr))))
    }

    /// LDI and STI read the keyboard status register, and so need a keyboard byte, when
    /// the pointer is there or, for LDI, when the pointer points there.
    pub open spec fn ldi_needs_key(self, instr: u16) -> bool {
        let a = self.pc_relative(instr);
        read_needs_key(a) || read_needs_key(self.mem[a as int])
    }

    /// Executing `instr` reads the keyboard status register and so needs a keyboard byte.
    pub open spec fn needs_key(self, instr: u16) -> bool {
        let op = opcode(instr);
        if op == 2 || op == 11 {
            read_needs_key(self.pc_relative(instr))
        } else if op == 6 {
            read_needs_key(self.base_relative(instr))
        } else if op == 10 {
            self.ldi_needs_key(instr)
        } else if outputs_string(instr) {
            string_needs_key(self.mem, self.r0)
        } else {
            false
        }
    }

    /// `instr` can be executed with `key`: it is supported, and a string it writes ends
    /// within one pass over memory when a keyboard byte is given.
    pub open spec fn can_exec(self, instr: u16, key: Option<u8>) -> bool {
        &&& supported(instr)
        &&& (outputs_string(instr) && key is Some) ==> string_ends(self.mem, self.r0, key_byte(key))
    }

    /// The state after executing `instr`, with `key` as the keyboard byte where one is read.
    pub open spec fn execute(self, instr: u16, key: u8) -> CpuState {
        let op = opcode(instr);
        if op == 0 {
            self.branch_spec(instr)
        } else if op == 1 {
            self.add_spec(instr)
        } else if op == 2 {
            self.load_spec(instr, key)
        } else if op == 3 {
            self.st_spec(instr)
        } else if op == 4 {
            self.jsr_spec(instr)
        } else if op == 5 {
            self.and_spec(instr)
        } else if op == 6 {
            self.ldr_spec(instr, key)
        } else if op == 7 {
            self.str_spec(instr)
        } else if op == 9 {
            self.not_spec(instr)
        } else if op == 10 {
            self.ldi_spec(instr, key)
        } else if op == 11 {
            self.sti_spec(instr, key)
        } else if op == 12 {
            self.jump_spec(instr)
        } else if op == 14 {
            self.lea_spec(instr)
        } else if outputs_string(instr) {
            self.with_mem(mem_after_string(self.mem, self.r0, key))
        } else {
            self
        }
    }

    /// What executing `instr` leaves to the caller.
    pub open spec fn effect(self, instr: u16, key: u8) -> Effect {
        let t = trap_vector(instr);
        if opcode(instr) != 15 {
            Effect::Continue
        } else if t == 0x20 {
            Effect::GetChar
        } else if t == 0x21 {
            Effect::Output(seq![low_byte(self.r0)])
        } else if t == 0x22 {
            Effect::Output(puts_bytes(string_words(self.mem, self.r0, key)))
        } else if t == 0x23 {
            Effect::ReadChar
        } else if t == 0x24 {
            Effect::Output(putsp_bytes(string_words(self.mem, self.r0, key)))
        } else {
            Effect::Halt
        }
    }
}

// ---------------------------------------------------------------------------------------
// Strings in memory
// ---------------------------------------------------------------------------------------

/// The number of steps a scan from `start` takes to reach the keyboard status register.
pub open spec fn kbsr_step(start: u16) -> int {
    (KBSR as int - start as int) % 0x10000
}

/// The address read at step `j` of a scan from `start`; addresses wrap.
pub open spec fn scan_addr(start: u16, j: int) -> u16 {
    add16(start as int, j)
}

/// The word read at step `j` of a scan from `start`: the scan polls the keyboard (with
/// `key`) when it reaches the keyboard status register, and sees the polled memory from
/// then on.
pub open spec fn scan_word(mem: Seq<u16>, start: u16, key: u8, j: int) -> u16 {
    let m = if j >= kbsr_step(start) {
        polled(mem, key)
    } else {
        mem
    };
    m[scan_addr(start, j) as int]
}

/// Step `n`, within one pass over memory, reads the first zero word of the scan.
pub open spec fn ends_at(mem: Seq<u16>, start: u16, key: u8, n: int) -> bool {
    &&& 0 <= n < 0x10000
    &&& scan_word(mem, start, key, n) == 0
    &&& forall|j: int| 0 <= j < n ==> #[trigger] scan_word(mem, start, key, j) != 0
}

/// The zero-terminated string at `start` ends within one pass over memory.
pub open spec fn string_ends(mem: Seq<u16>, start: u16, key: u8) -> bool {
    exists|n: int| #[trigger] ends_at(mem, start, key, n)
}

/// The number of words before the terminating zero.
pub open spec fn string_len(mem: Seq<u16>, start: u16, key: u8) -> int {
    choose|n: int| ends_at(mem, start, key, n)
}

/// The words of the zero-terminated string at `start`, without the terminator.
pub open spec fn string_words(mem: Seq<u16>, start: u16, key: u8) -> Seq<u16> {
    Seq::new(string_len(mem, start, key) as nat, |j: int| scan_word(mem, start, key, j))
}

/// Scanning the string reaches the keyboard status register before any zero word, so it
/// needs a keyboard byte.
pub open spec fn string_needs_key(mem: Seq<u16>, start: u16) -> bool {
    forall|j: int| 0 <= j < kbsr_step(start) ==> #[trigger] mem[scan_addr(start, j) as int] != 0
}

/// The memory once the string has been read: polled if the scan reached the keyboard
/// status register.
pub open spec fn mem_after_string(mem: Seq<u16>, start: u16, key: u8) -> Seq<u16> {
    if kbsr_step(start) <= string_len(mem, start, key) {
        polled(mem, key)
    } else {
        mem
    }
}

/// The character a word stands for in a one-character-per-word string: its low byte.
pub open spec fn low_byte(w: u16) -> u8 {
    (w % 256) as u8
}

/// The output of PUTS: one character per word.
pub open spec fn puts_bytes(words: Seq<u16>) -> Seq<u8> {
    words.map_values(|w: u16| low_byte(w))
}

/// The characters of one word of a packed string: the low byte, then the high byte when
/// it is not zero.
pub open spec fn packed_pair(w: u16) -> Seq<u8> {
    if w / 256 != 0 {
        seq![low_byte(w), (w / 256) as u8]
    } else {
        seq![low_byte(w)]
    }
}

/// The output of PUTSP: two characters per word.
pub open spec fn putsp_bytes(words: Seq<u16>) -> Seq<u8>
    decreases words.len(),
{
    if words.len() == 0 {
        Seq::empty()
    } else {
        putsp_bytes(words.drop_last()) + packed_pair(words.last())
    }
}

/// Reads the zero-terminated string at `start`, one pass over memory at most; a scan that
/// reaches the keyboard status register takes the keyboard byte `key`, and without one the
/// scan is refused and nothing changes.
fn read_string(memory: &mut Memory, start: u16, key: Option<u8>) -> (r: Result<Vec<u16>, KeyNeeded>)
    requires
        key is Some ==> string_ends(old(memory)@, start, key_byte(key)),
    ensures
        r is Err <==> (key is None && string_needs_key(old(memory)@, start)),
        r is Err ==> final(memory)@ == old(memory)@,
        r matches Ok(w) ==> {
            &&& string_ends(old(memory)@, start, key_byte(key))
            &&& w@ == string_words(old(memory)@, start, key_byte(key))
            &&& final(memory)@ == mem_after_string(old(memory)@, start, key_byte(key))
        },
{
    let ghost mem0 = memory@;
    let ghost kb = key_byte(key);
    let ghost ks = kbsr_step(start);
    let mut words: Vec<u16> = Vec::new();
    let mut it = start;
    let ghost mut j: int = 0;
    loop
        invariant
            0 <= j < 0x10000,
            mem0 == old(memory)@,
            mem0.len() == MEMORY_SIZE,
            kb == key_byte(key),
            ks == kbsr_step(start),
            0 <= ks < 0x10000,
            it == scan_addr(start, j),
            words@.len() == j,
            forall|i: int| 0 <= i < j ==> words@[i] == #[trigger] scan_word(mem0, start, kb, i),
            forall|i: int| 0 <= i < j ==> #[trigger] scan_word(mem0, start, kb, i) != 0,
            memory@ == (if j > ks { polled(mem0, kb) } else { mem0 }),
            key is Some ==> string_ends(mem0, start, kb),
            key is None ==> j <= ks,
        decreases 0x10000 - j,
    {
        assert(scan_addr(start, j) == KBSR <==> j == ks);
        let c = match memory.memory_read(it, key) {
            Ok(c) => c,
            Err(e) => {
                assert forall|i: int| 0 <= i < ks implies #[trigger] mem0[scan_addr(start, i) as int] != 0 by {
                    assert(scan_word(mem0, start, kb, i) != 0);
                }
                return Err(e);
            },
        };
        assert(c == scan_word(mem0, start, kb, j));
        if c == 0 {
            assert(ends_at(mem0, start, kb, j));
            assert(string_len(mem0, start, kb) == j) by {
                let n = string_len(mem0, start, kb);
                if n < j {
                    assert(scan_word(mem0, start, kb, n) != 0);
                } else if n > j {
                    assert(scan_word(mem0, start, kb, j) != 0);
                }
            }
            assert(words@ =~= string_words(mem0, start, kb));
            proof {
                if key is None {
                    assert(!string_needs_key(mem0, start)) by {
                        assert(mem0[scan_addr(start, j) as int] == 0);
                    }
                }
            }
            return Ok(words);
        }
        proof {
            if key is Some {
                let n = choose|n: int| ends_at(mem0, start, kb, n);
                assert(ends_at(mem0, start, kb, n));
                if n < j {
                    assert(scan_word(mem0, start, kb, n) != 0);
                }
            }
        }
        words.push(c);
        it = it.wrapping_add(1);
        proof {
            j = j + 1;
        }
    }
}

// ---------------------------------------------------------------------------------------
// The CPU
// ---------------------------------------------------------------------------------------

/// The LC-3 processor: its registers and the memory it runs against.
pub struct CPU<'a> {
    pub r0: u16,
    pub r1: u16,
    pub r2: u16,
    pub r3: u16,
    pub r4: u16,
    pub r5: u16,
    pub r6: u16,
    pub r7: u16,
    /// The program counter.
    pub pc: u16,
    /// The condition register.
    pub cond: u16,
    pub memory: &'a mut Memory,
}

impl<'a> View for CPU<'a> {
    type V = CpuState;

    open spec fn view(&self) -> CpuState {
        CpuState {
            r0: self.r0,
            r1: self.r1,
            r2: self.r2,
            r3: self.r3,
            r4: self.r4,
            r5: self.r5,
            r6: self.r6,
            r7: self.r7,
            pc: self.pc,
            cond: self.cond,
            mem: (*self.memory)@,
        }
    }
}

impl<'a> CPU<'a> {
    /// A processor with cleared registers, the program counter at 0x3000, and `memory`.
    pub fn new(memory: &'a mut Memory) -> (c: Self)
        ensures
            c.r0 == 0 && c.r1 == 0 && c.r2 == 0 && c.r3 == 0,
            c.r4 == 0 && c.r5 == 0 && c.r6 == 0 && c.r7 == 0,
            c.pc == 0x3000,
            c.cond == 0,
            c@.mem == old(memory)@,
            *final(c.memory) == *final(memory),
    {
        CPU {
            r0: 0,
            r1: 0,
            r2: 0,
            r3: 0,
            r4: 0,
            r5: 0,
            r6: 0,
            r7: 0,
            pc: 0x3000,
            cond: 0,
            memory,
        }
    }

    /// Advances the program counter by one word, wrapping at the end of memory.
    pub fn next_instruction(&mut self)
        ensures
            final(self)@ == old(self)@.with_pc(add16(old(self).pc as int, 1)),
    {
        self.pc = self.pc.wrapping_add(1)
    }

    /// Sets the condition register from the result `r`.
    pub fn set_cond(&mut self, r: u16)
        ensures
            final(self)@ == old(self)@.with_cond(cond_flag(r)),
    {
        proof {
            lemma_fields(r);
        }
        if r == 0 {
            self.cond = Condition::FlZro.value();
        } else if r >> 15 & 0x1 == 1 {
            self.cond = Condition::FlNeg.value();
        } else {
            self.cond = Condition::FlPos.value();
        }
    }

    /// Widens the `c`-bit two's-complement field `v` to 16 bits.
    fn sign_extend(v: &mut u16, c: u32)
        requires
            1 <= c <= 15,
            *old(v) < pow2(c as nat),
        ensures
            *final(v) == sext(*old(v), pow2((c - 1) as nat) as int),
    {
        let ghost x: u16 = *v;
        let ghost cc: u16 = c as u16;
        proof {
            lemma_u16_pow2_no_overflow(c as nat);
            lemma_u16_pow2_no_overflow((c - 1) as nat);
            lemma_u16_shl_is_mul(1, cc);
            lemma_u16_shl_is_mul(1, (cc - 1) as u16);
            let p: u16 = 1u16 << ((cc - 1) as u16);
            let q: u16 = 1u16 << cc;
            assert(((x >> ((c - 1) as u32)) & 1 == 1) == (x >= p)) by (bit_vector)
                requires
                    1 <= c <= 15,
                    cc == c,
                    x < q,
                    p == 1u16 << ((cc - 1) as u16),
                    q == 1u16 << cc,
            ;
            assert(x >= p ==> (x | (0xFFFFu16 << c)) == x + 0x10000 - 2 * p) by (bit_vector)
                requires
                    1 <= c <= 15,
                    cc == c,
                    x < q,
                    p == 1u16 << ((cc - 1) as u16),
                    q == 1u16 << cc,
            ;
        }
        if (*v >> (c - 1)) & 0x1 == 1 {
            *v |= 0xFFFF << c;
        }
    }

    /// Register `i`, numbered as in `CpuState::reg`.
    fn register_from(&self, i: u8) -> (r: &u16)
        requires
            i < 10,
        ensures
            *r == self@.reg(i as int),
    {
        match i {
            0 => &self.r0,
            1 => &self.r1,
            2 => &self.r2,
            3 => &self.r3,
            4 => &self.r4,
            5 => &self.r5,
            6 => &self.r6,
            7 => &self.r7,
            8 => &self.pc,
            _ => &self.cond,
        }
    }

    /// Register `i`, numbered as in `CpuState::reg`, for writing.
    fn register_from_mut(&mut self, i: u8) -> (r: &mut u16)
        requires
            i < 10,
        ensures
            *r == old(self)@.reg(i as int),
            final(self)@ == old(self)@.with_reg(i as int, *final(r)),
    {
        match i {
            0 => &mut self.r0,
            1 => &mut self.r1,
            2 => &mut self.r2,
            3 => &mut self.r3,
            4 => &mut self.r4,
            5 => &mut self.r5,
            6 => &mut self.r6,
            7 => &mut self.r7,
            8 => &mut self.pc,
            _ => &mut self.cond,
        }
    }
}

// The operate, control and data-movement instructions.
impl<'a> CPU<'a> {
    /// ADD: register or immediate form.
    pub fn add(&mut self, instr: u16)
        ensures
            final(self)@ == old(self)@.add_spec(instr),
    {
        proof {
            lemma_fields(instr);
            lemma_field_widths();
        }
        let dst = ((instr >> 9) & 0x7) as u8;
        let left = *self.register_from(((instr >> 6) & 0x7) as u8);
        if (instr >> 5) & 0x1 == 1 {
            let mut imm_5 = instr & 0x1F;
            Self::sign_extend(&mut imm_5, 5);
            proof {
                lemma_add16(left, imm_5);
            }
            *self.register_from_mut(dst) = left.wrapping_add(imm_5);
        } else {
            let right = *self.register_from((instr & 0x7) as u8);
            proof {
                lemma_add16(left, right);
            }
            *self.register_from_mut(dst) = left.wrapping_add(right);
        }
        self.set_cond(*self.register_from(dst));
    }

    /// LDI: load indirect through the word at PC + offset9. Reading the keyboard status
    /// register takes the keyboard byte `key`; without one the instruction is refused and
    /// nothing changes.
    pub fn load_indirect(&mut self, instr: u16, key: Option<u8>) -> (r: Result<(), KeyNeeded>)
        ensures
            r is Err <==> (key is None && old(self)@.ldi_needs_key(instr)),
            r is Err ==> final(self)@ == old(self)@,
            r is Ok ==> final(self)@ == old(self)@.ldi_spec(instr, key_byte(key)),
    {
        proof {
            lemma_fields(instr);
            lemma_field_widths();
        }
        let dst = ((instr >> 9) & 0x7) as u8;
        let mut offset = instr & 0x1FF;
        Self::sign_extend(&mut offset, 9);
        let loc = match self.memory.memory_read(self.pc.wrapping_add(offset), key) {
            Ok(v) => v,
            Err(e) => return Err(e),
        };
        let v = match self.memory.memory_read(loc, key) {
            Ok(v) => v,
            Err(e) => return Err(e),
        };
        *self.register_from_mut(dst) = v;
        self.set_cond(*self.register_from(dst));
        Ok(())
    }

    /// AND: register or immediate form.
    pub fn bitwise_and(&mut self, instr: u16)
        ensures
            final(self)@ == old(self)@.and_spec(instr),
    {
        proof {
            lemma_fields(instr);
            lemma_field_widths();
        }
        let dst = ((instr >> 9) & 0x7) as u8;
        let left = *self.register_from(((instr >> 6) & 0x7) as u8);
        if (instr >> 5) & 0x1 == 1 {
            let mut imm_5 = instr & 0x1F;
            Self::sign_extend(&mut imm_5, 5);
            *self.register_from_mut(dst) = left & imm_5;
        } else {
            let right = *self.register_from((instr & 0x7) as u8);
            *self.register_from_mut(dst) = left & right;
        }
        self.set_cond(*self.register_from(dst));
    }

    /// NOT.
    pub fn bitwise_not(&mut self, instr: u16)
        ensures
            final(self)@ == old(self)@.not_spec(instr),
    {
        proof {
            lemma_fields(instr);
        }
        let dst = ((instr >> 9) & 0x7) as u8;
        let left = *self.register_from(((instr >> 6) & 0x7) as u8);
        *self.register_from_mut(dst) = !left;
        self.set_cond(*self.register_from(dst));
    }

    /// BR: the condition mask must name exactly one flag.
    pub fn branch(&mut self, instr: u16)
        requires
            nzp(instr) == 1 || nzp(instr) == 2 || nzp(instr) == 4,
        ensures
            final(self)@ == old(self)@.branch_spec(instr),
    {
        proof {
            lemma_fields(instr);
            lemma_field_widths();
        }
        let mut offset = instr & 0x1FF;
        Self::sign_extend(&mut offset, 9);
        let cond = Condition::from(((instr >> 9) & 0x7) as u16);
        if (self.cond & cond.value()) > 0x0 {
            self.pc = self.pc.wrapping_add(offset);
        }
    }

    /// JMP (RET when the base register is R7).
    pub fn jump(&mut self, instr: u16)
        ensures
            final(self)@ == old(self)@.jump_spec(instr),
    {
        proof {
            lemma_fields(instr);
        }
        let reg = ((instr >> 6) & 0x7) as u8;
        self.pc = *self.register_from(reg);
    }

    /// JSR / JSRR.
    pub fn jump_register(&mut self, instr: u16)
        ensures
            final(self)@ == old(self)@.jsr_spec(instr),
    {
        proof {
            lemma_fields(instr);
            lemma_field_widths();
        }
        self.r7 = self.pc;
        if (instr >> 11) & 0x1 == 0x1 {
            let mut offset = instr & 0x7FF;
            Self::sign_extend(&mut offset, 11);
            self.pc = self.pc.wrapping_add(offset);
        } else {
            let base = ((instr >> 6) & 0x7) as u8;
            self.pc = *self.register_from(base);
        }
    }

    /// LD: load from PC + offset9; see `load_indirect` for the keyboard byte.
    pub fn load(&mut self, instr: u16, key: Option<u8>) -> (r: Result<(), KeyNeeded>)
        ensures
            r is Err <==> (key is None && read_needs_key(old(self)@.pc_relative(instr))),
            r is Err ==> final(self)@ == old(self)@,
            r is Ok ==> final(self)@ == old(self)@.load_spec(instr, key_byte(key)),
    {
        proof {
            lemma_fields(instr);
            lemma_field_widths();
        }
        let dest = ((instr >> 9) & 0x7) as u8;
        let mut offset = instr & 0x1FF;
        Self::sign_extend(&mut offset, 9);
        let v = match self.memory.memory_read(self.pc.wrapping_add(offset), key) {
            Ok(v) => v,
            Err(e) => return Err(e),
        };
        *self.register_from_mut(dest) = v;
        self.set_cond(*self.register_from(dest));
        Ok(())
    }

    /// LDR: load from base register + offset6; see `load_indirect` for the keyboard byte.
    pub fn load_register(&mut self, instr: u16, key: Option<u8>) -> (r: Result<(), KeyNeeded>)
        ensures
            r is Err <==> (key is None && read_needs_key(old(self)@.base_relative(instr))),
            r is Err ==> final(self)@ == old(self)@,
            r is Ok ==> final(self)@ == old(self)@.ldr_spec(instr, key_byte(key)),
    {
        proof {
            lemma_fields(instr);
            lemma_field_widths();
        }
        let dest = ((instr >> 9) & 0x7) as u8;
        let base_reg = ((instr >> 6) & 0x7) as u8;
        let mut offset = instr & 0x3F;
        Self::sign_extend(&mut offset, 6);
        let addr = self.register_from(base_reg).wrapping_add(offset);
        let v = match self.memory.memory_read(addr, key) {
            Ok(v) => v,
            Err(e) => return Err(e),
        };
        *self.register_from_mut(dest) = v;
        self.set_cond(*self.register_from(dest));
        Ok(())
    }

    /// LEA.
    pub fn load_effective_address(&mut self, instr: u16)
        ensures
            final(self)@ == old(self)@.lea_spec(instr),
    {
        proof {
            lemma_fields(instr);
            lemma_field_widths();
        }
        let dest = ((instr >> 9) & 0x7) as u8;
        let mut offset = instr & 0x1FF;
        Self::sign_extend(&mut offset, 9);
        *self.register_from_mut(dest) = self.pc.wrapping_add(offset);
        self.set_cond(*self.register_from(dest))
    }

    /// ST.
    pub fn store(&mut self, instr: u16)
        ensures
            final(self)@ == old(self)@.st_spec(instr),
    {
        proof {
            lemma_fields(instr);
            lemma_field_widths();
        }
        let src = ((instr >> 9) & 0x7) as u8;
        let mut offset = instr & 0x1FF;
        Self::sign_extend(&mut offset, 9);
        let val = *self.register_from(src);
        self.memory.memory_write(self.pc.wrapping_add(offset), val);
    }

    /// STI: see `load_indirect` for the keyboard byte.
    pub fn store_indirect(&mut self, instr: u16, key: Option<u8>) -> (r: Result<(), KeyNeeded>)
        ensures
            r is Err <==> (key is None && read_needs_key(old(self)@.pc_relative(instr))),
            r is Err ==> final(self)@ == old(self)@,
            r is Ok ==> final(self)@ == old(self)@.sti_spec(instr, key_byte(key)),
    {
        proof {
            lemma_fields(instr);
            lemma_field_widths();
        }
        let src = ((instr >> 9) & 0x7) as u8;
        let mut offset = instr & 0x1FF;
        Self::sign_extend(&mut offset, 9);
        let loc = match self.memory.memory_read(self.pc.wrapping_add(offset), key) {
            Ok(v) => v,
            Err(e) => return Err(e),
        };
        let val = *self.register_from(src);
        self.memory.memory_write(loc, val);
        Ok(())
    }

    /// STR.
    pub fn store_register(&mut self, instr: u16)
        ensures
            final(self)@ == old(self)@.str_spec(instr),
    {
        proof {
            lemma_fields(instr);
            lemma_field_widths();
        }
        let src = ((instr >> 9) & 0x7) as u8;
        let base_reg = ((instr >> 6) & 0x7) as u8;
        let mut offset = instr & 0x3F;
        Self::sign_extend(&mut offset, 6);
        let addr = self.register_from(base_reg).wrapping_add(offset);
        let val = *self.register_from(src);
        self.memory.memory_write(addr, val);
    }
}

// The trap routines: what they compute. Reading the keyboard and writing characters are
// left to the caller.
impl<'a> CPU<'a> {
    /// PUTS: the characters of the zero-terminated string at R0, one per word (its low
    /// byte). See `read_string` for the keyboard byte.
    pub fn put_s(&mut self, key: Option<u8>) -> (r: Result<Vec<u8>, KeyNeeded>)
        requires
            key is Some ==> string_ends(old(self)@.mem, old(self).r0, key_byte(key)),
        ensures
            r is Err <==> (key is None && string_needs_key(old(self)@.mem, old(self).r0)),
            r is Err ==> final(self)@ == old(self)@,
            r matches Ok(out) ==> {
                &&& out@ == puts_bytes(string_words(old(self)@.mem, old(self).r0, key_byte(key)))
                &&& final(self)@ == old(self)@.with_mem(
                    mem_after_string(old(self)@.mem, old(self).r0, key_byte(key)),
                )
            },
    {
        let words = match read_string(&mut *self.memory, self.r0, key) {
            Ok(w) => w,
            Err(e) => return Err(e),
        };
        let mut out: Vec<u8> = Vec::new();
        let mut i: usize = 0;
        while i < words.len()
            invariant
                i <= words@.len(),
                out@ == puts_bytes(words@.take(i as int)),
            decreases words@.len() - i,
        {
            let c = words[i];
            out.push((c % 256) as u8);
            i = i + 1;
            assert(puts_bytes(words@.take(i as int)) =~= puts_bytes(words@.take(i - 1)).push(low_byte(c)));
        }
        assert(words@.take(i as int) =~= words@);
        Ok(out)
    }

    /// GETC: R0 takes the character read from the keyboard.
    pub fn get_c(&mut self, byte: u8)
        ensures
            final(self)@ == old(self)@.with_reg(0, byte as u16),
    {
        self.r0 = byte as u16;
    }

    /// OUT: the character to write, the low byte of R0.
    pub fn out(&self) -> (c: u8)
        ensures
            c == low_byte(self.r0),
    {
        (self.r0 % 256) as u8
    }

    /// IN: R0 takes the character read from the keyboard (the caller prompts for it and
    /// echoes it).
    pub fn read(&mut self, byte: u8)
        ensures
            final(self)@ == old(self)@.with_reg(0, byte as u16),
    {
        self.r0 = byte as u16;
    }

    /// PUTSP: the characters of the zero-terminated string at R0, two per word (low byte
    /// first; a zero high byte is skipped). See `read_string` for the keyboard byte.
    pub fn put_sp(&mut self, key: Option<u8>) -> (r: Result<Vec<u8>, KeyNeeded>)
        requires
            key is Some ==> string_ends(old(self)@.mem, old(self).r0, key_byte(key)),
        ensures
            r is Err <==> (key is None && string_needs_key(old(self)@.mem, old(self).r0)),
            r is Err ==> final(self)@ == old(self)@,
            r matches Ok(out) ==> {
                &&& out@ == putsp_bytes(string_words(old(self)@.mem, old(self).r0, key_byte(key)))
                &&& final(self)@ == old(self)@.with_mem(
                    mem_after_string(old(self)@.mem, old(self).r0, key_byte(key)),
                )
            },
    {
        let words = match read_string(&mut *self.memory, self.r0, key) {
            Ok(w) => w,
            Err(e) => return Err(e),
        };
        let mut out: Vec<u8> = Vec::new();
        let mut i: usize = 0;
        while i < words.len()
            invariant
                i <= words@.len(),
                out@ == putsp_bytes(words@.take(i as int)),
            decreases words@.len() - i,
        {
            let c = words[i];
            let ghost before = out@;
            let c1 = c & 0xFF;
            proof {
                assert(c & 0xFF == c % 256 && c >> 8 == c / 256) by (bit_vector);
            }
            out.push(c1 as u8);
            let c2 = c >> 8;
            if c2 != 0x0 {
                out.push(c2 as u8);
            }
            assert(out@ =~= before + packed_pair(c));
            i = i + 1;
            assert(words@.take(i as int).drop_last() =~= words@.take(i - 1));
        }
        assert(words@.take(i as int) =~= words@);
        Ok(out)
    }

    /// Whether the string at R0 ends within one pass over memory when the keyboard byte
    /// is `key`: the condition for `put_s` and `put_sp` to be given that byte.
    pub fn string_terminates(&self, key: u8) -> (r: bool)
        ensures
            r == string_ends(self@.mem, self.r0, key),
    {
        let ghost mem = self@.mem;
        let start = self.r0;
        let raw = self.memory.raw();
        let ks: u32 = KBSR.wrapping_sub(start) as u32;
        assert(ks == kbsr_step(start));
        let mut j: u32 = 0;
        let mut it = start;
        while j < 0x10000
            invariant
                j <= 0x10000,
                raw@ == mem,
                mem == self@.mem,
                start == self.r0,
                mem.len() == MEMORY_SIZE,
                ks == kbsr_step(start),
                it == scan_addr(start, j as int),
                forall|i: int| 0 <= i < j ==> #[trigger] scan_word(mem, start, key, i) != 0,
            decreases 0x10000 - j,
        {
            let w = if j >= ks && it == KBSR {
                if key != 0 { 0x8000 } else { 0 }
            } else if j >= ks && it == crate::memory::KBDR && key != 0 {
                key as u16
            } else {
                raw[it as usize]
            };
            assert(w == scan_word(mem, start, key, j as int));
            if w == 0 {
                assert(ends_at(mem, start, key, j as int));
                return true;
            }
            j = j + 1;
            it = it.wrapping_add(1);
        }
        assert forall|n: int| !ends_at(mem, start, key, n) by {
            if 0 <= n < 0x10000 {
                assert(scan_word(mem, start, key, n) != 0);
            }
        }
        false
    }
}

// Fetching and executing.
impl<'a> CPU<'a> {
    /// Reads the instruction at the program counter and advances the counter. Reading
    /// the keyboard status register takes the keyboard byte `key`; without one the fetch
    /// is refused and nothing changes.
    pub fn fetch(&mut self, key: Option<u8>) -> (r: Result<u16, KeyNeeded>)
        ensures
            r is Err <==> (key is None && read_needs_key(old(self).pc)),
            r is Err ==> final(self)@ == old(self)@,
            r matches Ok(instr) ==> {
                let m = after_read(old(self)@.mem, old(self).pc, key_byte(key));
                &&& instr == m[old(self).pc as int]
                &&& final(self)@ == old(self)@.with_mem(m).with_pc(add16(old(self).pc as int, 1))
            },
    {
        let instr = match self.memory.memory_read(self.pc, key) {
            Ok(i) => i,
            Err(e) => return Err(e),
        };
        self.next_instruction();
        Ok(instr)
    }

    /// Executes `instruction`. An instruction that reads the keyboard status register
    /// takes the keyboard byte `key`; without one it is refused and nothing changes. The
    /// result says what is left to the caller: characters to write, a character to read,
    /// or a halt.
    pub fn exec(&mut self, instruction: u16, key: Option<u8>) -> (r: Result<Action, KeyNeeded>)
        requires
            old(self)@.can_exec(instruction, key),
        ensures
            r is Err <==> (key is None && old(self)@.needs_key(instruction)),
            r is Err ==> final(self)@ == old(self)@,
            r matches Ok(a) ==> {
                &&& final(self)@ == old(self)@.execute(instruction, key_byte(key))
                &&& a@ == old(self)@.effect(instruction, key_byte(key))
            },
    {
        proof {
            lemma_fields(instruction);
        }
        let op_code = instruction >> 12;
        match Instruction::from(op_code as u8) {
            Instruction::OpBr => {
                self.branch(instruction);
                Ok(Action::Continue)
            },
            Instruction::OpAdd => {
                self.add(instruction);
                Ok(Action::Continue)
            },
            Instruction::OpLd => match self.load(instruction, key) {
                Ok(()) => Ok(Action::Continue),
                Err(e) => Err(e),
            },
            Instruction::OpSt => {
                self.store(instruction);
                Ok(Action::Continue)
            },
            Instruction::OpJsr => {
                self.jump_register(instruction);
                Ok(Action::Continue)
            },
            Instruction::OpAnd => {
                self.bitwise_and(instruction);
                Ok(Action::Continue)
            },
            Instruction::OpLdr => match self.load_register(instruction, key) {
                Ok(()) => Ok(Action::Continue),
                Err(e) => Err(e),
            },
            Instruction::OpStr => {
                self.store_register(instruction);
                Ok(Action::Continue)
            },
            Instruction::OpRti => Ok(Action::Continue),
            Instruction::OpNot => {
                self.bitwise_not(instruction);
                Ok(Action::Continue)
            },
            Instruction::OpLdi => match self.load_indirect(instruction, key) {
                Ok(()) => Ok(Action::Continue),
                Err(e) => Err(e),
            },
            Instruction::OpSti => match self.store_indirect(instruction, key) {
                Ok(()) => Ok(Action::Continue),
                Err(e) => Err(e),
            },
            Instruction::OpJmp => {
                self.jump(instruction);
                Ok(Action::Continue)
            },
            Instruction::OpRes => Ok(Action::Continue),
            Instruction::OpLea => {
                self.load_effective_address(instruction);
                Ok(Action::Continue)
            },
            Instruction::OpTrap => match Trap::from(instruction & 0xFF) {
                Trap::GetC => Ok(Action::GetChar),
                Trap::Out => {
                    let mut out: Vec<u8> = Vec::new();
                    out.push(self.out());
                    Ok(Action::Output(out))
                },
                Trap::PutS => match self.put_s(key) {
                    Ok(out) => Ok(Action::Output(out)),
                    Err(e) => Err(e),
                },
                Trap::In => Ok(Action::ReadChar),
                Trap::PutSp => match self.put_sp(key) {
                    Ok(out) => Ok(Action::Output(out)),
                    Err(e) => Err(e),
                },
                Trap::Halt => Ok(Action::Halt),
            },
        }
    }
}

} // verus!
