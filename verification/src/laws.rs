//! Properties of the machine that span several operations.

use vstd::prelude::*;

use crate::cpu::{
    cond_flag, dr, ends_at, kbsr_step, opcode, outputs_string, scan_addr, scan_word, sr1,
    string_len, string_needs_key, supported, CpuState, Condition, Instruction,
};
use crate::memory::{after_read, KBDR, KBSR, MEMORY_SIZE};
use crate::{image_len, image_word, loaded};

verus! {

/// Decoding an opcode and encoding the instruction back gives the opcode again.
pub proof fn lemma_opcode_roundtrip(v: u8)
    requires
        v < 16,
    ensures
        Instruction::spec_from(v).spec_value() == v,
{
}

/// Encoding an instruction and decoding its opcode gives the instruction again.
pub proof fn lemma_instruction_roundtrip(i: Instruction)
    ensures
        Instruction::spec_from(i.spec_value()) == i,
{
}

/// Every result sets exactly one condition flag: zero for zero, negative when bit 15 is
/// set, positive otherwise.
pub proof fn lemma_cond_flag(v: u16)
    ensures
        cond_flag(v) == 1 || cond_flag(v) == 2 || cond_flag(v) == 4,
        Condition::spec_from(cond_flag(v)).spec_value() == cond_flag(v),
        (cond_flag(v) == 2) <==> v == 0,
        (cond_flag(v) == 4) <==> v >= 0x8000,
        (cond_flag(v) == 1) <==> (0 < v < 0x8000),
{
}

/// The condition register holds either its initial zero or a single flag.
pub open spec fn cond_valid(c: u16) -> bool {
    c == 0 || c == 1 || c == 2 || c == 4
}

/// Executing any supported instruction keeps the condition register valid.
pub proof fn lemma_execute_keeps_cond_valid(s: CpuState, instr: u16, key: u8)
    requires
        supported(instr),
        cond_valid(s.cond),
    ensures
        cond_valid(s.execute(instr, key).cond),
{
    crate::cpu::lemma_fields(instr);
    lemma_cond_flag(s.add_spec(instr).cond);
    let op = opcode(instr);
    if op == 1 || op == 5 || op == 9 || op == 14 || op == 2 || op == 6 || op == 10 {
        assert(0 <= dr(instr) < 8);
    }
}

/// A keypress is visible to the program: reading the status register with a non-zero
/// byte pending shows bit 15 set, and the data register then holds the byte; with a zero
/// byte the status register reads zero.
pub proof fn lemma_keypress_visible(mem: Seq<u16>, key: u8)
    requires
        mem.len() == MEMORY_SIZE,
    ensures
        key != 0 ==> after_read(mem, KBSR, key)[KBSR as int] == 0x8000,
        key != 0 ==> after_read(after_read(mem, KBSR, key), KBDR, key)[KBDR as int] == key as u16,
        key == 0 ==> after_read(mem, KBSR, key)[KBSR as int] == 0,
        forall|a: int|
            0 <= a < MEMORY_SIZE && a != KBSR && a != KBDR ==> #[trigger] after_read(
                mem,
                KBSR,
                key,
            )[a] == mem[a],
{
}

/// A value stored with ST is what LD with the same offset loads back into its destination,
/// unless the address is the keyboard status register.
pub proof fn lemma_store_then_load(s: CpuState, st: u16, ld: u16, key: u8)
    requires
        s.mem.len() == MEMORY_SIZE,
        opcode(st) == 3,
        opcode(ld) == 2,
        st & 0x1FF == ld & 0x1FF,
        s.pc_relative(st) != KBSR,
    ensures
        s.execute(st, key).execute(ld, key).reg(dr(ld)) == s.reg(dr(st)),
        s.execute(st, key).execute(ld, key).mem == s.execute(st, key).mem,
{
    crate::cpu::lemma_fields(st);
    crate::cpu::lemma_fields(ld);
}

/// A value stored with STR is what LDR with the same base register and offset loads back
/// into its destination, unless the address is the keyboard status register.
pub proof fn lemma_store_register_then_load_register(s: CpuState, st: u16, ld: u16, key: u8)
    requires
        s.mem.len() == MEMORY_SIZE,
        opcode(st) == 7,
        opcode(ld) == 6,
        st & 0x1FF == ld & 0x1FF,
        s.base_relative(st) != KBSR,
    ensures
        s.execute(st, key).execute(ld, key).reg(dr(ld)) == s.reg(dr(st)),
{
    crate::cpu::lemma_fields(st);
    crate::cpu::lemma_fields(ld);
    assert(sr1(st) == sr1(ld)) by (bit_vector)
        requires
            st & 0x1FF == ld & 0x1FF,
    ;
    assert(st & 0x3F == ld & 0x3F) by (bit_vector)
        requires
            st & 0x1FF == ld & 0x1FF,
    ;
}

/// RET (JMP R7) after a subroutine call returns to the instruction after the call.
pub proof fn lemma_call_then_return(s: CpuState, jsr: u16, key: u8)
    requires
        opcode(jsr) == 4,
    ensures
        s.execute(jsr, key).execute(0xC1C0, key).pc == s.pc,
        s.execute(jsr, key).r7 == s.pc,
{
    assert(0xC1C0u16 >> 12 == 12 && (0xC1C0u16 >> 6) & 7 == 7) by (bit_vector);
}

/// NOT applied twice to a register in place gives the register back.
pub proof fn lemma_not_twice(s: CpuState, instr: u16, key: u8)
    requires
        opcode(instr) == 9,
        dr(instr) == sr1(instr),
    ensures
        s.execute(instr, key).execute(instr, key).reg(dr(instr)) == s.reg(dr(instr)),
{
    crate::cpu::lemma_fields(instr);
    let v = s.reg(dr(instr));
    assert(!(!v) == v) by (bit_vector);
}

/// Loading an image: the first two bytes give the origin, low byte first; of at most one
/// memory's worth of words after it, word `i` (bytes 2 + 2i and 3 + 2i, low byte first)
/// lands `i` words past the origin, and every address the image does not reach keeps its
/// word.
pub proof fn lemma_image_placement(mem: Seq<u16>, image: Seq<u8>, i: int)
    requires
        mem.len() == MEMORY_SIZE,
        image.len() >= 2,
        image.len() / 2 - 1 <= MEMORY_SIZE,
        0 <= i < image.len() / 2 - 1,
    ensures
        loaded(mem, image)[(image[0] + 256 * image[1] + i) % 0x10000] == image[2 + 2 * i] + 256
            * image[3 + 2 * i],
        forall|a: int|
            0 <= a < MEMORY_SIZE && (a - (image[0] + 256 * image[1])) % 0x10000 >= image.len() / 2
                - 1 ==> #[trigger] loaded(mem, image)[a] == mem[a],
{
    let origin = image[0] + 256 * image[1];
    assert(image_word(image, 0) == origin);
    let a = (origin + i) % 0x10000;
    assert((a - origin) % 0x10000 == i) by (nonlinear_arith)
        requires
            a == (origin + i) % 0x10000,
            0 <= i < 0x10000,
    ;
    assert((image_len(image) - 1 - i) / 0x10000 == 0) by (nonlinear_arith)
        requires
            0 <= i < image_len(image) <= 0x10000,
    ;
    assert(image_word(image, 1 + i) == image[2 + 2 * i] + 256 * image[3 + 2 * i]);
}

proof fn lemma_first_zero(mem: Seq<u16>, start: u16, key: u8, j: int)
    requires
        0 <= j < 0x10000,
        scan_word(mem, start, key, j) == 0,
    ensures
        exists|n: int| 0 <= n <= j && ends_at(mem, start, key, n),
    decreases j,
{
    if exists|i: int| 0 <= i < j && #[trigger] scan_word(mem, start, key, i) == 0 {
        let i = choose|i: int| 0 <= i < j && #[trigger] scan_word(mem, start, key, i) == 0;
        lemma_first_zero(mem, start, key, i);
    } else {
        assert(ends_at(mem, start, key, j));
    }
}

proof fn lemma_string_key_independent(mem: Seq<u16>, start: u16, k1: u8, k2: u8)
    requires
        mem.len() == MEMORY_SIZE,
        !string_needs_key(mem, start),
    ensures
        string_len(mem, start, k1) == string_len(mem, start, k2),
        string_len(mem, start, k1) < kbsr_step(start),
        ends_at(mem, start, k1, string_len(mem, start, k1)),
        forall|i: int|
            0 <= i < kbsr_step(start) ==> #[trigger] scan_word(mem, start, k1, i) == scan_word(
                mem,
                start,
                k2,
                i,
            ),
{
    let ks = kbsr_step(start);
    let j = choose|j: int| 0 <= j < ks && #[trigger] mem[scan_addr(start, j) as int] == 0;
    assert(scan_word(mem, start, k1, j) == 0);
    lemma_first_zero(mem, start, k1, j);
    let n = choose|n: int| 0 <= n <= j && ends_at(mem, start, k1, n);
    assert forall|i: int| 0 <= i < ks implies #[trigger] scan_word(mem, start, k1, i)
        == scan_word(mem, start, k2, i) by {}
    assert(ends_at(mem, start, k2, n)) by {
        assert forall|i: int| 0 <= i < n implies #[trigger] scan_word(mem, start, k2, i) != 0 by {
            assert(scan_word(mem, start, k1, i) != 0);
        }
    }
    let n1 = string_len(mem, start, k1);
    let n2 = string_len(mem, start, k2);
    assert(n1 == n) by {
        if n1 < n {
            assert(scan_word(mem, start, k1, n1) != 0);
        } else if n1 > n {
            assert(scan_word(mem, start, k1, n) != 0);
        }
    }
    assert(n2 == n) by {
        if n2 < n {
            assert(scan_word(mem, start, k2, n2) != 0);
        } else if n2 > n {
            assert(scan_word(mem, start, k2, n) != 0);
        }
    }
}

/// The keyboard byte matters only to an instruction that reads the keyboard status
/// register: for any other, the resulting state and what is left to the caller are the
/// same whatever byte is given.
pub proof fn lemma_key_only_matters_to_keyboard_reads(s: CpuState, instr: u16, k1: u8, k2: u8)
    requires
        s.mem.len() == MEMORY_SIZE,
        supported(instr),
        !s.needs_key(instr),
    ensures
        s.execute(instr, k1) == s.execute(instr, k2),
        s.effect(instr, k1) == s.effect(instr, k2),
{
    if outputs_string(instr) {
        lemma_string_key_independent(s.mem, s.r0, k1, k2);
        let w1 = crate::cpu::string_words(s.mem, s.r0, k1);
        let w2 = crate::cpu::string_words(s.mem, s.r0, k2);
        assert(w1 =~= w2);
    }
}


// ---------------------------------------------------------------------------------------
// The instruction set, stated from the instruction word's bits as numbers
// ---------------------------------------------------------------------------------------

/// Bits 15..12 of an instruction word.
pub open spec fn bits_op(i: u16) -> int {
    i as int / 4096
}

/// Bits 11..9: the destination register, the source register of a store, or the branch
/// mask.
pub open spec fn bits_11_9(i: u16) -> int {
    (i as int / 512) % 8
}

/// Bits 8..6: the first source register, or the base register.
pub open spec fn bits_8_6(i: u16) -> int {
    (i as int / 64) % 8
}

/// Bits 2..0: the second source register.
pub open spec fn bits_2_0(i: u16) -> int {
    i as int % 8
}

/// Bit `k` of `x`.
pub open spec fn bit_set(x: int, k: int) -> bool {
    (x / pow2_small(k)) % 2 == 1
}

/// 2^k for the bit positions used here.
pub open spec fn pow2_small(k: int) -> int {
    if k == 0 {
        1
    } else if k == 1 {
        2
    } else if k == 2 {
        4
    } else if k == 5 {
        32
    } else {
        2048
    }
}

/// The low bits of `i` below `span` (a power of two), read as a two's-complement number:
/// from -span/2 to span/2 - 1.
pub open spec fn signed_low(i: u16, span: int) -> int {
    let f = i as int % span;
    if 2 * f >= span {
        f - span
    } else {
        f
    }
}

/// General-purpose register `k` (0 to 7).
pub open spec fn gpr(s: CpuState, k: int) -> u16 {
    if k == 0 {
        s.r0
    } else if k == 1 {
        s.r1
    } else if k == 2 {
        s.r2
    } else if k == 3 {
        s.r3
    } else if k == 4 {
        s.r4
    } else if k == 5 {
        s.r5
    } else if k == 6 {
        s.r6
    } else {
        s.r7
    }
}

/// The flag a result sets: 2 (Z) for zero, 4 (N) when bit 15 is set, 1 (P) otherwise.
pub open spec fn flag_of(v: u16) -> u16 {
    if v == 0 {
        2
    } else if v >= 0x8000 {
        4
    } else {
        1
    }
}

/// `t` is `s` with general-purpose register `d` set to `v` and the flag set from `v`;
/// the other registers, the PC and memory are unchanged.
pub open spec fn result_written(s: CpuState, t: CpuState, d: int, v: u16) -> bool {
    &&& forall|k: int| 0 <= k < 8 ==> #[trigger] gpr(t, k) == if k == d { v } else { gpr(s, k) }
    &&& t.pc == s.pc
    &&& t.cond == flag_of(v)
    &&& t.mem == s.mem
}

/// `t` differs from `s` at most in memory.
pub open spec fn regs_unchanged(s: CpuState, t: CpuState) -> bool {
    &&& forall|k: int| 0 <= k < 8 ==> #[trigger] gpr(t, k) == gpr(s, k)
    &&& t.pc == s.pc
    &&& t.cond == s.cond
}

/// What memory holds once the keyboard has been polled with `key`: the status register
/// (0xFE00) shows 0x8000 for a non-zero byte and 0 otherwise, and the data register
/// (0xFE02) takes a non-zero byte.
pub open spec fn keyboard_seen(m: Seq<u16>, key: u8) -> Seq<u16> {
    Seq::new(
        m.len(),
        |a: int|
            if a == 0xFE00 {
                if key != 0 {
                    0x8000u16
                } else {
                    0u16
                }
            } else if a == 0xFE02 && key != 0 {
                key as u16
            } else {
                m[a]
            },
    )
}

/// Memory after a read of `a`: only a read of the status register polls the keyboard.
pub open spec fn seen_after_read(m: Seq<u16>, a: int, key: u8) -> Seq<u16> {
    if a == 0xFE00 {
        keyboard_seen(m, key)
    } else {
        m
    }
}

proof fn lemma_bits_as_numbers(i: u16)
    by (bit_vector)
    ensures
        i >> 12 == i / 4096,
        (i >> 9) & 7 == (i / 512) % 8,
        (i >> 6) & 7 == (i / 64) % 8,
        i & 7 == i % 8,
        ((i >> 5) & 1 == 1) == ((i / 32) % 2 == 1),
        ((i >> 11) & 1 == 1) == ((i / 2048) % 2 == 1),
        i & 0x1F == i % 32,
        i & 0x3F == i % 64,
        i & 0x1FF == i % 512,
        i & 0x7FF == i % 2048,
        i & 0xFF == i % 256,
{
}

proof fn lemma_write_reg(s: CpuState, d: int, v: u16)
    requires
        0 <= d < 8,
    ensures
        result_written(s, s.set_result(d, v), d, v),
{
    assert forall|k: int| 0 <= k < 8 implies #[trigger] gpr(s.set_result(d, v), k) == if k == d {
        v
    } else {
        gpr(s, k)
    } by {}
}

proof fn lemma_gpr_is_reg(s: CpuState)
    ensures
        forall|k: int| 0 <= k < 8 ==> #[trigger] gpr(s, k) == s.reg(k),
{
}

proof fn lemma_sext_value(i: u16, span: int, f: u16)
    requires
        span == 32 || span == 64 || span == 512 || span == 2048,
        f as int == i as int % span,
    ensures
        crate::cpu::sext(f, span / 2) as int == (signed_low(i, span) + 0x10000) % 0x10000,
{
}

proof fn lemma_wrap_add(a: int, b: int, c: int)
    requires
        0 <= b < 0x10000,
        b == (c + 0x10000) % 0x10000,
        -0x10000 < c < 0x10000,
    ensures
        (a + b) % 0x10000 == (a + c) % 0x10000,
{
    if c < 0 {
        assert(b == c + 0x10000);
        assert((a + c + 0x10000) % 0x10000 == (a + c) % 0x10000) by {
            vstd::arithmetic::div_mod::lemma_mod_add_multiples_vanish(a + c, 0x10000);
        }
    }
}

/// ADD writes to DR the sum, modulo 2^16, of SR1 and either SR2 or bits 4..0 read as a
/// five-bit two's-complement number (-16 to 15), and sets the flag from the sum; nothing
/// else changes.
pub proof fn lemma_add_semantics(s: CpuState, instr: u16, key: u8)
    requires
        bits_op(instr) == 1,
    ensures
        ({
            let operand = if bit_set(instr as int, 5) {
                signed_low(instr, 32)
            } else {
                gpr(s, bits_2_0(instr)) as int
            };
            let v = ((gpr(s, bits_8_6(instr)) as int + operand) % 0x10000) as u16;
            result_written(s, s.execute(instr, key), bits_11_9(instr), v)
        }),
        s.effect(instr, key) == crate::cpu::Effect::Continue,
{
    lemma_bits_as_numbers(instr);
    lemma_gpr_is_reg(s);
    let a = gpr(s, bits_8_6(instr)) as int;
    if bit_set(instr as int, 5) {
        lemma_sext_value(instr, 32, instr & 0x1F);
        lemma_wrap_add(a, crate::cpu::imm5(instr) as int, signed_low(instr, 32));
    }
    lemma_write_reg(s, bits_11_9(instr), s.add_spec(instr).reg(bits_11_9(instr)));
}

/// AND writes to DR the bitwise and of SR1 and either SR2 or bits 4..0 sign-extended to
/// 16 bits, and sets the flag from it; nothing else changes. In particular AND with
/// immediate 0 clears DR and sets Z.
pub proof fn lemma_and_semantics(s: CpuState, instr: u16, key: u8)
    requires
        bits_op(instr) == 5,
    ensures
        ({
            let operand: u16 = if bit_set(instr as int, 5) {
                ((signed_low(instr, 32) + 0x10000) % 0x10000) as u16
            } else {
                gpr(s, bits_2_0(instr))
            };
            let v = gpr(s, bits_8_6(instr)) & operand;
            result_written(s, s.execute(instr, key), bits_11_9(instr), v)
        }),
        (bit_set(instr as int, 5) && instr as int % 32 == 0) ==> {
            &&& gpr(s.execute(instr, key), bits_11_9(instr)) == 0
            &&& s.execute(instr, key).cond == 2
        },
        s.effect(instr, key) == crate::cpu::Effect::Continue,
{
    lemma_bits_as_numbers(instr);
    lemma_gpr_is_reg(s);
    if bit_set(instr as int, 5) {
        lemma_sext_value(instr, 32, instr & 0x1F);
    }
    let x = gpr(s, bits_8_6(instr));
    assert(x & 0u16 == 0) by (bit_vector);
    lemma_write_reg(s, bits_11_9(instr), s.and_spec(instr).reg(bits_11_9(instr)));
}

/// NOT writes to DR 0xFFFF minus the register named by bits 8..6 (its complement), and
/// sets the flag from it; nothing else changes.
pub proof fn lemma_not_semantics(s: CpuState, instr: u16, key: u8)
    requires
        bits_op(instr) == 9,
    ensures
        ({
            let v = (0xFFFF - gpr(s, bits_8_6(instr))) as u16;
            result_written(s, s.execute(instr, key), bits_11_9(instr), v)
        }),
        s.effect(instr, key) == crate::cpu::Effect::Continue,
{
    lemma_bits_as_numbers(instr);
    lemma_gpr_is_reg(s);
    let x = gpr(s, bits_8_6(instr));
    assert(!x == (0xFFFF - x) as u16) by (bit_vector);
    lemma_write_reg(s, bits_11_9(instr), !x);
}

/// BR is taken exactly when some flag among N (bit 2), Z (bit 1), P (bit 0) is set both
/// in the condition register and in bits 11..9 of the instruction; a taken branch moves
/// the PC by bits 8..0 read as a nine-bit two's-complement number, modulo 2^16. Nothing
/// else changes.
pub proof fn lemma_branch_semantics(s: CpuState, instr: u16, key: u8)
    requires
        bits_op(instr) == 0,
    ensures
        ({
            let mask = bits_11_9(instr);
            let c = s.cond as int;
            let taken = (bit_set(c, 0) && bit_set(mask, 0)) || (bit_set(c, 1) && bit_set(
                mask,
                1,
            )) || (bit_set(c, 2) && bit_set(mask, 2));
            let t = s.execute(instr, key);
            &&& regs_unchanged(s, t.with_pc(s.pc))
            &&& t.mem == s.mem
            &&& t.pc as int == if taken {
                (s.pc as int + signed_low(instr, 512)) % 0x10000
            } else {
                s.pc as int
            }
        }),
        s.effect(instr, key) == crate::cpu::Effect::Continue,
{
    lemma_bits_as_numbers(instr);
    let c = s.cond;
    let m = ((instr >> 9) & 7) as u16;
    assert((c & m != 0) == ((c % 2 == 1 && m % 2 == 1) || ((c / 2) % 2 == 1 && (m / 2) % 2 == 1)
        || ((c / 4) % 2 == 1 && (m / 4) % 2 == 1))) by (bit_vector)
        requires
            m < 8,
    ;
    lemma_sext_value(instr, 512, instr & 0x1FF);
    lemma_wrap_add(s.pc as int, crate::cpu::offset9(instr) as int, signed_low(instr, 512));
}

/// JMP sets the PC to the register named by bits 8..6; nothing else changes.
pub proof fn lemma_jump_semantics(s: CpuState, instr: u16, key: u8)
    requires
        bits_op(instr) == 12,
    ensures
        s.execute(instr, key) == s.with_pc(gpr(s, bits_8_6(instr))),
        s.effect(instr, key) == crate::cpu::Effect::Continue,
{
    lemma_bits_as_numbers(instr);
    lemma_gpr_is_reg(s);
}

/// JSR / JSRR: R7 takes the PC (the return address); the PC then moves by bits 10..0 read
/// as an eleven-bit two's-complement number when bit 11 is set, or takes the register
/// named by bits 8..6 otherwise (R7 meaning the return address just saved). Nothing else
/// changes.
pub proof fn lemma_jsr_semantics(s: CpuState, instr: u16, key: u8)
    requires
        bits_op(instr) == 4,
    ensures
        ({
            let t = s.execute(instr, key);
            let base = bits_8_6(instr);
            &&& t.r7 == s.pc
            &&& forall|k: int| 0 <= k < 7 ==> #[trigger] gpr(t, k) == gpr(s, k)
            &&& t.cond == s.cond
            &&& t.mem == s.mem
            &&& t.pc as int == if bit_set(instr as int, 11) {
                (s.pc as int + signed_low(instr, 2048)) % 0x10000
            } else if base == 7 {
                s.pc as int
            } else {
                gpr(s, base) as int
            }
        }),
        s.effect(instr, key) == crate::cpu::Effect::Continue,
{
    lemma_bits_as_numbers(instr);
    lemma_gpr_is_reg(s);
    lemma_sext_value(instr, 2048, instr & 0x7FF);
    lemma_wrap_add(s.pc as int, crate::cpu::offset11(instr) as int, signed_low(instr, 2048));
}

/// LEA writes to DR the PC plus bits 8..0 read as a nine-bit two's-complement number,
/// modulo 2^16, and sets the flag from it; nothing else changes.
pub proof fn lemma_lea_semantics(s: CpuState, instr: u16, key: u8)
    requires
        bits_op(instr) == 14,
    ensures
        ({
            let v = ((s.pc as int + signed_low(instr, 512)) % 0x10000) as u16;
            result_written(s, s.execute(instr, key), bits_11_9(instr), v)
        }),
        s.effect(instr, key) == crate::cpu::Effect::Continue,
{
    lemma_bits_as_numbers(instr);
    lemma_sext_value(instr, 512, instr & 0x1FF);
    lemma_wrap_add(s.pc as int, crate::cpu::offset9(instr) as int, signed_low(instr, 512));
    lemma_write_reg(s, bits_11_9(instr), s.pc_relative(instr));
}

/// The PC-relative address of LD, LDI, ST and STI: the PC plus bits 8..0 read as a
/// nine-bit two's-complement number, modulo 2^16.
pub open spec fn pc_offset_addr(s: CpuState, instr: u16) -> int {
    (s.pc as int + signed_low(instr, 512)) % 0x10000
}

/// The base-relative address of LDR and STR: the register named by bits 8..6 plus bits
/// 5..0 read as a six-bit two's-complement number, modulo 2^16.
pub open spec fn base_offset_addr(s: CpuState, instr: u16) -> int {
    (gpr(s, bits_8_6(instr)) as int + signed_low(instr, 64)) % 0x10000
}

proof fn lemma_addresses(s: CpuState, instr: u16)
    ensures
        s.pc_relative(instr) as int == pc_offset_addr(s, instr),
        s.base_relative(instr) as int == base_offset_addr(s, instr),
{
    lemma_bits_as_numbers(instr);
    lemma_gpr_is_reg(s);
    lemma_sext_value(instr, 512, instr & 0x1FF);
    lemma_wrap_add(s.pc as int, crate::cpu::offset9(instr) as int, signed_low(instr, 512));
    lemma_sext_value(instr, 64, instr & 0x3F);
    lemma_wrap_add(
        gpr(s, bits_8_6(instr)) as int,
        crate::cpu::offset6(instr) as int,
        signed_low(instr, 64),
    );
}

proof fn lemma_seen_is_after_read(m: Seq<u16>, a: u16, key: u8)
    requires
        m.len() == MEMORY_SIZE,
    ensures
        after_read(m, a, key) == seen_after_read(m, a as int, key),
{
    assert(after_read(m, a, key) =~= seen_after_read(m, a as int, key));
}

/// LD writes to DR the word at the PC-relative address (after the keyboard poll when that
/// address is the status register), sets the flag from it, and changes nothing else but
/// the keyboard registers.
pub proof fn lemma_ld_semantics(s: CpuState, instr: u16, key: u8)
    requires
        bits_op(instr) == 2,
        s.mem.len() == MEMORY_SIZE,
    ensures
        ({
            let a = pc_offset_addr(s, instr);
            let m = seen_after_read(s.mem, a, key);
            result_written(s.with_mem(m), s.execute(instr, key), bits_11_9(instr), m[a])
        }),
        s.effect(instr, key) == crate::cpu::Effect::Continue,
{
    lemma_bits_as_numbers(instr);
    lemma_addresses(s, instr);
    lemma_seen_is_after_read(s.mem, s.pc_relative(instr), key);
    let m = after_read(s.mem, s.pc_relative(instr), key);
    lemma_write_reg(s.with_mem(m), bits_11_9(instr), m[s.pc_relative(instr) as int]);
}

/// LDR writes to DR the word at the base-relative address (after the keyboard poll when
/// that address is the status register), sets the flag from it, and changes nothing else
/// but the keyboard registers.
pub proof fn lemma_ldr_semantics(s: CpuState, instr: u16, key: u8)
    requires
        bits_op(instr) == 6,
        s.mem.len() == MEMORY_SIZE,
    ensures
        ({
            let a = base_offset_addr(s, instr);
            let m = seen_after_read(s.mem, a, key);
            result_written(s.with_mem(m), s.execute(instr, key), bits_11_9(instr), m[a])
        }),
        s.effect(instr, key) == crate::cpu::Effect::Continue,
{
    lemma_bits_as_numbers(instr);
    lemma_addresses(s, instr);
    lemma_seen_is_after_read(s.mem, s.base_relative(instr), key);
    let m = after_read(s.mem, s.base_relative(instr), key);
    lemma_write_reg(s.with_mem(m), bits_11_9(instr), m[s.base_relative(instr) as int]);
}

/// LDI reads a pointer at the PC-relative address (the address LD with the same offset
/// reads) and writes to DR the word the pointer names, each read polling the keyboard
/// when it is of the status register; it sets the flag from the loaded word and changes
/// nothing else but the keyboard registers.
pub proof fn lemma_ldi_semantics(s: CpuState, instr: u16, key: u8)
    requires
        bits_op(instr) == 10,
        s.mem.len() == MEMORY_SIZE,
    ensures
        ({
            let a = pc_offset_addr(s, instr);
            let m1 = seen_after_read(s.mem, a, key);
            let p = m1[a] as int;
            let m2 = seen_after_read(m1, p, key);
            result_written(s.with_mem(m2), s.execute(instr, key), bits_11_9(instr), m2[p])
        }),
        s.effect(instr, key) == crate::cpu::Effect::Continue,
{
    lemma_bits_as_numbers(instr);
    lemma_addresses(s, instr);
    let a = s.pc_relative(instr);
    lemma_seen_is_after_read(s.mem, a, key);
    let m1 = after_read(s.mem, a, key);
    lemma_seen_is_after_read(m1, m1[a as int], key);
    let m2 = after_read(m1, m1[a as int], key);
    lemma_write_reg(s.with_mem(m2), bits_11_9(instr), m2[m1[a as int] as int]);
}

/// ST writes the register named by bits 11..9 at the PC-relative address; registers, PC
/// and flags are unchanged.
pub proof fn lemma_st_semantics(s: CpuState, instr: u16, key: u8)
    requires
        bits_op(instr) == 3,
        s.mem.len() == MEMORY_SIZE,
    ensures
        regs_unchanged(s, s.execute(instr, key)),
        s.execute(instr, key).mem == s.mem.update(
            pc_offset_addr(s, instr),
            gpr(s, bits_11_9(instr)),
        ),
        s.effect(instr, key) == crate::cpu::Effect::Continue,
{
    lemma_bits_as_numbers(instr);
    lemma_gpr_is_reg(s);
    lemma_addresses(s, instr);
}

/// STR writes the register named by bits 11..9 at the base-relative address; registers,
/// PC and flags are unchanged.
pub proof fn lemma_str_semantics(s: CpuState, instr: u16, key: u8)
    requires
        bits_op(instr) == 7,
        s.mem.len() == MEMORY_SIZE,
    ensures
        regs_unchanged(s, s.execute(instr, key)),
        s.execute(instr, key).mem == s.mem.update(
            base_offset_addr(s, instr),
            gpr(s, bits_11_9(instr)),
        ),
        s.effect(instr, key) == crate::cpu::Effect::Continue,
{
    lemma_bits_as_numbers(instr);
    lemma_gpr_is_reg(s);
    lemma_addresses(s, instr);
}

/// STI reads a pointer at the PC-relative address (polling the keyboard when that is the
/// status register) and writes the register named by bits 11..9 where the pointer
/// points; registers, PC and flags are unchanged.
pub proof fn lemma_sti_semantics(s: CpuState, instr: u16, key: u8)
    requires
        bits_op(instr) == 11,
        s.mem.len() == MEMORY_SIZE,
    ensures
        ({
            let a = pc_offset_addr(s, instr);
            let m1 = seen_after_read(s.mem, a, key);
            &&& regs_unchanged(s, s.execute(instr, key))
            &&& s.execute(instr, key).mem == m1.update(m1[a] as int, gpr(s, bits_11_9(instr)))
        }),
        s.effect(instr, key) == crate::cpu::Effect::Continue,
{
    lemma_bits_as_numbers(instr);
    lemma_gpr_is_reg(s);
    lemma_addresses(s, instr);
    lemma_seen_is_after_read(s.mem, s.pc_relative(instr), key);
}

/// GETC, OUT, IN and HALT (trap vectors 0x20, 0x21, 0x23, 0x25 in bits 7..0) change no
/// state; they ask the caller to read a character, write the low byte of R0, prompt for a
/// character, and stop, in that order.
pub proof fn lemma_simple_traps(s: CpuState, instr: u16, key: u8)
    requires
        bits_op(instr) == 15,
    ensures
        instr as int % 256 == 0x20 ==> s.execute(instr, key) == s && s.effect(instr, key)
            == crate::cpu::Effect::GetChar,
        instr as int % 256 == 0x21 ==> s.execute(instr, key) == s && s.effect(instr, key)
            == crate::cpu::Effect::Output(seq![(s.r0 as int % 256) as u8]),
        instr as int % 256 == 0x23 ==> s.execute(instr, key) == s && s.effect(instr, key)
            == crate::cpu::Effect::ReadChar,
        instr as int % 256 == 0x25 ==> s.execute(instr, key) == s && s.effect(instr, key)
            == crate::cpu::Effect::Halt,
{
    lemma_bits_as_numbers(instr);
}

/// PUTS (trap vector 0x22) with R0 naming `n` non-zero words followed by a zero word,
/// none of them the keyboard status register, writes the low byte of each of the `n`
/// words, in order, and changes no state.
pub proof fn lemma_puts_semantics(s: CpuState, instr: u16, key: u8, n: int)
    requires
        bits_op(instr) == 15,
        instr as int % 256 == 0x22,
        s.mem.len() == MEMORY_SIZE,
        0 <= n < (0xFE00 - s.r0 as int + 0x10000) % 0x10000,
        s.mem[(s.r0 as int + n) % 0x10000] == 0,
        forall|j: int| 0 <= j < n ==> #[trigger] s.mem[(s.r0 as int + j) % 0x10000] != 0,
    ensures
        s.execute(instr, key) == s,
        s.effect(instr, key) == crate::cpu::Effect::Output(
            Seq::new(n as nat, |j: int| (s.mem[(s.r0 as int + j) % 0x10000] as int % 256) as u8),
        ),
{
    lemma_bits_as_numbers(instr);
    lemma_string_words(s, key, n);
    let w = crate::cpu::string_words(s.mem, s.r0, key);
    assert(crate::cpu::puts_bytes(w) =~= Seq::new(
        n as nat,
        |j: int| (s.mem[(s.r0 as int + j) % 0x10000] as int % 256) as u8,
    ));
}

proof fn lemma_string_words(s: CpuState, key: u8, n: int)
    requires
        s.mem.len() == MEMORY_SIZE,
        0 <= n < (0xFE00 - s.r0 as int + 0x10000) % 0x10000,
        s.mem[(s.r0 as int + n) % 0x10000] == 0,
        forall|j: int| 0 <= j < n ==> #[trigger] s.mem[(s.r0 as int + j) % 0x10000] != 0,
    ensures
        string_len(s.mem, s.r0, key) == n,
        crate::cpu::string_words(s.mem, s.r0, key) =~= Seq::new(
            n as nat,
            |j: int| s.mem[(s.r0 as int + j) % 0x10000],
        ),
        crate::cpu::mem_after_string(s.mem, s.r0, key) == s.mem,
{
    let start = s.r0;
    assert(kbsr_step(start) == (0xFE00 - start as int + 0x10000) % 0x10000);
    assert forall|j: int| 0 <= j <= n implies #[trigger] scan_word(s.mem, start, key, j)
        == s.mem[(start as int + j) % 0x10000] by {}
    assert(ends_at(s.mem, start, key, n)) by {
        assert forall|j: int| 0 <= j < n implies #[trigger] scan_word(s.mem, start, key, j) != 0 by {
            assert(s.mem[(start as int + j) % 0x10000] != 0);
        }
    }
    let k = string_len(s.mem, start, key);
    assert(k == n) by {
        if k < n {
            assert(scan_word(s.mem, start, key, k) != 0);
        } else if k > n {
            assert(scan_word(s.mem, start, key, n) != 0);
        }
    }
}

/// The opcode table: each instruction and the number in bits 15..12 that selects it.
pub proof fn lemma_opcode_table()
    ensures
        Instruction::OpBr.spec_value() == 0 && Instruction::OpAdd.spec_value() == 1,
        Instruction::OpLd.spec_value() == 2 && Instruction::OpSt.spec_value() == 3,
        Instruction::OpJsr.spec_value() == 4 && Instruction::OpAnd.spec_value() == 5,
        Instruction::OpLdr.spec_value() == 6 && Instruction::OpStr.spec_value() == 7,
        Instruction::OpRti.spec_value() == 8 && Instruction::OpNot.spec_value() == 9,
        Instruction::OpLdi.spec_value() == 10 && Instruction::OpSti.spec_value() == 11,
        Instruction::OpJmp.spec_value() == 12 && Instruction::OpRes.spec_value() == 13,
        Instruction::OpLea.spec_value() == 14 && Instruction::OpTrap.spec_value() == 15,
        forall|v: u8| v < 16 ==> (#[trigger] Instruction::spec_from(v)).spec_value() == v,
{
}

/// The trap table and the condition flag bits.
pub proof fn lemma_trap_and_flag_tables()
    ensures
        crate::cpu::Trap::spec_from(0x20) == crate::cpu::Trap::GetC,
        crate::cpu::Trap::spec_from(0x21) == crate::cpu::Trap::Out,
        crate::cpu::Trap::spec_from(0x22) == crate::cpu::Trap::PutS,
        crate::cpu::Trap::spec_from(0x23) == crate::cpu::Trap::In,
        crate::cpu::Trap::spec_from(0x24) == crate::cpu::Trap::PutSp,
        crate::cpu::Trap::spec_from(0x25) == crate::cpu::Trap::Halt,
        Condition::FlPos.spec_value() == 1,
        Condition::FlZro.spec_value() == 2,
        Condition::FlNeg.spec_value() == 4,
        forall|v: u16| v == 1 || v == 2 || v == 4 ==> (#[trigger] Condition::spec_from(v)).spec_value() == v,
{
}

/// An instruction cannot be executed exactly when its opcode is 8 (RTI) or 13
/// (reserved), when it is a branch whose bits 11..9 are not 1, 2 or 4, or when it is a
/// trap whose bits 7..0 are outside 0x20 to 0x25.
pub proof fn lemma_fault_semantics(instr: u16)
    ensures
        supported(instr) <==> !(bits_op(instr) == 8 || bits_op(instr) == 13 || (bits_op(instr)
            == 0 && !(bits_11_9(instr) == 1 || bits_11_9(instr) == 2 || bits_11_9(instr) == 4))
            || (bits_op(instr) == 15 && !(0x20 <= instr as int % 256 <= 0x25))),
        bits_op(instr) == 8 ==> crate::cpu::fault_of(instr) == Some(crate::cpu::Fault::Rti),
        bits_op(instr) == 13 ==> crate::cpu::fault_of(instr) == Some(crate::cpu::Fault::Reserved),
        (bits_op(instr) == 0 && !(bits_11_9(instr) == 1 || bits_11_9(instr) == 2 || bits_11_9(
            instr,
        ) == 4)) ==> crate::cpu::fault_of(instr) == Some(
            crate::cpu::Fault::InvalidCondition(bits_11_9(instr) as u16),
        ),
        (bits_op(instr) == 15 && !(0x20 <= instr as int % 256 <= 0x25)) ==> crate::cpu::fault_of(
            instr,
        ) == Some(crate::cpu::Fault::InvalidTrap((instr as int % 256) as u16)),
        crate::cpu::outputs_string(instr) <==> (bits_op(instr) == 15 && (instr as int % 256 == 0x22
            || instr as int % 256 == 0x24)),
{
    lemma_bits_as_numbers(instr);
}

/// A read of any address other than the status register leaves memory as it was; a read
/// of the status register polls the keyboard as `keyboard_seen` says.
pub proof fn lemma_read_semantics(m: Seq<u16>, a: u16, key: u8)
    requires
        m.len() == MEMORY_SIZE,
    ensures
        after_read(m, a, key) == seen_after_read(m, a as int, key),
        crate::memory::read_needs_key(a) <==> a == 0xFE00,
{
    lemma_seen_is_after_read(m, a, key);
}

/// A subroutine call's fetch-relative arithmetic: a cycle of fetch then execute sees the
/// PC already moved one word past the instruction (modulo 2^16).
pub proof fn lemma_next_pc(s: CpuState)
    ensures
        crate::cpu::add16(s.pc as int, 1) as int == (s.pc as int + 1) % 0x10000,
        s.with_pc(crate::cpu::add16(s.pc as int, 1)).pc as int == (s.pc as int + 1) % 0x10000,
{
}


/// PUTSP (trap vector 0x24) with R0 naming `n` non-zero words followed by a zero word,
/// none of them the keyboard status register, changes no state and writes the packed
/// characters of those words.
pub proof fn lemma_putsp_semantics(s: CpuState, instr: u16, key: u8, n: int)
    requires
        bits_op(instr) == 15,
        instr as int % 256 == 0x24,
        s.mem.len() == MEMORY_SIZE,
        0 <= n < (0xFE00 - s.r0 as int + 0x10000) % 0x10000,
        s.mem[(s.r0 as int + n) % 0x10000] == 0,
        forall|j: int| 0 <= j < n ==> #[trigger] s.mem[(s.r0 as int + j) % 0x10000] != 0,
    ensures
        s.execute(instr, key) == s,
        s.effect(instr, key) == crate::cpu::Effect::Output(
            crate::cpu::putsp_bytes(Seq::new(n as nat, |j: int| s.mem[(s.r0 as int + j) % 0x10000])),
        ),
{
    lemma_bits_as_numbers(instr);
    lemma_string_words(s, key, n);
}

/// The packed characters of a string: none for no words, and each further word adds its
/// low byte, then its high byte when that is not zero.
pub proof fn lemma_packed_characters(words: Seq<u16>, w: u16)
    ensures
        crate::cpu::putsp_bytes(Seq::empty()) == Seq::<u8>::empty(),
        crate::cpu::putsp_bytes(words.push(w)) == crate::cpu::putsp_bytes(words) + if w as int
            / 256 != 0 {
            seq![(w as int % 256) as u8, (w as int / 256) as u8]
        } else {
            seq![(w as int % 256) as u8]
        },
{
    assert(words.push(w).drop_last() =~= words);
}

/// A string that reaches a zero word `n` words past `start`, every word before it non-zero
/// and the keyboard status register not among them, ends there, whatever the keyboard
/// byte, and reading it leaves memory as it was.
pub proof fn lemma_string_end(mem: Seq<u16>, start: u16, key: u8, n: int)
    requires
        mem.len() == MEMORY_SIZE,
        0 <= n < (0xFE00 - start as int + 0x10000) % 0x10000,
        mem[(start as int + n) % 0x10000] == 0,
        forall|j: int| 0 <= j < n ==> #[trigger] mem[(start as int + j) % 0x10000] != 0,
    ensures
        crate::cpu::string_ends(mem, start, key),
        string_len(mem, start, key) == n,
        !string_needs_key(mem, start),
        crate::cpu::string_words(mem, start, key) == Seq::new(
            n as nat,
            |j: int| mem[(start as int + j) % 0x10000],
        ),
        crate::cpu::mem_after_string(mem, start, key) == mem,
{
    let s = CpuState {
        r0: start,
        r1: 0,
        r2: 0,
        r3: 0,
        r4: 0,
        r5: 0,
        r6: 0,
        r7: 0,
        pc: 0,
        cond: 0,
        mem: mem,
    };
    lemma_string_words(s, key, n);
    assert(ends_at(mem, start, key, n));
    assert(mem[scan_addr(start, n) as int] == 0);
}

/// A string whose words up to the keyboard status register are all non-zero needs a
/// keyboard byte to be read.
pub proof fn lemma_string_needs_key(mem: Seq<u16>, start: u16)
    requires
        mem.len() == MEMORY_SIZE,
        forall|j: int|
            0 <= j < (0xFE00 - start as int + 0x10000) % 0x10000 ==> #[trigger] mem[(start as int + j)
                % 0x10000] != 0,
    ensures
        string_needs_key(mem, start),
{
    assert forall|j: int| 0 <= j < kbsr_step(start) implies #[trigger] mem[scan_addr(start, j) as int] != 0 by {
        assert(mem[(start as int + j) % 0x10000] != 0);
    }
}

/// Which instructions need a keyboard byte: LD, LDR and STI whose address is the status
/// register (0xFE00), LDI whose pointer is there or points there, and PUTS / PUTSP whose
/// string reaches it; no other instruction.
pub proof fn lemma_needs_key_semantics(s: CpuState, instr: u16)
    requires
        s.mem.len() == MEMORY_SIZE,
    ensures
        (bits_op(instr) == 2 || bits_op(instr) == 11) ==> (s.needs_key(instr) <==> pc_offset_addr(
            s,
            instr,
        ) == 0xFE00),
        bits_op(instr) == 6 ==> (s.needs_key(instr) <==> base_offset_addr(s, instr) == 0xFE00),
        bits_op(instr) == 10 ==> (s.needs_key(instr) <==> (pc_offset_addr(s, instr) == 0xFE00
            || s.mem[pc_offset_addr(s, instr)] == 0xFE00)),
        (bits_op(instr) == 15 && (instr as int % 256 == 0x22 || instr as int % 256 == 0x24)) ==> (
        s.needs_key(instr) <==> string_needs_key(s.mem, s.r0)),
        !(bits_op(instr) == 2 || bits_op(instr) == 6 || bits_op(instr) == 10 || bits_op(instr)
            == 11 || (bits_op(instr) == 15 && (instr as int % 256 == 0x22 || instr as int % 256
            == 0x24))) ==> !s.needs_key(instr),
{
    lemma_bits_as_numbers(instr);
    lemma_addresses(s, instr);
}

/// Writing register `k` (0 to 7) of the machine state changes that register and nothing
/// else.
pub proof fn lemma_with_reg_semantics(s: CpuState, k: int, v: u16)
    requires
        0 <= k < 8,
    ensures
        forall|j: int| 0 <= j < 8 ==> #[trigger] gpr(s.with_reg(k, v), j) == if j == k {
            v
        } else {
            gpr(s, j)
        },
        s.with_reg(k, v).pc == s.pc,
        s.with_reg(k, v).cond == s.cond,
        s.with_reg(k, v).mem == s.mem,
        forall|j: int| 0 <= j < 8 ==> #[trigger] s.reg(j) == gpr(s, j),
        s.reg(8) == s.pc && s.reg(9) == s.cond,
{
}

/// The exit codes and the keyboard register addresses.
pub proof fn lemma_code_and_address_tables()
    ensures
        crate::ErrCode::InvalidArgs.spec_code() == 1,
        crate::ErrCode::MissingArgs.spec_code() == 2,
        crate::ErrCode::Halt.spec_code() == 3,
        crate::memory::MemRegister::KBSR.spec_address() == 0xFE00,
        crate::memory::MemRegister::KBDR.spec_address() == 0xFE02,
        KBSR == 0xFE00 && KBDR == 0xFE02,
{
}

} // verus!
