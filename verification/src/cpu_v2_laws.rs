//! Laws of the full processor model, over the instruction semantics.

use vstd::prelude::*;
use crate::bits::{wrap8, wrap16, lemma_wrap8, lemma_wrap16};
use crate::bus::Bus;
use crate::cpu_v2::Cpu;
use crate::cpu_v2_spec::{
    flag_byte, zero_flag, subtract_flag, half_carry_flag, carry_flag, alu_result,
    shift_rotate_result, inc_result, dec_result, execute_spec, step_spec, pending_interrupts,
    block0_spec, alu_block_spec, block3_spec, cb_spec, condition_holds, push_value,
};
use crate::ram::{Mmu, is_ram};

verus! {

/// Reading a flag back from the flag register gives the flag it was built from,
/// and bits 0..3 of a built flag register are clear.
pub proof fn lemma_flag_byte_fields(z: bool, n: bool, h: bool, c: bool)
    ensures
        zero_flag(flag_byte(z, n, h, c)) == z,
        subtract_flag(flag_byte(z, n, h, c)) == n,
        half_carry_flag(flag_byte(z, n, h, c)) == h,
        carry_flag(flag_byte(z, n, h, c)) == c,
        flag_byte(z, n, h, c) % 16 == 0,
{
}

/// Storing a word into a register pair and reading the pair back gives the
/// word; the other registers are kept.
pub proof fn lemma_pair_round_trip(c: Cpu, v: u16)
    ensures
        c.with_bc(v).bc() == v,
        c.with_de(v).de() == v,
        c.with_hl(v).hl() == v,
        c.with_bc(v).with_bc(c.bc()) == c,
        c.with_de(v).with_de(c.de()) == c,
        c.with_hl(v).with_hl(c.hl()) == c,
{
}

/// RRC undoes RLC, RLC undoes RRC, and SWAP undoes itself, whatever the flags.
pub proof fn lemma_rotations_invert(v: u8, f: u8, g: u8)
    ensures
        shift_rotate_result(shift_rotate_result(v, f, 0).0, g, 1).0 == v,
        shift_rotate_result(shift_rotate_result(v, f, 1).0, g, 0).0 == v,
        shift_rotate_result(shift_rotate_result(v, f, 6).0, g, 6).0 == v,
{
    let r0 = shift_rotate_result(v, f, 0).0;
    assert(r0 / 2 + (r0 % 2) * 128 == v) by (nonlinear_arith)
        requires
            r0 == (v * 2) % 256 + v / 128,
            0 <= v < 256,
    ;
    let r1 = shift_rotate_result(v, f, 1).0;
    assert((r1 * 2) % 256 + r1 / 128 == v) by (nonlinear_arith)
        requires
            r1 == v / 2 + (v % 2) * 128,
            0 <= v < 256,
    ;
    let r6 = shift_rotate_result(v, f, 6).0;
    assert((r6 % 16) * 16 + r6 / 16 == v) by (nonlinear_arith)
        requires
            r6 == (v % 16) * 16 + v / 16,
            0 <= v < 256,
    ;
}

/// RR through the carry that RL left undoes RL and gives back the carry;
/// RL after RR likewise.
pub proof fn lemma_rotations_through_carry_invert(v: u8, f: u8)
    ensures
        shift_rotate_result(shift_rotate_result(v, f, 2).0, shift_rotate_result(v, f, 2).1, 3).0 == v,
        carry_flag(shift_rotate_result(shift_rotate_result(v, f, 2).0, shift_rotate_result(v, f, 2).1, 3).1)
            == carry_flag(f),
        shift_rotate_result(shift_rotate_result(v, f, 3).0, shift_rotate_result(v, f, 3).1, 2).0 == v,
        carry_flag(shift_rotate_result(shift_rotate_result(v, f, 3).0, shift_rotate_result(v, f, 3).1, 2).1)
            == carry_flag(f),
{
}

/// DEC undoes INC and INC undoes DEC, whatever the flags.
pub proof fn lemma_inc_dec_invert(v: u8, f: u8, g: u8)
    ensures
        dec_result(inc_result(v, f).0, g).0 == v,
        inc_result(dec_result(v, f).0, g).0 == v,
{
    lemma_wrap8(v + 1);
    lemma_wrap8(v - 1);
    lemma_wrap8(wrap8(v + 1) - 1);
    lemma_wrap8(wrap8(v - 1) + 1);
}

/// SUB undoes ADD and ADD undoes SUB on the accumulator, whatever the flags.
pub proof fn lemma_add_sub_invert(a: u8, v: u8, f: u8, g: u8)
    ensures
        alu_result(alu_result(a, f, v, 0).0, g, v, 2).0 == a,
        alu_result(alu_result(a, f, v, 2).0, g, v, 0).0 == a,
{
    lemma_wrap8(a + v);
    lemma_wrap8(a - v);
    lemma_wrap8(wrap8(a + v) - v);
    lemma_wrap8(wrap8(a - v) + v);
}

/// The flags of ADD, SUB and CP: Z tells a zero result, C an unsigned
/// overflow (ADD) or borrow (SUB, CP); CP keeps A and sets Z exactly when A
/// equals the operand.
pub proof fn lemma_alu_flags(a: u8, v: u8, f: u8)
    ensures
        zero_flag(alu_result(a, f, v, 0).1) == (alu_result(a, f, v, 0).0 == 0),
        carry_flag(alu_result(a, f, v, 0).1) == (a + v > 255),
        zero_flag(alu_result(a, f, v, 2).1) == (a == v),
        carry_flag(alu_result(a, f, v, 2).1) == (v > a),
        alu_result(a, f, v, 7).0 == a,
        zero_flag(alu_result(a, f, v, 7).1) == (a == v),
        carry_flag(alu_result(a, f, v, 7).1) == (v > a),
{
    lemma_wrap8(a + v);
    lemma_wrap8(a - v);
    lemma_flag_byte_fields(alu_result(a, f, v, 0).0 == 0, false, a % 16 + v % 16 > 15, a + v > 255);
    lemma_flag_byte_fields(a == v, true, v % 16 > a % 16, v > a);
}

/// A stopped processor does nothing; a halted one does nothing until an
/// enabled interrupt is requested.
pub proof fn lemma_stopped_or_halted_idle<B: Bus>(c: Cpu, bus: B)
    requires
        c.stopped || (c.halted && pending_interrupts(bus) == 0),
    ensures
        step_spec(c, bus) == (c, bus, 4u32),
{
}

/// Writing the two stack bytes below `sp`, high byte first as a push does,
/// reads back what was written.
pub open spec fn holds_stack_bytes<B: Bus>(bus: B, sp: u16) -> bool {
    forall|hi: u8, lo: u8|
        #![trigger bus.after_write(wrap16(sp - 1), hi).after_write(wrap16(sp - 2), lo)]
        bus.after_write(wrap16(sp - 1), hi).after_write(wrap16(sp - 2), lo).peek(wrap16(sp - 1)) == hi
            && bus.after_write(wrap16(sp - 1), hi).after_write(wrap16(sp - 2), lo).peek(
            wrap16(sp - 2),
        ) == lo
}

/// A step from `c` on `bus` takes no interrupt.
pub open spec fn no_interrupt<B: Bus>(c: Cpu, bus: B) -> bool {
    !c.ime || pending_interrupts(bus) == 0
}

/// The memory map holds the stack bytes when both lie in RAM.
pub proof fn lemma_ram_holds_stack_bytes<'a>(m: Mmu<'a>, sp: u16)
    requires
        is_ram(wrap16(sp - 1)),
        is_ram(wrap16(sp - 2)),
    ensures
        holds_stack_bytes(m, sp),
{
    lemma_wrap16(sp - 1);
    lemma_wrap16(sp - 2);
}

/// A step that executes CALL nn (or a CALL cc, nn whose condition holds)
/// jumps to nn in 24 cycles; when the next step executes RET, it comes back
/// past the CALL with SP as it was, in 16 cycles. This holds on any bus that
/// reads back the two stack bytes, with the processor running and no
/// interrupt taken.
pub proof fn lemma_call_then_ret<B: Bus>(c: Cpu, bus: B, op: u8)
    requires
        op == 0xCD || ((op == 0xC4 || op == 0xCC || op == 0xD4 || op == 0xDC) && condition_holds(
            c.f,
            op,
        )),
        !c.stopped,
        !c.halted,
        bus.peek(c.pc) == op,
        no_interrupt(c, bus),
        holds_stack_bytes(bus, c.sp),
        no_interrupt(step_spec(c, bus).0, step_spec(c, bus).1),
        step_spec(c, bus).1.peek(step_spec(c, bus).0.pc) == 0xC9,
    ensures
        ({
            let (c1, b1, cycles1) = step_spec(c, bus);
            let (c2, b2, cycles2) = step_spec(c1, b1);
            &&& c1.pc == Cpu { pc: wrap16(c.pc + 1), ..c }.imm16(bus)
            &&& c1.sp == wrap16(c.sp - 2)
            &&& cycles1 == 24
            &&& c2 == Cpu { pc: wrap16(c.pc + 3), ..c }
            &&& cycles2 == 16
        }),
{
    lemma_wrap16(c.sp - 1);
    lemma_wrap16(c.sp - 2);
    lemma_wrap16(wrap16(c.sp - 2) + 1);
    lemma_wrap16(wrap16(c.sp - 2) + 2);
    lemma_wrap16(c.pc + 1);
    lemma_wrap16(c.pc + 3);
    lemma_wrap16(wrap16(c.pc + 1) + 2);
}

/// A step that executes PUSH rr lowers SP by 2 in 16 cycles; when the next
/// step executes POP qq, qq receives the pushed word (POP AF keeps only the
/// high nibble of F) and SP is as it was, in 12 cycles. This holds on any bus
/// that reads back the two stack bytes, with the processor running and no
/// interrupt taken.
#[verifier::spinoff_prover]
#[verifier::rlimit(50)]
pub proof fn lemma_push_then_pop<B: Bus>(c: Cpu, bus: B, push: u8, pop: u8)
    requires
        push == 0xC5 || push == 0xD5 || push == 0xE5 || push == 0xF5,
        pop == 0xC1 || pop == 0xD1 || pop == 0xE1 || pop == 0xF1,
        !c.stopped,
        !c.halted,
        bus.peek(c.pc) == push,
        no_interrupt(c, bus),
        holds_stack_bytes(bus, c.sp),
        no_interrupt(step_spec(c, bus).0, step_spec(c, bus).1),
        step_spec(c, bus).1.peek(step_spec(c, bus).0.pc) == pop,
    ensures
        ({
            let v = push_value(c, push);
            let (c1, b1, cycles1) = step_spec(c, bus);
            let (c2, b2, cycles2) = step_spec(c1, b1);
            &&& c1.sp == wrap16(c.sp - 2)
            &&& cycles1 == 16
            &&& c2.sp == c.sp
            &&& c2.pc == wrap16(c.pc + 2)
            &&& cycles2 == 12
            &&& (pop == 0xC1 ==> c2.bc() == v)
            &&& (pop == 0xD1 ==> c2.de() == v)
            &&& (pop == 0xE1 ==> c2.hl() == v)
            &&& (pop == 0xF1 ==> c2.a == v / 256 && c2.f == ((v % 256) / 16) * 16)
        }),
{
    lemma_wrap16(c.sp - 1);
    lemma_wrap16(c.sp - 2);
    lemma_wrap16(wrap16(c.sp - 2) + 1);
    lemma_wrap16(wrap16(c.sp - 2) + 2);
    lemma_wrap16(c.pc + 1);
    lemma_wrap16(c.pc + 2);
    lemma_wrap16(wrap16(c.pc + 1) + 1);
    lemma_pair_round_trip(c, 0);
}

/// Entering an interrupt clears IME and jumps to the vector of the lowest
/// pending line; RETI then comes back to the interrupted PC with IME set and
/// SP restored, when the two stack bytes lie in RAM.
pub proof fn lemma_interrupt_reti<'a>(c: Cpu, m: Mmu<'a>, pending: u8)
    requires
        pending & 0x1F != 0,
        is_ram(wrap16(c.sp - 1)),
        is_ram(wrap16(c.sp - 2)),
    ensures
        ({
            let (c1, m1) = c.interrupt_spec(m, pending);
            let (c2, m2, cycles) = execute_spec(c1, m1, 0xD9);
            &&& !c1.ime
            &&& c1.pc == (if pending & 0x01 != 0 {
                0x40u16
            } else if pending & 0x02 != 0 {
                0x48u16
            } else if pending & 0x04 != 0 {
                0x50u16
            } else if pending & 0x08 != 0 {
                0x58u16
            } else {
                0x60u16
            })
            &&& c2 == Cpu { ime: true, ..c }
            &&& cycles == 16
        }),
{
    lemma_wrap16(c.sp - 1);
    lemma_wrap16(c.sp - 2);
    lemma_wrap16(wrap16(c.sp - 2) + 1);
    lemma_wrap16(wrap16(c.sp - 2) + 2);
    assert(pending & 0x1F != 0 ==> (pending & 0x01 != 0 || pending & 0x02 != 0 || pending & 0x04
        != 0 || pending & 0x08 != 0 || pending & 0x10 != 0)) by (bit_vector);
}

/// Bits 0..3 of F stay clear: every instruction that writes F builds it from
/// the four flags, keeps it, sets bits 5..6 of it (CPL), or pops it with the
/// low nibble masked (POP AF), and an interrupt entry keeps it.
pub proof fn lemma_step_keeps_flag_low_nibble<B: Bus>(c: Cpu, bus: B)
    requires
        c.f % 16 == 0,
    ensures
        step_spec(c, bus).0.f % 16 == 0,
{
    let f = c.f;
    assert((f | 0x60) % 16 == f % 16) by (bit_vector);
    let pending = pending_interrupts(bus);
    let awake = Cpu { halted: false, ..c };
    if !c.stopped && !(c.halted && pending == 0) && !(awake.ime && pending != 0) {
        let c1 = Cpu { pc: wrap16(c.pc + 1), ..awake };
        let op = bus.peek(c.pc);
        if op < 0x40 {
            lemma_block0_keeps_flag_low_nibble(c1, bus, op);
        } else if op < 0x80 {
        } else if op < 0xC0 {
            lemma_alu_keeps_flag_low_nibble(c1, bus, op);
        } else {
            lemma_block3_keeps_flag_low_nibble(c1, bus, op);
        }
    }
}

proof fn lemma_block0_keeps_flag_low_nibble<B: Bus>(c: Cpu, bus: B, op: u8)
    requires
        c.f % 16 == 0,
        op < 0x40,
    ensures
        block0_spec(c, bus, op).0.f % 16 == 0,
{
    let f = c.f;
    if op == 0x2F {
        assert((f | 0x60) % 16 == f % 16) by (bit_vector);
    } else if op == 0x06 || op == 0x0E || op == 0x16 || op == 0x1E || op == 0x26 || op == 0x2E {
        assert(block0_spec(c, bus, op).0.f == f);
    }
}

proof fn lemma_alu_keeps_flag_low_nibble<B: Bus>(c: Cpu, bus: B, op: u8)
    requires
        c.f % 16 == 0,
        0x80 <= op < 0xC0,
    ensures
        alu_block_spec(c, bus, op).0.f % 16 == 0,
{
}

proof fn lemma_block3_keeps_flag_low_nibble<B: Bus>(c: Cpu, bus: B, op: u8)
    requires
        c.f % 16 == 0,
        op >= 0xC0,
    ensures
        block3_spec(c, bus, op).0.f % 16 == 0,
{
    if op == 0xCB {
        lemma_cb_keeps_flag_low_nibble(c, bus);
    } else if op == 0xF1 {
        let v = c.stack_top(bus);
        assert((((v % 256) / 16) * 16) % 16 == 0) by (nonlinear_arith);
    }
}

proof fn lemma_cb_keeps_flag_low_nibble<B: Bus>(c: Cpu, bus: B)
    requires
        c.f % 16 == 0,
    ensures
        cb_spec(c, bus).0.f % 16 == 0,
{
}

/// No step can change the cartridge ROM of the memory map: writes to ROM
/// addresses are ignored, and nothing else reaches it.
pub proof fn lemma_step_keeps_rom<'a>(c: Cpu, m: Mmu<'a>)
    ensures
        step_spec(c, m).1.rom == m.rom,
{
    let pending = pending_interrupts(m);
    let awake = Cpu { halted: false, ..c };
    if !c.stopped && !(c.halted && pending == 0) && !(awake.ime && pending != 0) {
        let c1 = Cpu { pc: wrap16(c.pc + 1), ..awake };
        let op = m.peek(c.pc);
        if op < 0x40 {
            lemma_block0_keeps_rom(c1, m, op);
        } else if op >= 0xC0 {
            lemma_block3_keeps_rom(c1, m, op);
        }
    }
}

proof fn lemma_block0_keeps_rom<'a>(c: Cpu, m: Mmu<'a>, op: u8)
    requires
        op < 0x40,
    ensures
        block0_spec(c, m, op).1.rom == m.rom,
{
}

proof fn lemma_block3_keeps_rom<'a>(c: Cpu, m: Mmu<'a>, op: u8)
    requires
        op >= 0xC0,
    ensures
        block3_spec(c, m, op).1.rom == m.rom,
{
}

} // verus!
