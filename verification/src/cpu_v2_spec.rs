//! The instruction semantics of the full processor model, as spec functions
//! over the register file and the bus.

use vstd::prelude::*;
use crate::bits::{wrap8, wrap16, signed8};
use crate::bus::Bus;
use crate::cpu_v2::Cpu;

verus! {

/// The flag register built from its four flags (Z, N, H, C in bits 7..4).
pub open spec fn flag_byte(z: bool, n: bool, h: bool, c: bool) -> u8 {
    ((if z { 0x80int } else { 0 }) + (if n { 0x40int } else { 0 }) + (if h { 0x20int } else { 0 }) + (
    if c { 0x10int } else { 0 })) as u8
}

/// Z, bit 7 of the flag register.
pub open spec fn zero_flag(f: u8) -> bool {
    f >= 0x80
}

/// N, bit 6 of the flag register.
pub open spec fn subtract_flag(f: u8) -> bool {
    (f / 0x40) % 2 == 1
}

/// H, bit 5 of the flag register.
pub open spec fn half_carry_flag(f: u8) -> bool {
    (f / 0x20) % 2 == 1
}

/// C, bit 4 of the flag register.
pub open spec fn carry_flag(f: u8) -> bool {
    (f / 0x10) % 2 == 1
}

/// The carry flag as a number, 0 or 1.
pub open spec fn carry_in(f: u8) -> int {
    if carry_flag(f) {
        1
    } else {
        0
    }
}

/// The interrupt lines that are both requested (0xFF0F) and enabled (0xFFFF).
pub open spec fn pending_interrupts<B: Bus>(bus: B) -> u8 {
    bus.peek(0xFF0F) & bus.peek(0xFFFF) & 0x1F
}

/// The accumulator and flags after the 8-bit operation `op` (add, adc, sub,
/// sbc, and, xor, or, cp, in that order) with operand `v`.
pub open spec fn alu_result(a: u8, f: u8, v: u8, op: u8) -> (u8, u8) {
    let ci = carry_in(f);
    if op == 0 {
        let r = wrap8(a + v);
        (r, flag_byte(r == 0, false, a % 16 + v % 16 > 15, a + v > 255))
    } else if op == 1 {
        let r = wrap8(a + v + ci);
        (r, flag_byte(r == 0, false, a % 16 + v % 16 + ci > 15, a + v + ci > 255))
    } else if op == 2 {
        let r = wrap8(a - v);
        (r, flag_byte(r == 0, true, v % 16 > a % 16, v > a))
    } else if op == 3 {
        let r = wrap8(a - v - ci);
        (r, flag_byte(r == 0, true, a % 16 < v % 16 + ci, v + ci > a))
    } else if op == 4 {
        (a & v, flag_byte(a & v == 0, false, true, false))
    } else if op == 5 {
        (a ^ v, flag_byte(a ^ v == 0, false, false, false))
    } else if op == 6 {
        (a | v, flag_byte(a | v == 0, false, false, false))
    } else {
        (a, flag_byte(wrap8(a - v) == 0, true, v % 16 > a % 16, v > a))
    }
}

/// The result and flags of the rotate/shift group of the 0xCB prefix:
/// rlc, rrc, rl, rr, sla, sra, swap, srl for `kind` 0 to 7.
pub open spec fn shift_rotate_result(v: u8, f: u8, kind: u8) -> (u8, u8) {
    let ci = carry_in(f);
    if kind == 0 {
        let r = ((v * 2) % 256 + v / 128) as u8;
        (r, flag_byte(r == 0, false, false, v / 128 == 1))
    } else if kind == 1 {
        let r = (v / 2 + (v % 2) * 128) as u8;
        (r, flag_byte(r == 0, false, false, v % 2 == 1))
    } else if kind == 2 {
        let r = ((v * 2) % 256 + ci) as u8;
        (r, flag_byte(r == 0, false, false, v / 128 == 1))
    } else if kind == 3 {
        let r = (v / 2 + ci * 128) as u8;
        (r, flag_byte(r == 0, false, false, v % 2 == 1))
    } else if kind == 4 {
        let r = ((v * 2) % 256) as u8;
        (r, flag_byte(r == 0, false, false, v / 128 == 1))
    } else if kind == 5 {
        let r = (v / 2 + (v / 128) * 128) as u8;
        (r, flag_byte(r == 0, false, false, v % 2 == 1))
    } else if kind == 6 {
        let r = ((v % 16) * 16 + v / 16) as u8;
        (r, flag_byte(r == 0, false, false, false))
    } else {
        let r = (v / 2) as u8;
        (r, flag_byte(r == 0, false, false, v % 2 == 1))
    }
}

/// The flags after testing bit `bit` of `v`: Z tells that the bit is clear,
/// H is set, N is cleared and C is kept.
pub open spec fn bit_test_flags(v: u8, f: u8, bit: u8) -> u8 {
    flag_byte(v & (1u8 << bit) == 0, false, true, carry_flag(f))
}

/// Increment of a byte: the result and the flags (C kept).
pub open spec fn inc_result(v: u8, f: u8) -> (u8, u8) {
    let r = wrap8(v + 1);
    (r, flag_byte(r == 0, false, v % 16 + 1 > 15, carry_flag(f)))
}

/// Decrement of a byte: the result and the flags (C kept).
pub open spec fn dec_result(v: u8, f: u8) -> (u8, u8) {
    let r = wrap8(v - 1);
    (r, flag_byte(r == 0, true, v % 16 == 0, carry_flag(f)))
}

/// Decimal adjustment of the accumulator after a BCD addition or subtraction.
pub open spec fn daa_result(a: u8, f: u8) -> (u8, u8) {
    let hf = half_carry_flag(f);
    let cf = carry_flag(f);
    if !subtract_flag(f) {
        let a1: int = if hf || a > 0x9F { a + 6 } else { a as int };
        let adjust = cf || ((a1 as u16) & 0x9F) > 0x99;
        let a2: int = if adjust { a1 + 0x60 } else { a1 };
        (wrap8(a2), flag_byte(wrap8(a2) == 0, false, false, adjust))
    } else {
        let a2: int = a - (if hf { 6int } else { 0 }) - (if cf { 0x60int } else { 0 });
        (wrap8(a2), flag_byte(wrap8(a2) == 0, true, false, cf))
    }
}

impl Cpu {
    /// The register pair BC as a word.
    pub open spec fn bc(self) -> u16 {
        (self.b * 256 + self.c) as u16
    }

    /// The register pair DE as a word.
    pub open spec fn de(self) -> u16 {
        (self.d * 256 + self.e) as u16
    }

    /// The register pair HL as a word.
    pub open spec fn hl(self) -> u16 {
        (self.h * 256 + self.l) as u16
    }

    /// BC replaced by a word.
    pub open spec fn with_bc(self, v: u16) -> Cpu {
        Cpu { b: (v / 256) as u8, c: (v % 256) as u8, ..self }
    }

    /// DE replaced by a word.
    pub open spec fn with_de(self, v: u16) -> Cpu {
        Cpu { d: (v / 256) as u8, e: (v % 256) as u8, ..self }
    }

    /// HL replaced by a word.
    pub open spec fn with_hl(self, v: u16) -> Cpu {
        Cpu { h: (v / 256) as u8, l: (v % 256) as u8, ..self }
    }

    /// The word register with index 0 to 3: BC, DE, HL, SP.
    pub open spec fn pair(self, idx: u8) -> u16 {
        if idx == 0 {
            self.bc()
        } else if idx == 1 {
            self.de()
        } else if idx == 2 {
            self.hl()
        } else {
            self.sp
        }
    }

    /// The word register with index 0 to 3 replaced by a word.
    pub open spec fn with_pair(self, idx: u8, v: u16) -> Cpu {
        if idx == 0 {
            self.with_bc(v)
        } else if idx == 1 {
            self.with_de(v)
        } else if idx == 2 {
            self.with_hl(v)
        } else {
            Cpu { sp: v, ..self }
        }
    }

    /// The 8-bit operand with index 0 to 7: B, C, D, E, H, L, (HL), A.
    pub open spec fn reg<B: Bus>(self, bus: B, id: u8) -> u8 {
        if id == 0 {
            self.b
        } else if id == 1 {
            self.c
        } else if id == 2 {
            self.d
        } else if id == 3 {
            self.e
        } else if id == 4 {
            self.h
        } else if id == 5 {
            self.l
        } else if id == 6 {
            bus.peek(self.hl())
        } else {
            self.a
        }
    }

    /// The processor and bus after storing `v` into the 8-bit operand `id`.
    pub open spec fn with_reg<B: Bus>(self, bus: B, id: u8, v: u8) -> (Cpu, B) {
        if id == 0 {
            (Cpu { b: v, ..self }, bus)
        } else if id == 1 {
            (Cpu { c: v, ..self }, bus)
        } else if id == 2 {
            (Cpu { d: v, ..self }, bus)
        } else if id == 3 {
            (Cpu { e: v, ..self }, bus)
        } else if id == 4 {
            (Cpu { h: v, ..self }, bus)
        } else if id == 5 {
            (Cpu { l: v, ..self }, bus)
        } else if id == 6 {
            (self, bus.after_write(self.hl(), v))
        } else {
            (Cpu { a: v, ..self }, bus)
        }
    }

    /// The byte at the program counter.
    pub open spec fn imm8<B: Bus>(self, bus: B) -> u8 {
        bus.peek(self.pc)
    }

    /// The little-endian word at the program counter.
    pub open spec fn imm16<B: Bus>(self, bus: B) -> u16 {
        (bus.peek(wrap16(self.pc + 1)) * 256 + bus.peek(self.pc)) as u16
    }

    /// Pushing a word: high byte at SP-1, low byte at SP-2, SP lowered by 2.
    pub open spec fn push_spec<B: Bus>(self, bus: B, v: u16) -> (Cpu, B) {
        let sp1 = wrap16(self.sp - 1);
        let sp2 = wrap16(self.sp - 2);
        (
            Cpu { sp: sp2, ..self },
            bus.after_write(sp1, (v / 256) as u8).after_write(sp2, (v % 256) as u8),
        )
    }

    /// The word on top of the stack.
    pub open spec fn stack_top<B: Bus>(self, bus: B) -> u16 {
        (bus.peek(wrap16(self.sp + 1)) * 256 + bus.peek(self.sp)) as u16
    }

    /// Popping a word raises SP by 2.
    pub open spec fn popped(self) -> Cpu {
        Cpu { sp: wrap16(self.sp + 2), ..self }
    }

    /// Entering the service routine of the lowest pending interrupt line:
    /// IME cleared, PC pushed, the line's request bit cleared, PC at its vector.
    pub open spec fn interrupt_spec<B: Bus>(self, bus: B, pending: u8) -> (Cpu, B) {
        let (c, b) = Cpu { ime: false, ..self }.push_spec(bus, self.pc);
        if pending & 0x01 != 0 {
            (Cpu { pc: 0x0040, ..c }, b.after_write(0xFF0F, pending & !0x01u8))
        } else if pending & 0x02 != 0 {
            (Cpu { pc: 0x0048, ..c }, b.after_write(0xFF0F, pending & !0x02u8))
        } else if pending & 0x04 != 0 {
            (Cpu { pc: 0x0050, ..c }, b.after_write(0xFF0F, pending & !0x04u8))
        } else if pending & 0x08 != 0 {
            (Cpu { pc: 0x0058, ..c }, b.after_write(0xFF0F, pending & !0x08u8))
        } else if pending & 0x10 != 0 {
            (Cpu { pc: 0x0060, ..c }, b.after_write(0xFF0F, pending & !0x10u8))
        } else {
            (c, b)
        }
    }
}

/// LD rr, d16 (0x01, 0x11, 0x21, 0x31).
pub open spec fn load_pair_spec<B: Bus>(c: Cpu, bus: B, op: u8) -> Cpu {
    Cpu { pc: wrap16(c.pc + 2), ..c }.with_pair(op / 16, c.imm16(bus))
}

/// INC rr (0x03, 0x13, 0x23, 0x33) and DEC rr (0x0B, 0x1B, 0x2B, 0x3B).
pub open spec fn step_pair_spec(c: Cpu, op: u8) -> Cpu {
    let old_value = c.pair(op / 16);
    c.with_pair(op / 16, if op % 16 == 3 { wrap16(old_value + 1) } else { wrap16(old_value - 1) })
}

/// INC r (opcodes 8k+4) and DEC r (opcodes 8k+5) on the operand k.
pub open spec fn inc_dec_spec<B: Bus>(c: Cpu, bus: B, op: u8) -> (Cpu, B, u32) {
    let id = op / 8;
    let (v, f) = if op % 8 == 4 {
        inc_result(c.reg(bus, id), c.f)
    } else {
        dec_result(c.reg(bus, id), c.f)
    };
    let (c1, b1) = Cpu { f: f, ..c }.with_reg(bus, id, v);
    (c1, b1, if id == 6 { 12 } else { 4 })
}

/// RLCA (0x07), RRCA (0x0F), RLA (0x17), RRA (0x1F). RRCA sets C when bit 0
/// was clear, as the model has it.
pub open spec fn rotate_a_spec(c: Cpu, op: u8) -> Cpu {
    let a = c.a;
    if op == 0x07 {
        Cpu { a: ((a * 2) % 256 + a / 128) as u8, f: flag_byte(false, false, false, a / 128 == 1), ..c }
    } else if op == 0x0F {
        Cpu { a: (a / 2 + (a % 2) * 128) as u8, f: flag_byte(false, false, false, a % 2 == 0), ..c }
    } else if op == 0x17 {
        Cpu { a: ((a * 2) % 256 + carry_in(c.f)) as u8, f: flag_byte(false, false, false, a / 128 == 1), ..c }
    } else {
        Cpu { a: (a / 2 + carry_in(c.f) * 128) as u8, f: flag_byte(false, false, false, a % 2 == 1), ..c }
    }
}

/// ADD HL, rr (0x09, 0x19, 0x29, 0x39): Z kept, N cleared, H from bit 11, C from bit 15.
pub open spec fn add_hl_spec(c: Cpu, op: u8) -> Cpu {
    let hl = c.hl();
    let v = c.pair(op / 16);
    let f = flag_byte(zero_flag(c.f), false, hl % 4096 + v % 4096 > 4095, hl + v > 65535);
    Cpu { f: f, ..c }.with_hl(wrap16(hl + v))
}

/// Whether the condition of JR (0x18 always, 0x20 NZ, 0x28 Z, 0x30 NC, 0x38 C) holds.
pub open spec fn jr_taken(f: u8, op: u8) -> bool {
    if op == 0x20 {
        !zero_flag(f)
    } else if op == 0x28 {
        zero_flag(f)
    } else if op == 0x30 {
        !carry_flag(f)
    } else if op == 0x38 {
        carry_flag(f)
    } else {
        true
    }
}

/// JR e and JR cc, e: PC past the offset byte, plus the signed offset when taken.
pub open spec fn jr_spec<B: Bus>(c: Cpu, bus: B, op: u8) -> (Cpu, u32) {
    let pc1 = wrap16(c.pc + 1);
    if jr_taken(c.f, op) {
        (Cpu { pc: wrap16(pc1 + signed8(c.imm8(bus))), ..c }, 12)
    } else {
        (Cpu { pc: pc1, ..c }, 8)
    }
}

/// LD (HL+), A (0x22), LD (HL-), A (0x32), LD A, (HL+) (0x2A), LD A, (HL-) (0x3A).
pub open spec fn load_hl_step_spec<B: Bus>(c: Cpu, bus: B, op: u8) -> (Cpu, B) {
    let hl = c.hl();
    let next = if op == 0x22 || op == 0x2A { wrap16(hl + 1) } else { wrap16(hl - 1) };
    if op == 0x22 || op == 0x32 {
        (c.with_hl(next), bus.after_write(hl, c.a))
    } else {
        (Cpu { a: bus.peek(hl), ..c }.with_hl(next), bus)
    }
}

/// Opcodes 0x00 to 0x3F, with PC already past the opcode: loads of
/// immediates, 16-bit increments and additions, 8-bit increments, rotations of
/// A, relative jumps, (HL) loads with post-increment or decrement, DAA, CPL,
/// SCF, CCF and STOP. Opcodes of the range
/// that the model leaves out take 4 cycles and change nothing.
pub open spec fn block0_spec<B: Bus>(c: Cpu, bus: B, op: u8) -> (Cpu, B, u32) {
    if op == 0x01 || op == 0x11 || op == 0x21 || op == 0x31 {
        (load_pair_spec(c, bus, op), bus, 12)
    } else if op % 16 == 3 || op % 16 == 0x0B {
        (step_pair_spec(c, op), bus, 8)
    } else if op % 8 == 4 || op % 8 == 5 {
        inc_dec_spec(c, bus, op)
    } else if op == 0x06 || op == 0x0E || op == 0x16 || op == 0x1E || op == 0x26 || op == 0x2E {
        let (c1, b1) = Cpu { pc: wrap16(c.pc + 1), ..c }.with_reg(bus, op / 8, c.imm8(bus));
        (c1, b1, 8)
    } else if op == 0x07 || op == 0x0F || op == 0x17 || op == 0x1F {
        (rotate_a_spec(c, op), bus, 4)
    } else if op % 16 == 9 {
        (add_hl_spec(c, op), bus, 8)
    } else if op == 0x10 {
        (Cpu { pc: wrap16(c.pc + 1), stopped: true, ..c }, bus, 4)
    } else if op == 0x18 || op == 0x20 || op == 0x28 || op == 0x30 || op == 0x38 {
        let (c1, cycles) = jr_spec(c, bus, op);
        (c1, bus, cycles)
    } else if op == 0x22 || op == 0x32 || op == 0x2A || op == 0x3A {
        let (c1, b1) = load_hl_step_spec(c, bus, op);
        (c1, b1, 8)
    } else if op == 0x27 {
        let (a, f) = daa_result(c.a, c.f);
        (Cpu { a: a, f: f, ..c }, bus, 4)
    } else if op == 0x2F {
        (Cpu { a: !c.a, f: c.f | 0x60, ..c }, bus, 4)
    } else if op == 0x37 {
        (Cpu { f: flag_byte(zero_flag(c.f), false, false, true), ..c }, bus, 4)
    } else if op == 0x3F {
        (Cpu { f: flag_byte(zero_flag(c.f), false, false, !carry_flag(c.f)), ..c }, bus, 4)
    } else if op == 0x3E {
        (Cpu { a: c.imm8(bus), pc: wrap16(c.pc + 1), ..c }, bus, 8)
    } else {
        (c, bus, 4)
    }
}

/// Opcodes 0x40 to 0x7F: LD r, r' from operand `op % 8` into operand
/// `(op / 8) % 8`, with 0x76 entering HALT.
pub open spec fn load_block_spec<B: Bus>(c: Cpu, bus: B, op: u8) -> (Cpu, B, u32) {
    if op == 0x76 {
        (Cpu { halted: true, ..c }, bus, 4)
    } else {
        let src = op % 8;
        let dest = (op / 8) % 8;
        let (c1, b1) = c.with_reg(bus, dest, c.reg(bus, src));
        (c1, b1, if src == 6 || dest == 6 { 8 } else { 4 })
    }
}

/// Opcodes 0x80 to 0xBF: the operation `(op / 8) % 8` of the ALU group on A
/// and the operand `op % 8`.
pub open spec fn alu_block_spec<B: Bus>(c: Cpu, bus: B, op: u8) -> (Cpu, u32) {
    let src = op % 8;
    let (a, f) = alu_result(c.a, c.f, c.reg(bus, src), (op / 8) % 8);
    (Cpu { a: a, f: f, ..c }, if src == 6 { 8 } else { 4 })
}

/// The condition in bits 3..4 of a conditional jump, call or return:
/// NZ, Z, NC, C.
pub open spec fn condition_holds(f: u8, op: u8) -> bool {
    let cc = (op / 8) % 4;
    if cc == 0 {
        !zero_flag(f)
    } else if cc == 1 {
        zero_flag(f)
    } else if cc == 2 {
        !carry_flag(f)
    } else {
        carry_flag(f)
    }
}

/// RET: PC popped from the stack.
pub open spec fn ret_spec<B: Bus>(c: Cpu, bus: B) -> Cpu {
    Cpu { pc: c.stack_top(bus), ..c.popped() }
}

/// POP rr (0xC1 BC, 0xD1 DE, 0xE1 HL, 0xF1 AF, where F keeps only its high nibble).
pub open spec fn pop_spec<B: Bus>(c: Cpu, bus: B, op: u8) -> Cpu {
    let v = c.stack_top(bus);
    let c1 = c.popped();
    if op == 0xC1 {
        c1.with_bc(v)
    } else if op == 0xD1 {
        c1.with_de(v)
    } else if op == 0xE1 {
        c1.with_hl(v)
    } else {
        Cpu { a: (v / 256) as u8, f: (((v % 256) / 16) * 16) as u8, ..c1 }
    }
}

/// The word that PUSH rr (0xC5 BC, 0xD5 DE, 0xE5 HL, 0xF5 AF) pushes.
pub open spec fn push_value(c: Cpu, op: u8) -> u16 {
    if op == 0xC5 {
        c.bc()
    } else if op == 0xD5 {
        c.de()
    } else if op == 0xE5 {
        c.hl()
    } else {
        (c.a * 256 + c.f) as u16
    }
}

/// JP nn (0xC3) and JP cc, nn (0xC2, 0xCA, 0xD2, 0xDA).
pub open spec fn jp_spec<B: Bus>(c: Cpu, bus: B, op: u8) -> (Cpu, u32) {
    let c1 = Cpu { pc: wrap16(c.pc + 2), ..c };
    if op == 0xC3 || condition_holds(c.f, op) {
        (Cpu { pc: c.imm16(bus), ..c1 }, 16)
    } else {
        (c1, 12)
    }
}

/// CALL nn (0xCD) and CALL cc, nn (0xC4 NZ, 0xCC Z, 0xD4 NC, 0xDC C): push
/// the address past the operand and jump.
pub open spec fn call_spec<B: Bus>(c: Cpu, bus: B, op: u8) -> (Cpu, B, u32) {
    let c1 = Cpu { pc: wrap16(c.pc + 2), ..c };
    if op == 0xCD || condition_holds(c.f, op) {
        let (c2, b2) = c1.push_spec(bus, c1.pc);
        (Cpu { pc: c.imm16(bus), ..c2 }, b2, 24)
    } else {
        (c1, bus, 12)
    }
}

/// The 0xCB prefix: the second byte selects the operand (bits 0..2), the bit
/// or the rotation (bits 3..5) and the group (bits 6..7: rotate/shift, BIT,
/// RES, SET).
pub open spec fn cb_spec<B: Bus>(c: Cpu, bus: B) -> (Cpu, B, u32) {
    let cb = c.imm8(bus);
    let c1 = Cpu { pc: wrap16(c.pc + 1), ..c };
    let r = cb % 8;
    let bit = (cb / 8) % 8;
    let group = cb / 64;
    let v = c1.reg(bus, r);
    let cycles: u32 = if r == 6 { 16 } else { 8 };
    if group == 0 {
        let (nv, f) = shift_rotate_result(v, c1.f, bit);
        let (c2, b2) = Cpu { f: f, ..c1 }.with_reg(bus, r, nv);
        (c2, b2, cycles)
    } else if group == 1 {
        (Cpu { f: bit_test_flags(v, c1.f, bit), ..c1 }, bus, cycles)
    } else if group == 2 {
        let (c2, b2) = c1.with_reg(bus, r, v & !(1u8 << bit));
        (c2, b2, cycles)
    } else {
        let (c2, b2) = c1.with_reg(bus, r, v | (1u8 << bit));
        (c2, b2, cycles)
    }
}

/// SP plus the signed byte `n` (ADD SP, e and LD HL, SP+e): the sum, and the
/// flags with H and C from the unsigned addition of the low nibble and byte.
pub open spec fn sp_offset_result(sp: u16, n: u8) -> (u16, u8) {
    (wrap16(sp + signed8(n)), flag_byte(false, false, sp % 16 + n % 16 > 15, sp % 256 + n > 255))
}

/// Opcodes 0xC0 to 0xFF, with PC already past the opcode: returns, pops,
/// pushes, absolute jumps, calls, restarts, the 0xCB prefix, the high-page
/// loads, the SP offsets, DI and EI. Opcodes of the range that the model
/// leaves out take 4 cycles and change nothing.
pub open spec fn block3_spec<B: Bus>(c: Cpu, bus: B, op: u8) -> (Cpu, B, u32) {
    let n = c.imm8(bus);
    let pc1 = wrap16(c.pc + 1);
    if op == 0xC0 || op == 0xC8 || op == 0xD0 || op == 0xD8 {
        if condition_holds(c.f, op) {
            (ret_spec(c, bus), bus, 20)
        } else {
            (c, bus, 8)
        }
    } else if op == 0xC1 || op == 0xD1 || op == 0xE1 || op == 0xF1 {
        (pop_spec(c, bus, op), bus, 12)
    } else if op == 0xC2 || op == 0xC3 || op == 0xCA || op == 0xD2 || op == 0xDA {
        let (c1, cycles) = jp_spec(c, bus, op);
        (c1, bus, cycles)
    } else if op == 0xC4 || op == 0xCC || op == 0xD4 || op == 0xDC || op == 0xCD {
        call_spec(c, bus, op)
    } else if op == 0xC5 || op == 0xD5 || op == 0xE5 || op == 0xF5 {
        let (c1, b1) = c.push_spec(bus, push_value(c, op));
        (c1, b1, 16)
    } else if op == 0xCB {
        cb_spec(c, bus)
    } else if op % 8 == 7 {
        let (c1, b1) = c.push_spec(bus, c.pc);
        (Cpu { pc: (op & 0x38) as u16, ..c1 }, b1, 16)
    } else if op == 0xC9 {
        (ret_spec(c, bus), bus, 16)
    } else if op == 0xD9 {
        (Cpu { ime: true, ..ret_spec(c, bus) }, bus, 16)
    } else if op == 0xE0 {
        (Cpu { pc: pc1, ..c }, bus.after_write((0xFF00 + n) as u16, c.a), 12)
    } else if op == 0xE8 {
        let (sp, f) = sp_offset_result(c.sp, n);
        (Cpu { pc: pc1, sp: sp, f: f, ..c }, bus, 16)
    } else if op == 0xEA {
        (Cpu { pc: wrap16(c.pc + 2), ..c }, bus.after_write(c.imm16(bus), c.a), 16)
    } else if op == 0xE2 {
        (c, bus.after_write((0xFF00 + c.c) as u16, c.a), 8)
    } else if op == 0xE9 {
        (Cpu { pc: c.hl(), ..c }, bus, 4)
    } else if op == 0xF0 {
        (Cpu { pc: pc1, a: bus.peek((0xFF00 + n) as u16), ..c }, bus, 12)
    } else if op == 0xF2 {
        (Cpu { a: bus.peek((0xFF00 + c.c) as u16), ..c }, bus, 8)
    } else if op == 0xF3 {
        (Cpu { ime: false, ..c }, bus, 4)
    } else if op == 0xFB {
        (Cpu { ime: true, ..c }, bus, 4)
    } else if op == 0xF8 {
        let (hl, f) = sp_offset_result(c.sp, n);
        (Cpu { pc: pc1, f: f, ..c }.with_hl(hl), bus, 12)
    } else if op == 0xFA {
        (Cpu { pc: wrap16(c.pc + 2), a: bus.peek(c.imm16(bus)), ..c }, bus, 16)
    } else {
        (c, bus, 4)
    }
}

/// The addresses that the instruction `op` reads are readable, with PC
/// already past the opcode: its operand bytes, (HL), the stack bytes it pops,
/// the high-page address or the absolute address it loads from.
pub open spec fn execute_reads_ok<B: Bus>(c: Cpu, bus: B, op: u8) -> bool {
    let pc1 = wrap16(c.pc + 1);
    let operand = bus.readable(c.pc);
    let word = bus.readable(c.pc) && bus.readable(pc1);
    let stack = bus.readable(c.sp) && bus.readable(wrap16(c.sp + 1));
    let at_hl = bus.readable(c.hl());
    if op < 0x40 {
        if op == 0x01 || op == 0x11 || op == 0x21 || op == 0x31 {
            word
        } else if op % 16 == 3 || op % 16 == 0x0B {
            true
        } else if op % 8 == 4 || op % 8 == 5 {
            op / 8 == 6 ==> at_hl
        } else if op == 0x06 || op == 0x0E || op == 0x16 || op == 0x1E || op == 0x26 || op == 0x2E
            || op == 0x10 || op == 0x18 || op == 0x20 || op == 0x28 || op == 0x30 || op == 0x38
            || op == 0x3E {
            operand
        } else if op == 0x2A || op == 0x3A {
            at_hl
        } else {
            true
        }
    } else if op < 0xC0 {
        (op != 0x76 && op % 8 == 6) ==> at_hl
    } else if op == 0xC0 || op == 0xC8 || op == 0xD0 || op == 0xD8 {
        condition_holds(c.f, op) ==> stack
    } else if op == 0xC1 || op == 0xD1 || op == 0xE1 || op == 0xF1 || op == 0xC9 || op == 0xD9 {
        stack
    } else if op == 0xC2 || op == 0xC3 || op == 0xCA || op == 0xD2 || op == 0xDA || op == 0xC4
        || op == 0xCC || op == 0xD4 || op == 0xDC || op == 0xCD || op == 0xEA {
        word
    } else if op == 0xCB {
        operand && (bus.peek(c.pc) % 8 == 6 ==> at_hl)
    } else if op == 0xE0 || op == 0xE8 || op == 0xF8 {
        operand
    } else if op == 0xF0 {
        operand && bus.readable((0xFF00 + bus.peek(c.pc)) as u16)
    } else if op == 0xF2 {
        bus.readable((0xFF00 + c.c) as u16)
    } else if op == 0xFA {
        word && bus.readable(c.imm16(bus))
    } else {
        true
    }
}

/// The addresses that one step reads are readable: the interrupt registers
/// 0xFF0F and 0xFFFF while halted or with IME set, and, when an instruction
/// is executed, its opcode and the addresses it reads.
pub open spec fn step_reads_ok<B: Bus>(c: Cpu, bus: B) -> bool {
    let pending = pending_interrupts(bus);
    c.stopped || {
        &&& (c.halted || c.ime) ==> bus.readable(0xFF0F) && bus.readable(0xFFFF)
        &&& (c.halted && pending == 0) || (c.ime && pending != 0) || (bus.readable(c.pc)
            && execute_reads_ok(Cpu { pc: wrap16(c.pc + 1), halted: false, ..c }, bus, bus.peek(c.pc)))
    }
}

/// One instruction with PC already past the opcode.
pub open spec fn execute_spec<B: Bus>(c: Cpu, bus: B, op: u8) -> (Cpu, B, u32) {
    if op < 0x40 {
        block0_spec(c, bus, op)
    } else if op < 0x80 {
        load_block_spec(c, bus, op)
    } else if op < 0xC0 {
        let (c1, cycles) = alu_block_spec(c, bus, op);
        (c1, bus, cycles)
    } else {
        block3_spec(c, bus, op)
    }
}

/// One step of the processor: nothing while stopped; while halted, nothing
/// until an enabled interrupt is requested, which ends the halt; with IME set
/// and an interrupt pending, the interrupt is entered (20 cycles); otherwise
/// the opcode at PC is fetched and executed.
pub open spec fn step_spec<B: Bus>(c: Cpu, bus: B) -> (Cpu, B, u32) {
    let pending = pending_interrupts(bus);
    if c.stopped {
        (c, bus, 4)
    } else if c.halted && pending == 0 {
        (c, bus, 4)
    } else {
        let awake = Cpu { halted: false, ..c };
        if awake.ime && pending != 0 {
            let (c1, b1) = awake.interrupt_spec(bus, pending);
            (c1, b1, 20)
        } else {
            execute_spec(Cpu { pc: wrap16(c.pc + 1), ..awake }, bus, bus.peek(c.pc))
        }
    }
}

} // verus!
