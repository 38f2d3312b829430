//! The full processor model: the register file, the flags, the interrupt
//! master enable, and the instruction set that `step` executes.

use vstd::prelude::*;
use crate::bits::{
    wrap16, signed8, lemma_wrap8, lemma_wrap16, lemma_byte_fields, lemma_flag_bits, lemma_word_bytes,
    lemma_rotate_left, lemma_rotate_right, lemma_shift_right_arith, lemma_swap_nibbles,
    lemma_shift_left, lemma_sign_extend,
};
use crate::bus::Bus;
use crate::cpu_v2_spec::{
    flag_byte, zero_flag, carry_flag, carry_in, alu_result,
    shift_rotate_result, bit_test_flags, inc_result, dec_result, daa_result, block0_spec,
    load_pair_spec, step_pair_spec, inc_dec_spec, rotate_a_spec, add_hl_spec, jr_spec,
    load_hl_step_spec, load_block_spec, alu_block_spec, condition_holds, pop_spec,
    cb_spec, sp_offset_result, block3_spec, execute_spec,
    step_spec, execute_reads_ok, step_reads_ok,
};

verus! {

/// The processor: eight 8-bit registers (F holds the flags Z, N, H, C in bits
/// 7..4), the stack pointer, the program counter, and the STOP, HALT and
/// interrupt-master-enable states.
pub struct Cpu {
    pub a: u8,
    pub f: u8,
    pub b: u8,
    pub c: u8,
    pub d: u8,
    pub e: u8,
    pub h: u8,
    pub l: u8,
    pub sp: u16,
    pub pc: u16,
    pub stopped: bool,
    pub halted: bool,
    pub ime: bool,
}

/// Builds the flag register from its four flags.
fn pack_flags(z: bool, n: bool, h: bool, c: bool) -> (f: u8)
    ensures
        f == flag_byte(z, n, h, c),
{
    let z_bit: u8 = if z { 0x80 } else { 0 };
    let n_bit: u8 = if n { 0x40 } else { 0 };
    let h_bit: u8 = if h { 0x20 } else { 0 };
    let c_bit: u8 = if c { 0x10 } else { 0 };
    proof {
        lemma_flag_bits(z_bit, n_bit, h_bit, c_bit);
    }
    z_bit | n_bit | h_bit | c_bit
}

/// The sign extension of a byte to a word.
fn sign_extend(b: u8) -> (w: u16)
    ensures
        w == wrap16(signed8(b) + 65536),
        w % 16 == b % 16,
        w % 256 == b,
{
    proof {
        lemma_sign_extend(b);
    }
    b as i8 as i16 as u16
}

/// ADD A, value.
fn alu_add(a: u8, f: u8, value: u8) -> (r: (u8, u8))
    ensures
        r == alu_result(a, f, value, 0),
{
    proof {
        lemma_byte_fields(value);
        lemma_byte_fields(a);
    }
    let sum = (a as u16) + (value as u16);
    proof {
        lemma_word_bytes(sum, 0, 0);
    }
    let result = sum as u8;
    let h = (a & 0x0F) + (value & 0x0F) > 0x0F;
    (result, pack_flags(result == 0, false, h, sum > 0xFF))
}

/// ADC A, value: addition with the carry flag.
fn alu_adc(a: u8, f: u8, value: u8) -> (r: (u8, u8))
    ensures
        r == alu_result(a, f, value, 1),
{
    proof {
        lemma_byte_fields(value);
        lemma_byte_fields(a);
        lemma_byte_fields(f);
    }
    let carry_bit = (f >> 4) & 1;
    let sum = (a as u16) + (value as u16) + (carry_bit as u16);
    proof {
        lemma_word_bytes(sum, 0, 0);
    }
    let result = sum as u8;
    let h = (a & 0x0F) + (value & 0x0F) + carry_bit > 0x0F;
    (result, pack_flags(result == 0, false, h, sum > 0xFF))
}

/// SUB A, value; CP computes the same flags.
fn alu_sub(a: u8, f: u8, value: u8) -> (r: (u8, u8))
    ensures
        r == alu_result(a, f, value, 2),
        r.1 == alu_result(a, f, value, 7).1,
{
    proof {
        lemma_byte_fields(value);
        lemma_byte_fields(a);
    }
    proof {
        lemma_wrap8(a - value);
    }
    let result = a.wrapping_sub(value);
    let h = (value & 0x0F) > (a & 0x0F);
    (result, pack_flags(result == 0, true, h, value > a))
}

/// SBC A, value: subtraction with the carry flag as borrow.
fn alu_sbc(a: u8, f: u8, value: u8) -> (r: (u8, u8))
    ensures
        r == alu_result(a, f, value, 3),
{
    proof {
        lemma_byte_fields(value);
        lemma_byte_fields(a);
        lemma_byte_fields(f);
    }
    let carry_bit = (f >> 4) & 1;
    let difference = (a as u16).wrapping_sub(value as u16).wrapping_sub(carry_bit as u16);
    proof {
        lemma_word_bytes(difference, 0, 0);
    }
    proof {
        lemma_wrap8(a - value - carry_bit);
        lemma_wrap16(a - value - carry_bit);
    }
    let result = difference as u8;
    let h = (a & 0x0F) < (value & 0x0F) + carry_bit;
    let c = (value as u16) + (carry_bit as u16) > (a as u16);
    (result, pack_flags(result == 0, true, h, c))
}

impl Cpu {
    /// The state after power-on: registers cleared, SP at 0xFFFE, PC at 0x0100.
    pub fn new() -> (cpu: Self)
        ensures
            cpu.a == 0 && cpu.f == 0 && cpu.b == 0 && cpu.c == 0,
            cpu.d == 0 && cpu.e == 0 && cpu.h == 0 && cpu.l == 0,
            cpu.sp == 0xFFFE,
            cpu.pc == 0x0100,
            !cpu.stopped && !cpu.halted && !cpu.ime,
    {
        Cpu {
            a: 0,
            f: 0,
            b: 0,
            c: 0,
            d: 0,
            e: 0,
            h: 0,
            l: 0,
            sp: 0xFFFE,
            pc: 0x0100,
            stopped: false,
            halted: false,
            ime: false,
        }
    }

    /// Z as read from the flag register.
    fn zero(&self) -> (z: bool)
        ensures
            z == zero_flag(self.f),
    {
        proof {
            lemma_byte_fields(self.f);
        }
        (self.f >> 7) & 1 != 0
    }

    /// C as a number, 0 or 1.
    fn carry_bit(&self) -> (c: u8)
        ensures
            c == carry_in(self.f),
    {
        proof {
            lemma_byte_fields(self.f);
        }
        (self.f >> 4) & 1
    }

    /// C as read from the flag register.
    fn carry(&self) -> (c: bool)
        ensures
            c == carry_flag(self.f),
    {
        proof {
            lemma_byte_fields(self.f);
        }
        (self.f & 0x10) != 0
    }

    /// The pair BC: B high, C low.
    pub fn get_bc(&self) -> (v: u16)
        ensures
            v == self.bc(),
    {
        proof {
            lemma_word_bytes(0, self.b, self.c);
        }
        ((self.b as u16) << 8) | (self.c as u16)
    }

    /// The pair DE: D high, E low.
    pub fn get_de(&self) -> (v: u16)
        ensures
            v == self.de(),
    {
        proof {
            lemma_word_bytes(0, self.d, self.e);
        }
        ((self.d as u16) << 8) | (self.e as u16)
    }

    /// The pair HL: H high, L low.
    pub fn get_hl(&self) -> (v: u16)
        ensures
            v == self.hl(),
    {
        proof {
            lemma_word_bytes(0, self.h, self.l);
        }
        ((self.h as u16) << 8) | (self.l as u16)
    }

    /// Stores a word into BC.
    pub fn set_bc(&mut self, value: u16)
        ensures
            *final(self) == old(self).with_bc(value),
    {
        proof {
            lemma_word_bytes(value, 0, 0);
        }
        self.b = (value >> 8) as u8;
        self.c = value as u8;
    }

    /// Stores a word into DE.
    pub fn set_de(&mut self, value: u16)
        ensures
            *final(self) == old(self).with_de(value),
    {
        proof {
            lemma_word_bytes(value, 0, 0);
        }
        self.d = (value >> 8) as u8;
        self.e = value as u8;
    }

    /// Stores a word into HL.
    pub fn set_hl(&mut self, value: u16)
        ensures
            *final(self) == old(self).with_hl(value),
    {
        proof {
            lemma_word_bytes(value, 0, 0);
        }
        self.h = (value >> 8) as u8;
        self.l = value as u8;
    }

    /// BIT: sets the flags from bit `bit` of `value`.
    pub fn cb_bit_test(&mut self, value: u8, bit: u8)
        requires
            bit < 8,
        ensures
            *final(self) == (Cpu { f: bit_test_flags(value, old(self).f, bit), ..*old(self) }),
    {
        let is_set = (value & (1 << bit)) != 0;
        let c = self.carry();
        self.f = pack_flags(!is_set, false, true, c);
    }

    /// The rotate/shift group of the 0xCB prefix, selected by `bit`.
    pub fn cb_shift_rotate(&mut self, value: u8, bit: u8) -> (result: u8)
        requires
            bit < 8,
        ensures
            (result, final(self).f) == shift_rotate_result(value, old(self).f, bit),
            *final(self) == (Cpu { f: final(self).f, ..*old(self) }),
    {
        match bit {
            0 => self.cb_rlc(value),
            1 => self.cb_rrc(value),
            2 => self.cb_rl(value),
            3 => self.cb_rr(value),
            4 => self.cb_sla(value),
            5 => self.cb_sra(value),
            6 => self.cb_swap(value),
            _ => self.cb_srl(value),
        }
    }

    /// RLC: rotate left, bit 7 into bit 0 and C.
    pub fn cb_rlc(&mut self, value: u8) -> (result: u8)
        ensures
            (result, final(self).f) == shift_rotate_result(value, old(self).f, 0),
            *final(self) == (Cpu { f: final(self).f, ..*old(self) }),
    {
        proof {
            lemma_byte_fields(value);
            lemma_rotate_left(value, value / 128);
        }
        let bit7 = (value >> 7) & 1;
        let result = (value << 1) | bit7;
        self.set_flags(result, 0, 0, bit7);
        result
    }

    /// RRC: rotate right, bit 0 into bit 7 and C.
    pub fn cb_rrc(&mut self, value: u8) -> (result: u8)
        ensures
            (result, final(self).f) == shift_rotate_result(value, old(self).f, 1),
            *final(self) == (Cpu { f: final(self).f, ..*old(self) }),
    {
        proof {
            lemma_byte_fields(value);
            lemma_rotate_right(value, value % 2);
        }
        let bit0 = value & 1;
        let result = (value >> 1) | (bit0 << 7);
        self.set_flags(result, 0, 0, bit0);
        result
    }

    /// RL: rotate left through C.
    pub fn cb_rl(&mut self, value: u8) -> (result: u8)
        ensures
            (result, final(self).f) == shift_rotate_result(value, old(self).f, 2),
            *final(self) == (Cpu { f: final(self).f, ..*old(self) }),
    {
        let old_carry = self.carry_bit();
        proof {
            lemma_byte_fields(value);
            lemma_rotate_left(value, old_carry);
        }
        let bit7 = (value >> 7) & 1;
        let result = (value << 1) | old_carry;
        self.set_flags(result, 0, 0, bit7);
        result
    }

    /// RR: rotate right through C.
    pub fn cb_rr(&mut self, value: u8) -> (result: u8)
        ensures
            (result, final(self).f) == shift_rotate_result(value, old(self).f, 3),
            *final(self) == (Cpu { f: final(self).f, ..*old(self) }),
    {
        let old_carry = self.carry_bit();
        proof {
            lemma_byte_fields(value);
            lemma_rotate_right(value, old_carry);
        }
        let bit0 = value & 1;
        let result = (value >> 1) | (old_carry << 7);
        self.set_flags(result, 0, 0, bit0);
        result
    }

    /// SLA: shift left, bit 7 into C.
    pub fn cb_sla(&mut self, value: u8) -> (result: u8)
        ensures
            (result, final(self).f) == shift_rotate_result(value, old(self).f, 4),
            *final(self) == (Cpu { f: final(self).f, ..*old(self) }),
    {
        proof {
            lemma_byte_fields(value);
            lemma_shift_left(value);
        }
        let bit7 = value >> 7;
        let result = value << 1;
        self.set_flags(result, 0, 0, bit7);
        result
    }

    /// SRA: shift right keeping bit 7, bit 0 into C.
    pub fn cb_sra(&mut self, value: u8) -> (result: u8)
        ensures
            (result, final(self).f) == shift_rotate_result(value, old(self).f, 5),
            *final(self) == (Cpu { f: final(self).f, ..*old(self) }),
    {
        proof {
            lemma_byte_fields(value);
            lemma_shift_right_arith(value);
        }
        let bit0 = value & 1;
        let result = (value >> 1) | (value & 0x80);
        self.set_flags(result, 0, 0, bit0);
        result
    }

    /// SWAP: exchange the nibbles; only Z can be set.
    pub fn cb_swap(&mut self, value: u8) -> (result: u8)
        ensures
            (result, final(self).f) == shift_rotate_result(value, old(self).f, 6),
            *final(self) == (Cpu { f: final(self).f, ..*old(self) }),
    {
        proof {
            lemma_swap_nibbles(value);
        }
        let result = (value >> 4) | (value << 4);
        self.f = pack_flags(result == 0, false, false, false);
        result
    }

    /// SRL: shift right, bit 0 into C.
    pub fn cb_srl(&mut self, value: u8) -> (result: u8)
        ensures
            (result, final(self).f) == shift_rotate_result(value, old(self).f, 7),
            *final(self) == (Cpu { f: final(self).f, ..*old(self) }),
    {
        proof {
            lemma_byte_fields(value);
        }
        let bit0 = value & 1;
        let result = value >> 1;
        self.set_flags(result, 0, 0, bit0);
        result
    }

    /// Sets Z from `res == 0` and N, H, C from whether `n`, `h`, `c` are nonzero.
    pub fn set_flags(&mut self, res: u8, n: u8, h: u8, c: u8)
        ensures
            *final(self) == (Cpu { f: flag_byte(res == 0, n != 0, h != 0, c != 0), ..*old(self) }),
    {
        self.f = pack_flags(res == 0, n != 0, h != 0, c != 0);
    }

    /// Reads the 8-bit operand `id`: B, C, D, E, H, L, (HL), A.
    pub fn get_register_val<B: Bus>(&self, bus: &B, id: u8) -> (value: u8)
        requires
            id < 8,
            id == 6 ==> bus.readable(self.hl()),
        ensures
            value == self.reg(*bus, id),
    {
        match id {
            0 => self.b,
            1 => self.c,
            2 => self.d,
            3 => self.e,
            4 => self.h,
            5 => self.l,
            6 => bus.read(self.get_hl()),
            _ => self.a,
        }
    }

    /// Stores into the 8-bit operand `id`: B, C, D, E, H, L, (HL), A.
    pub fn set_register_val<B: Bus>(&mut self, bus: &mut B, id: u8, value: u8)
        requires
            id < 8,
        ensures
            (*final(self), *final(bus)) == old(self).with_reg(*old(bus), id, value),
    {
        match id {
            0 => self.b = value,
            1 => self.c = value,
            2 => self.d = value,
            3 => self.e = value,
            4 => self.h = value,
            5 => self.l = value,
            6 => {
                let hl = self.get_hl();
                bus.write(hl, value);
            },
            _ => self.a = value,
        }
    }

    /// The 8-bit arithmetic and logic group: add, adc, sub, sbc, and, xor, or,
    /// cp for `arithmetic` 0 to 7, on A and `value`.
    pub fn alu(&mut self, value: u8, arithmetic: u8)
        requires
            arithmetic < 8,
        ensures
            (final(self).a, final(self).f) == alu_result(old(self).a, old(self).f, value, arithmetic),
            *final(self) == (Cpu { a: final(self).a, f: final(self).f, ..*old(self) }),
    {
        let (a, f) = match arithmetic {
            0 => alu_add(self.a, self.f, value),
            1 => alu_adc(self.a, self.f, value),
            2 => alu_sub(self.a, self.f, value),
            3 => alu_sbc(self.a, self.f, value),
            4 => {
                let result = self.a & value;
                (result, pack_flags(result == 0, false, true, false))
            },
            5 => {
                let result = self.a ^ value;
                (result, pack_flags(result == 0, false, false, false))
            },
            6 => {
                let result = self.a | value;
                (result, pack_flags(result == 0, false, false, false))
            },
            _ => {
                let (_, f) = alu_sub(self.a, self.f, value);
                (self.a, f)
            },
        };
        self.a = a;
        self.f = f;
    }

    /// INC r: the incremented byte; Z, N, H set from it, C kept.
    pub fn inc_8(&mut self, value: u8) -> (result: u8)
        ensures
            (result, final(self).f) == inc_result(value, old(self).f),
            *final(self) == (Cpu { f: final(self).f, ..*old(self) }),
    {
        proof {
            lemma_byte_fields(value);
        }
        let result = value.wrapping_add(1);
        let h = (value & 0x0F) + 1 > 0x0F;
        let c = self.carry();
        self.f = pack_flags(result == 0, false, h, c);
        result
    }

    /// DEC r: the decremented byte; Z, N, H set from it, C kept.
    pub fn dec_8(&mut self, value: u8) -> (result: u8)
        ensures
            (result, final(self).f) == dec_result(value, old(self).f),
            *final(self) == (Cpu { f: final(self).f, ..*old(self) }),
    {
        proof {
            lemma_byte_fields(value);
        }
        let result = value.wrapping_sub(1);
        let h = (value & 0x0F) == 0;
        let c = self.carry();
        self.f = pack_flags(result == 0, true, h, c);
        result
    }

    /// Reads the little-endian word at PC and advances PC past it.
    pub fn read_u16<B: Bus>(&mut self, bus: &B) -> (value: u16)
        requires
            bus.readable(old(self).pc),
            bus.readable(wrap16(old(self).pc + 1)),
        ensures
            value == old(self).imm16(*bus),
            *final(self) == (Cpu { pc: wrap16(old(self).pc + 2), ..*old(self) }),
    {
        let low = bus.read(self.pc) as u16;
        self.pc = self.pc.wrapping_add(1);
        let high = bus.read(self.pc) as u16;
        self.pc = self.pc.wrapping_add(1);
        proof {
            lemma_word_bytes(0, high as u8, low as u8);
        }
        (high << 8) | low
    }

    /// DAA: decimal adjustment of A.
    fn daa(&mut self)
        ensures
            (final(self).a, final(self).f) == daa_result(old(self).a, old(self).f),
            *final(self) == (Cpu { a: final(self).a, f: final(self).f, ..*old(self) }),
    {
        proof {
            lemma_byte_fields(self.f);
        }
        let mut a = self.a as u16;
        let n_flag = (self.f & 0x40) != 0;
        let h_flag = (self.f & 0x20) != 0;
        let c_flag = (self.f & 0x10) != 0;
        let mut carry_out = c_flag;
        if !n_flag {
            if h_flag || a > 0x9F {
                a += 0x06;
            }
            if c_flag || (a & 0x9F) > 0x99 {
                a += 0x60;
                carry_out = true;
            }
        } else {
            if h_flag {
                a = a.wrapping_sub(0x06);
            }
            if c_flag {
                a = a.wrapping_sub(0x60);
            }
        }
        proof {
            lemma_word_bytes(a, 0, 0);
            let ghost x: int = self.a - (if h_flag { 6int } else { 0 }) - (if c_flag { 0x60int } else { 0 });
            if n_flag {
                lemma_wrap16(x);
                lemma_wrap8(x);
            } else {
                lemma_wrap8(a as int);
            }
        }
        self.a = a as u8;
        self.f = pack_flags(self.a == 0, n_flag, false, carry_out);
    }

    /// LD rr, d16.
    fn load_pair_immediate<B: Bus>(&mut self, bus: &B, opcode: u8)
        requires
            opcode == 0x01 || opcode == 0x11 || opcode == 0x21 || opcode == 0x31,
            bus.readable(old(self).pc),
            bus.readable(wrap16(old(self).pc + 1)),
        ensures
            *final(self) == load_pair_spec(*old(self), *bus, opcode),
    {
        let value = self.read_u16(bus);
        match opcode {
            0x01 => self.set_bc(value),
            0x11 => self.set_de(value),
            0x21 => self.set_hl(value),
            _ => self.sp = value,
        }
    }

    /// INC rr and DEC rr.
    fn step_pair(&mut self, opcode: u8)
        requires
            opcode < 0x40,
            opcode % 16 == 3 || opcode % 16 == 0x0B,
        ensures
            *final(self) == step_pair_spec(*old(self), opcode),
    {
        proof {
            lemma_wrap16(self.bc() + 1);
            lemma_wrap16(self.bc() - 1);
            lemma_wrap16(self.de() + 1);
            lemma_wrap16(self.de() - 1);
            lemma_wrap16(self.hl() + 1);
            lemma_wrap16(self.hl() - 1);
            lemma_wrap16(self.sp + 1);
            lemma_wrap16(self.sp - 1);
        }
        match opcode {
            0x03 => {
                let v = self.get_bc().wrapping_add(1);
                self.set_bc(v)
            },
            0x13 => {
                let v = self.get_de().wrapping_add(1);
                self.set_de(v)
            },
            0x23 => {
                let v = self.get_hl().wrapping_add(1);
                self.set_hl(v)
            },
            0x33 => self.sp = self.sp.wrapping_add(1),
            0x0B => {
                let v = self.get_bc().wrapping_sub(1);
                self.set_bc(v)
            },
            0x1B => {
                let v = self.get_de().wrapping_sub(1);
                self.set_de(v)
            },
            0x2B => {
                let v = self.get_hl().wrapping_sub(1);
                self.set_hl(v)
            },
            _ => self.sp = self.sp.wrapping_sub(1),
        }
    }

    /// INC r and DEC r.
    fn inc_dec_register<B: Bus>(&mut self, bus: &mut B, opcode: u8) -> (cycles: u32)
        requires
            opcode < 0x40,
            opcode % 8 == 4 || opcode % 8 == 5,
            opcode / 8 == 6 ==> old(bus).readable(old(self).hl()),
        ensures
            (*final(self), *final(bus), cycles) == inc_dec_spec(*old(self), *old(bus), opcode),
    {
        proof {
            lemma_byte_fields(opcode);
        }
        let reg_id = opcode >> 3;
        let value = self.get_register_val(bus, reg_id);
        let new_value = if opcode & 7 == 4 {
            self.inc_8(value)
        } else {
            self.dec_8(value)
        };
        self.set_register_val(bus, reg_id, new_value);
        if reg_id == 6 {
            12
        } else {
            4
        }
    }

    /// RLCA, RRCA, RLA, RRA.
    fn rotate_a(&mut self, opcode: u8)
        requires
            opcode == 0x07 || opcode == 0x0F || opcode == 0x17 || opcode == 0x1F,
        ensures
            *final(self) == rotate_a_spec(*old(self), opcode),
    {
        let old_value = self.a;
        let old_carry = self.carry_bit();
        proof {
            lemma_byte_fields(old_value);
        }
        match opcode {
            0x07 => {
                let bit7 = (old_value >> 7) & 1;
                proof {
                    lemma_rotate_left(old_value, bit7);
                }
                self.a = (old_value << 1) | bit7;
                self.f = if bit7 != 0 { 0x10 } else { 0 };
            },
            0x0F => {
                let bit0 = old_value & 1;
                proof {
                    lemma_rotate_right(old_value, bit0);
                }
                self.a = (old_value >> 1) | (bit0 << 7);
                self.f = if bit0 == 0 { 0x10 } else { 0 };
            },
            0x17 => {
                let bit7 = (old_value >> 7) & 1;
                proof {
                    lemma_rotate_left(old_value, old_carry);
                }
                self.a = (old_value << 1) | old_carry;
                self.f = if bit7 != 0 { 0x10 } else { 0 };
            },
            _ => {
                let bit0 = old_value & 1;
                proof {
                    lemma_rotate_right(old_value, old_carry);
                }
                self.a = (old_value >> 1) | (old_carry << 7);
                self.f = if bit0 != 0 { 0x10 } else { 0 };
            },
        }
    }

    /// ADD HL, rr.
    fn add_hl(&mut self, opcode: u8)
        requires
            opcode == 0x09 || opcode == 0x19 || opcode == 0x29 || opcode == 0x39,
        ensures
            *final(self) == add_hl_spec(*old(self), opcode),
    {
        let hl = self.get_hl();
        let value = match opcode {
            0x09 => self.get_bc(),
            0x19 => self.get_de(),
            0x29 => hl,
            _ => self.sp,
        };
        proof {
            lemma_word_bytes(hl, 0, 0);
            lemma_word_bytes(value, 0, 0);
            lemma_wrap16(hl + value);
        }
        let result = hl.wrapping_add(value);
        let h = (hl & 0x0FFF) + (value & 0x0FFF) > 0x0FFF;
        let c = (hl as u32) + (value as u32) > 0xFFFF;
        let z = self.zero();
        self.f = pack_flags(z, false, h, c);
        self.set_hl(result);
    }

    /// JR e and JR cc, e.
    fn jump_relative<B: Bus>(&mut self, bus: &B, opcode: u8) -> (cycles: u32)
        requires
            bus.readable(old(self).pc),
        ensures
            (*final(self), cycles) == jr_spec(*old(self), *bus, opcode),
    {
        let taken = match opcode {
            0x20 => !self.zero(),
            0x28 => self.zero(),
            0x30 => !self.carry(),
            0x38 => self.carry(),
            _ => true,
        };
        let offset = sign_extend(bus.read(self.pc));
        self.pc = self.pc.wrapping_add(1);
        if taken {
            proof {
                lemma_wrap16(self.pc + offset);
                lemma_wrap16(self.pc + signed8(old(self).imm8(*bus)));
                lemma_wrap16(signed8(old(self).imm8(*bus)) + 65536);
            }
            self.pc = self.pc.wrapping_add(offset);
            12
        } else {
            8
        }
    }

    /// LD (HL+), A; LD (HL-), A; LD A, (HL+); LD A, (HL-).
    fn load_hl_step<B: Bus>(&mut self, bus: &mut B, opcode: u8)
        requires
            opcode == 0x22 || opcode == 0x32 || opcode == 0x2A || opcode == 0x3A,
            opcode == 0x2A || opcode == 0x3A ==> old(bus).readable(old(self).hl()),
        ensures
            (*final(self), *final(bus)) == load_hl_step_spec(*old(self), *old(bus), opcode),
    {
        let hl = self.get_hl();
        proof {
            lemma_wrap16(hl + 1);
            lemma_wrap16(hl - 1);
        }
        if opcode == 0x22 || opcode == 0x32 {
            bus.write(hl, self.a);
        } else {
            self.a = bus.read(hl);
        }
        let next = if opcode == 0x22 || opcode == 0x2A {
            hl.wrapping_add(1)
        } else {
            hl.wrapping_sub(1)
        };
        self.set_hl(next);
    }

    /// Opcodes 0x00 to 0x3F; PC is already past the opcode.
    #[verifier::spinoff_prover]
    #[verifier::rlimit(40)]
    fn execute_block0<B: Bus>(&mut self, bus: &mut B, opcode: u8) -> (cycles: u32)
        requires
            opcode < 0x40,
            execute_reads_ok(*old(self), *old(bus), opcode),
        ensures
            (*final(self), *final(bus), cycles) == block0_spec(*old(self), *old(bus), opcode),
    {
        match opcode {
            0x01 | 0x11 | 0x21 | 0x31 => {
                self.load_pair_immediate(bus, opcode);
                12
            },
            0x03 | 0x13 | 0x23 | 0x33 | 0x0B | 0x1B | 0x2B | 0x3B => {
                self.step_pair(opcode);
                8
            },
            0x04 | 0x0C | 0x14 | 0x1C | 0x24 | 0x2C | 0x34 | 0x3C | 0x05 | 0x0D | 0x15 | 0x1D
            | 0x25 | 0x2D | 0x35 | 0x3D => self.inc_dec_register(bus, opcode),
            0x06 | 0x0E | 0x16 | 0x1E | 0x26 | 0x2E => {
                let value = bus.read(self.pc);
                match opcode {
                    0x06 => self.b = value,
                    0x0E => self.c = value,
                    0x16 => self.d = value,
                    0x1E => self.e = value,
                    0x26 => self.h = value,
                    _ => self.l = value,
                }
                self.pc = self.pc.wrapping_add(1);
                8
            },
            0x07 | 0x0F | 0x17 | 0x1F => {
                self.rotate_a(opcode);
                4
            },
            0x09 | 0x19 | 0x29 | 0x39 => {
                self.add_hl(opcode);
                8
            },
            0x10 => {
                let _unused_byte = bus.read(self.pc);
                self.pc = self.pc.wrapping_add(1);
                self.stopped = true;
                4
            },
            0x18 | 0x20 | 0x28 | 0x30 | 0x38 => self.jump_relative(bus, opcode),
            0x22 | 0x32 | 0x2A | 0x3A => {
                self.load_hl_step(bus, opcode);
                8
            },
            0x27 => {
                self.daa();
                4
            },
            0x2F => {
                self.a = !self.a;
                self.f = self.f | 0x60;
                4
            },
            0x37 => {
                let z = self.zero();
                self.f = pack_flags(z, false, false, true);
                4
            },
            0x3F => {
                let z = self.zero();
                let c = self.carry();
                self.f = pack_flags(z, false, false, !c);
                4
            },
            0x3E => {
                self.a = bus.read(self.pc);
                self.pc = self.pc.wrapping_add(1);
                8
            },
            _ => 4,
        }
    }

    /// Opcodes 0x40 to 0x7F: LD r, r' and HALT.
    fn execute_load<B: Bus>(&mut self, bus: &mut B, opcode: u8) -> (cycles: u32)
        requires
            0x40 <= opcode < 0x80,
            execute_reads_ok(*old(self), *old(bus), opcode),
        ensures
            (*final(self), *final(bus), cycles) == load_block_spec(*old(self), *old(bus), opcode),
    {
        if opcode == 0x76 {
            self.halted = true;
            return 4;
        }
        proof {
            lemma_byte_fields(opcode);
        }
        let src_id = opcode & 0x07;
        let dest_id = (opcode >> 3) & 0x7;
        let value = self.get_register_val(bus, src_id);
        self.set_register_val(bus, dest_id, value);
        if src_id == 6 || dest_id == 6 {
            8
        } else {
            4
        }
    }

    /// Opcodes 0x80 to 0xBF: the ALU group on A and an 8-bit operand.
    fn execute_alu<B: Bus>(&mut self, bus: &B, opcode: u8) -> (cycles: u32)
        requires
            0x80 <= opcode < 0xC0,
            execute_reads_ok(*old(self), *bus, opcode),
        ensures
            (*final(self), cycles) == alu_block_spec(*old(self), *bus, opcode),
    {
        proof {
            lemma_byte_fields(opcode);
        }
        let src_id = opcode & 0x7;
        let op_id = (opcode >> 3) & 0x07;
        let value = self.get_register_val(bus, src_id);
        self.alu(value, op_id);
        if src_id == 6 {
            8
        } else {
            4
        }
    }

    /// The condition of a conditional jump, call or return.
    fn condition(&self, opcode: u8) -> (holds: bool)
        ensures
            holds == condition_holds(self.f, opcode),
    {
        proof {
            lemma_byte_fields(opcode);
        }
        let zero_flag = self.zero();
        let carry_flag = self.carry();
        match (opcode >> 3) & 0x03 {
            0 => !zero_flag,
            1 => zero_flag,
            2 => !carry_flag,
            _ => carry_flag,
        }
    }

    /// Pushes a word: high byte at SP-1, low byte at SP-2.
    fn push_word<B: Bus>(&mut self, bus: &mut B, value: u16)
        ensures
            (*final(self), *final(bus)) == old(self).push_spec(*old(bus), value),
    {
        proof {
            lemma_word_bytes(value, 0, 0);
            lemma_wrap16(self.sp - 1);
            lemma_wrap16(self.sp - 2);
        }
        self.sp = self.sp.wrapping_sub(1);
        bus.write(self.sp, (value >> 8) as u8);
        self.sp = self.sp.wrapping_sub(1);
        bus.write(self.sp, (value & 0xFF) as u8);
    }

    /// Pops a word from the stack.
    fn pop_word<B: Bus>(&mut self, bus: &B) -> (value: u16)
        requires
            bus.readable(old(self).sp),
            bus.readable(wrap16(old(self).sp + 1)),
        ensures
            value == old(self).stack_top(*bus),
            *final(self) == old(self).popped(),
    {
        proof {
            lemma_wrap16(self.sp + 1);
            lemma_wrap16(self.sp + 2);
        }
        let low = bus.read(self.sp) as u16;
        self.sp = self.sp.wrapping_add(1);
        let high = bus.read(self.sp) as u16;
        self.sp = self.sp.wrapping_add(1);
        proof {
            lemma_word_bytes(0, high as u8, low as u8);
        }
        (high << 8) | low
    }

    /// POP rr.
    fn pop_register<B: Bus>(&mut self, bus: &B, opcode: u8)
        requires
            opcode == 0xC1 || opcode == 0xD1 || opcode == 0xE1 || opcode == 0xF1,
            bus.readable(old(self).sp),
            bus.readable(wrap16(old(self).sp + 1)),
        ensures
            *final(self) == pop_spec(*old(self), *bus, opcode),
    {
        let value = self.pop_word(bus);
        match opcode {
            0xC1 => self.set_bc(value),
            0xD1 => self.set_de(value),
            0xE1 => self.set_hl(value),
            _ => {
                proof {
                    lemma_word_bytes(value, 0, 0);
                }
                self.a = (value >> 8) as u8;
                self.f = (value & 0xF0) as u8;
            },
        }
    }

    /// The 0xCB prefix.
    fn execute_cb<B: Bus>(&mut self, bus: &mut B) -> (cycles: u32)
        requires
            old(bus).readable(old(self).pc),
            old(bus).peek(old(self).pc) % 8 == 6 ==> old(bus).readable(old(self).hl()),
        ensures
            (*final(self), *final(bus), cycles) == cb_spec(*old(self), *old(bus)),
    {
        let cb_opcode = bus.read(self.pc);
        self.pc = self.pc.wrapping_add(1);
        proof {
            lemma_byte_fields(cb_opcode);
        }
        let cb_reg = cb_opcode & 0x07;
        let cb_bit = (cb_opcode >> 3) & 0x07;
        let cb_group = cb_opcode >> 6;
        let mut value = self.get_register_val(bus, cb_reg);
        match cb_group {
            0 => value = self.cb_shift_rotate(value, cb_bit),
            1 => self.cb_bit_test(value, cb_bit),
            2 => value = value & !(1u8 << cb_bit),
            _ => value = value | (1u8 << cb_bit),
        }
        if cb_group != 1 {
            self.set_register_val(bus, cb_reg, value);
        }
        if cb_reg == 6 {
            16
        } else {
            8
        }
    }

    /// ADD SP, e and LD HL, SP+e: the sum and the flags.
    fn sp_offset<B: Bus>(&mut self, bus: &B) -> (r: (u16, u8))
        requires
            bus.readable(old(self).pc),
        ensures
            r == sp_offset_result(old(self).sp, old(self).imm8(*bus)),
            *final(self) == (Cpu { pc: wrap16(old(self).pc + 1), ..*old(self) }),
    {
        let n = bus.read(self.pc);
        let offset = sign_extend(n);
        self.pc = self.pc.wrapping_add(1);
        let sp = self.sp;
        proof {
            lemma_word_bytes(sp, 0, 0);
            lemma_word_bytes(offset, 0, 0);
            lemma_wrap16(sp + offset);
            lemma_wrap16(sp + signed8(n));
            lemma_wrap16(signed8(n) + 65536);
        }
        let result = sp.wrapping_add(offset);
        let h = (sp & 0x0F) + (offset & 0x0F) > 0x0F;
        let c = (sp & 0xFF) + (offset & 0xFF) > 0xFF;
        (result, pack_flags(false, false, h, c))
    }

    /// Opcodes 0xC0 to 0xFF; PC is already past the opcode.
    #[verifier::spinoff_prover]
    #[verifier::rlimit(40)]
    fn execute_block3<B: Bus>(&mut self, bus: &mut B, opcode: u8) -> (cycles: u32)
        requires
            opcode >= 0xC0,
            execute_reads_ok(*old(self), *old(bus), opcode),
        ensures
            (*final(self), *final(bus), cycles) == block3_spec(*old(self), *old(bus), opcode),
    {
        proof {
            lemma_byte_fields(opcode);
        }
        match opcode {
            0xC0 | 0xC8 | 0xD0 | 0xD8 => {
                if self.condition(opcode) {
                    self.pc = self.pop_word(bus);
                    20
                } else {
                    8
                }
            },
            0xC1 | 0xD1 | 0xE1 | 0xF1 => {
                self.pop_register(bus, opcode);
                12
            },
            0xC2 | 0xC3 | 0xCA | 0xD2 | 0xDA => {
                let address = self.read_u16(bus);
                if opcode == 0xC3 || self.condition(opcode) {
                    self.pc = address;
                    16
                } else {
                    12
                }
            },
            0xC4 | 0xCC | 0xD4 | 0xDC | 0xCD => {
                let target_address = self.read_u16(bus);
                if opcode == 0xCD || self.condition(opcode) {
                    let return_address = self.pc;
                    self.push_word(bus, return_address);
                    self.pc = target_address;
                    24
                } else {
                    12
                }
            },
            0xC5 | 0xD5 | 0xE5 | 0xF5 => {
                let value = match opcode {
                    0xC5 => self.get_bc(),
                    0xD5 => self.get_de(),
                    0xE5 => self.get_hl(),
                    _ => {
                        proof {
                            lemma_word_bytes(0, self.a, self.f);
                        }
                        ((self.a as u16) << 8) | (self.f as u16)
                    },
                };
                self.push_word(bus, value);
                16
            },
            0xCB => self.execute_cb(bus),
            0xC7 | 0xCF | 0xD7 | 0xDF | 0xE7 | 0xEF | 0xF7 | 0xFF => {
                let return_address = self.pc;
                self.push_word(bus, return_address);
                self.pc = (opcode & 0x38) as u16;
                16
            },
            0xC9 => {
                self.pc = self.pop_word(bus);
                16
            },
            0xD9 => {
                self.ime = true;
                self.pc = self.pop_word(bus);
                16
            },
            0xE0 => {
                let n = bus.read(self.pc) as u16;
                self.pc = self.pc.wrapping_add(1);
                proof {
                    lemma_word_bytes(n, 0, 0);
                }
                bus.write(0xFF00 | n, self.a);
                12
            },
            0xE8 => {
                let (result, f) = self.sp_offset(bus);
                self.f = f;
                self.sp = result;
                16
            },
            0xEA => {
                let address = self.read_u16(bus);
                bus.write(address, self.a);
                16
            },
            0xE2 => {
                let port = self.c as u16;
                proof {
                    lemma_word_bytes(port, 0, 0);
                }
                bus.write(0xFF00 | port, self.a);
                8
            },
            0xE9 => {
                self.pc = self.get_hl();
                4
            },
            0xF0 => {
                let n = bus.read(self.pc) as u16;
                self.pc = self.pc.wrapping_add(1);
                proof {
                    lemma_word_bytes(n, 0, 0);
                }
                self.a = bus.read(0xFF00 | n);
                12
            },
            0xF2 => {
                let port = self.c as u16;
                proof {
                    lemma_word_bytes(port, 0, 0);
                }
                self.a = bus.read(0xFF00 | port);
                8
            },
            0xF3 => {
                self.ime = false;
                4
            },
            0xFB => {
                self.ime = true;
                4
            },
            0xF8 => {
                let (result, f) = self.sp_offset(bus);
                self.f = f;
                self.set_hl(result);
                12
            },
            0xFA => {
                let address = self.read_u16(bus);
                self.a = bus.read(address);
                16
            },
            _ => 4,
        }
    }

    /// Enters the service routine of the lowest line set in `pending`.
    pub fn execute_interrupt<B: Bus>(&mut self, bus: &mut B, pending: u8)
        ensures
            (*final(self), *final(bus)) == old(self).interrupt_spec(*old(bus), pending),
    {
        self.ime = false;
        let return_address = self.pc;
        self.push_word(bus, return_address);
        if (pending & 0x01) != 0 {
            bus.write(0xFF0F, pending & !0x01u8);
            self.pc = 0x0040;
        } else if (pending & 0x02) != 0 {
            bus.write(0xFF0F, pending & !0x02u8);
            self.pc = 0x0048;
        } else if (pending & 0x04) != 0 {
            bus.write(0xFF0F, pending & !0x04u8);
            self.pc = 0x0050;
        } else if (pending & 0x08) != 0 {
            bus.write(0xFF0F, pending & !0x08u8);
            self.pc = 0x0058;
        } else if (pending & 0x10) != 0 {
            bus.write(0xFF0F, pending & !0x10u8);
            self.pc = 0x0060;
        }
    }

    /// Executes one instruction whose opcode has been fetched; PC is already
    /// past the opcode. Returns the cycles it takes.
    pub fn execute<B: Bus>(&mut self, bus: &mut B, opcode: u8) -> (cycles: u32)
        requires
            execute_reads_ok(*old(self), *old(bus), opcode),
        ensures
            (*final(self), *final(bus), cycles) == execute_spec(*old(self), *old(bus), opcode),
    {
        if opcode < 0x40 {
            self.execute_block0(bus, opcode)
        } else if opcode < 0x80 {
            self.execute_load(bus, opcode)
        } else if opcode < 0xC0 {
            self.execute_alu(bus, opcode)
        } else {
            self.execute_block3(bus, opcode)
        }
    }

    /// One step: services a pending interrupt or fetches and executes the
    /// instruction at PC. Returns the cycles it takes.
    pub fn step<B: Bus>(&mut self, bus: &mut B) -> (cycles: u32)
        requires
            step_reads_ok(*old(self), *old(bus)),
        ensures
            (*final(self), *final(bus), cycles) == step_spec(*old(self), *old(bus)),
    {
        if self.stopped {
            return 4;
        }
        if self.halted {
            let interrupt_flag = bus.read(0xFF0F);
            let interrupt_enable = bus.read(0xFFFF);
            if (interrupt_flag & interrupt_enable & 0x1F) != 0 {
                self.halted = false;
            } else {
                return 4;
            }
        }
        if self.ime {
            let interrupt_flag = bus.read(0xFF0F);
            let interrupt_enable = bus.read(0xFFFF);
            let pending = interrupt_flag & interrupt_enable & 0x1F;
            if pending != 0 {
                self.execute_interrupt(bus, pending);
                return 20;
            }
        }
        let opcode: u8 = bus.read(self.pc);
        self.pc = self.pc.wrapping_add(1);
        proof {
            lemma_wrap16(old(self).pc + 1);
        }
        self.execute(bus, opcode)
    }
}

} // verus!
