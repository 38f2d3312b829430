//! Laws that say what the instructions of the full processor model compute,
//! in terms of their operands: arithmetic as integer arithmetic with the
//! flags as carries and borrows, bit operations bit by bit, and conditional
//! control flow by the flag each condition tests.

use vstd::prelude::*;
use crate::bits::{wrap8, wrap16, lemma_wrap8, lemma_wrap16};
use crate::bits::{lemma_byte_fields, lemma_rotate_left, lemma_rotate_right, lemma_shift_right_arith,
    lemma_swap_nibbles, lemma_shift_left};
use crate::bus::Bus;
use crate::cpu_v2::Cpu;
use crate::cpu_v2_spec::{
    alu_result, flag_byte, shift_rotate_result, cb_spec, inc_result, dec_result, daa_result,
    execute_spec, step_spec,
};
use crate::cpu_v2_laws::lemma_flag_byte_fields;
use vstd::arithmetic::div_mod::lemma_fundamental_div_mod_converse;

verus! {

/// Z: bit 7 of a flag register.
pub open spec fn z_set(f: u8) -> bool {
    f / 128 == 1
}

/// N: bit 6 of a flag register.
pub open spec fn n_set(f: u8) -> bool {
    (f / 64) % 2 == 1
}

/// H: bit 5 of a flag register.
pub open spec fn h_set(f: u8) -> bool {
    (f / 32) % 2 == 1
}

/// C: bit 4 of a flag register.
pub open spec fn c_set(f: u8) -> bool {
    (f / 16) % 2 == 1
}

/// The carry into an ADC or SBC: 1 when C is set.
pub open spec fn carry_into(f: u8) -> int {
    if c_set(f) {
        1
    } else {
        0
    }
}

/// ADD: A + v modulo 256; C tells that the sum exceeds 255, H that the low nibbles carry; N clear.
/// Z tells a zero result and the low nibble of F is clear.
pub proof fn lemma_alu_add(a: u8, f: u8, v: u8)
    ensures
        ({
            let (r, g) = alu_result(a, f, v, 0);
            &&& r as int == (a + v) % 256
            &&& c_set(g) == (a + v >= 256) && h_set(g) == (a % 16 + v % 16 >= 16)
            &&& !n_set(g) && z_set(g) == (r == 0) && g % 16 == 0
        }),
{
    lemma_wrap8(a + v);
    lemma_flag_byte_fields(wrap8(a + v) == 0, false, a % 16 + v % 16 > 15, a + v > 255);
}

/// ADC: A + v + carry modulo 256; C tells that the sum exceeds 255, H that the low nibbles with the carry carry; N clear.
/// Z tells a zero result and the low nibble of F is clear.
pub proof fn lemma_alu_adc(a: u8, f: u8, v: u8)
    ensures
        ({
            let (r, g) = alu_result(a, f, v, 1);
            let s = a + v + carry_into(f);
            &&& r as int == s % 256
            &&& c_set(g) == (s >= 256) && h_set(g) == (a % 16 + v % 16 + carry_into(f) >= 16)
            &&& !n_set(g) && z_set(g) == (r == 0) && g % 16 == 0
        }),
{
    let ci = carry_into(f);
    lemma_wrap8(a + v + ci);
    lemma_flag_byte_fields(wrap8(a + v + ci) == 0, false, a % 16 + v % 16 + ci > 15, a + v + ci > 255);
}

/// SUB: A - v modulo 256; C tells that the subtraction borrows (v exceeds A), H that the low nibbles borrow; N set.
/// Z tells a zero result and the low nibble of F is clear.
pub proof fn lemma_alu_sub(a: u8, f: u8, v: u8)
    ensures
        ({
            let (r, g) = alu_result(a, f, v, 2);
            &&& r as int == (a - v + 256) % 256
            &&& c_set(g) == (a - v < 0) && h_set(g) == (a % 16 - v % 16 < 0)
            &&& n_set(g) && z_set(g) == (r == 0) && g % 16 == 0
        }),
{
    lemma_wrap8(a - v);
    lemma_flag_byte_fields(wrap8(a - v) == 0, true, v % 16 > a % 16, v > a);
}

/// SBC: A - v - carry modulo 256; C tells that the subtraction borrows (v with the carry exceeds A), H that the low nibbles borrow; N set.
/// Z tells a zero result and the low nibble of F is clear.
pub proof fn lemma_alu_sbc(a: u8, f: u8, v: u8)
    ensures
        ({
            let (r, g) = alu_result(a, f, v, 3);
            let d = a - v - carry_into(f);
            &&& r as int == (d + 512) % 256
            &&& c_set(g) == (d < 0) && h_set(g) == (a % 16 - v % 16 - carry_into(f) < 0)
            &&& n_set(g) && z_set(g) == (r == 0) && g % 16 == 0
        }),
{
    let ci = carry_into(f);
    lemma_wrap8(a - v - ci);
    lemma_flag_byte_fields(wrap8(a - v - ci) == 0, true, a % 16 < v % 16 + ci, v + ci > a);
}

/// AND, XOR and OR act bit by bit; C and N are clear, H is set by AND only. CP leaves A and sets the flags as SUB does.
/// Z tells a zero result and the low nibble of F is clear.
pub proof fn lemma_alu_logic(a: u8, f: u8, v: u8)
    ensures
        ({
            let (r, g) = alu_result(a, f, v, 4);
            &&& r == a & v
            &&& !c_set(g) && h_set(g) && !n_set(g) && z_set(g) == (r == 0) && g % 16 == 0
        }),
        ({
            let (r, g) = alu_result(a, f, v, 5);
            &&& r == a ^ v
            &&& !c_set(g) && !h_set(g) && !n_set(g) && z_set(g) == (r == 0) && g % 16 == 0
        }),
        ({
            let (r, g) = alu_result(a, f, v, 6);
            &&& r == a | v
            &&& !c_set(g) && !h_set(g) && !n_set(g) && z_set(g) == (r == 0) && g % 16 == 0
        }),
        alu_result(a, f, v, 7).0 == a,
        alu_result(a, f, v, 7).1 == alu_result(a, f, v, 2).1,
{
    lemma_flag_byte_fields(a & v == 0, false, true, false);
    lemma_flag_byte_fields(a ^ v == 0, false, false, false);
    lemma_flag_byte_fields(a | v == 0, false, false, false);
}

/// A 16-bit addition done as ADD on the low bytes and ADC on the high bytes
/// gives the 16-bit sum modulo 65536, and the final C tells that the 16-bit
/// sum overflows.
pub proof fn lemma_wide_add(x: u16, y: u16, f: u8)
    ensures
        ({
            let (lo, f1) = alu_result((x % 256) as u8, f, (y % 256) as u8, 0);
            let (hi, f2) = alu_result((x / 256) as u8, f1, (y / 256) as u8, 1);
            &&& hi * 256 + lo == wrap16(x + y)
            &&& c_set(f2) == (x + y >= 65536)
        }),
{
    let xl = (x % 256) as u8;
    let xh = (x / 256) as u8;
    let yl = (y % 256) as u8;
    let yh = (y / 256) as u8;
    assert(x == xh * 256 + xl);
    assert(y == yh * 256 + yl);
    lemma_alu_add(xl, f, yl);
    let (lo, f1) = alu_result(xl, f, yl, 0);
    lemma_alu_adc(xh, f1, yh);
    let (hi, f2) = alu_result(xh, f1, yh, 1);
    let c1 = carry_into(f1);
    assert(lo == xl + yl - 256 * c1);
    assert(hi == xh + yh + c1 - 256 * carry_into(f2));
    lemma_wrap16(x + y);
}

/// A 16-bit subtraction done as SUB on the low bytes and SBC on the high
/// bytes gives the 16-bit difference modulo 65536, and the final C tells
/// that the 16-bit subtraction borrows.
pub proof fn lemma_wide_sub(x: u16, y: u16, f: u8)
    ensures
        ({
            let (lo, f1) = alu_result((x % 256) as u8, f, (y % 256) as u8, 2);
            let (hi, f2) = alu_result((x / 256) as u8, f1, (y / 256) as u8, 3);
            &&& hi * 256 + lo == wrap16(x - y)
            &&& c_set(f2) == (x < y)
        }),
{
    let xl = (x % 256) as u8;
    let xh = (x / 256) as u8;
    let yl = (y % 256) as u8;
    let yh = (y / 256) as u8;
    assert(x == xh * 256 + xl);
    assert(y == yh * 256 + yl);
    lemma_alu_sub(xl, f, yl);
    let (lo, f1) = alu_result(xl, f, yl, 2);
    lemma_alu_sbc(xh, f1, yh);
    let (hi, f2) = alu_result(xh, f1, yh, 3);
    let b1 = carry_into(f1);
    assert(lo == xl - yl + 256 * b1);
    assert(hi == xh - yh - b1 + 256 * carry_into(f2));
    lemma_wrap16(x - y);
}

/// Bit `i` of a byte.
pub open spec fn bit(x: u8, i: u8) -> bool {
    (x >> i) & 1 == 1
}

/// INC gives v + 1 modulo 256 with H telling that the low nibble was 0xF;
/// DEC gives v - 1 modulo 256 with H telling that the low nibble was 0. Both
/// keep C, set Z on a zero result, and INC clears N while DEC sets it.
pub proof fn lemma_inc_dec_meaning(v: u8, f: u8)
    ensures
        ({
            let (r, g) = inc_result(v, f);
            &&& r as int == (v + 1) % 256 && h_set(g) == (v % 16 == 15)
            &&& c_set(g) == c_set(f) && !n_set(g) && z_set(g) == (r == 0) && g % 16 == 0
        }),
        ({
            let (r, g) = dec_result(v, f);
            &&& r as int == (v + 255) % 256 && h_set(g) == (v % 16 == 0)
            &&& c_set(g) == c_set(f) && n_set(g) && z_set(g) == (r == 0) && g % 16 == 0
        }),
{
    lemma_wrap8(v + 1);
    lemma_wrap8(v - 1);
    lemma_flag_byte_fields(wrap8(v + 1) == 0, false, v % 16 + 1 > 15, c_set(f));
    lemma_flag_byte_fields(wrap8(v - 1) == 0, true, v % 16 == 0, c_set(f));
}

/// The rotations and shifts of the 0xCB prefix, as bit moves: RLC and RRC
/// rotate the byte, RL and RR rotate it through C, SLA and SRL shift in a
/// zero, SRA keeps bit 7, SWAP exchanges the nibbles. C receives the bit
/// shifted out (SWAP clears it), Z tells a zero result, N and H are clear.
pub proof fn lemma_shift_rotate_meaning(v: u8, f: u8)
    ensures
        ({
            let (r, g) = shift_rotate_result(v, f, 0);
            r == (v << 1) | (v >> 7) && c_set(g) == bit(v, 7) && z_set(g) == (r == 0) && !n_set(g)
                && !h_set(g)
        }),
        ({
            let (r, g) = shift_rotate_result(v, f, 1);
            r == (v >> 1) | (v << 7) && c_set(g) == bit(v, 0) && z_set(g) == (r == 0) && !n_set(g)
                && !h_set(g)
        }),
        ({
            let (r, g) = shift_rotate_result(v, f, 2);
            r == (v << 1) | (if c_set(f) { 1u8 } else { 0u8 }) && c_set(g) == bit(v, 7) && z_set(g)
                == (r == 0) && !n_set(g) && !h_set(g)
        }),
        ({
            let (r, g) = shift_rotate_result(v, f, 3);
            r == (v >> 1) | (if c_set(f) { 0x80u8 } else { 0u8 }) && c_set(g) == bit(v, 0) && z_set(g)
                == (r == 0) && !n_set(g) && !h_set(g)
        }),
        ({
            let (r, g) = shift_rotate_result(v, f, 4);
            r == v << 1 && c_set(g) == bit(v, 7) && z_set(g) == (r == 0) && !n_set(g) && !h_set(g)
        }),
        ({
            let (r, g) = shift_rotate_result(v, f, 5);
            r == (v >> 1) | (v & 0x80) && c_set(g) == bit(v, 0) && z_set(g) == (r == 0) && !n_set(g)
                && !h_set(g)
        }),
        ({
            let (r, g) = shift_rotate_result(v, f, 6);
            r == (v >> 4) | (v << 4) && !c_set(g) && z_set(g) == (r == 0) && !n_set(g) && !h_set(g)
        }),
        ({
            let (r, g) = shift_rotate_result(v, f, 7);
            r == v >> 1 && c_set(g) == bit(v, 0) && z_set(g) == (r == 0) && !n_set(g) && !h_set(g)
        }),
{
    lemma_byte_fields(v);
    let ci: u8 = if c_set(f) { 1 } else { 0 };
    lemma_rotate_left(v, v / 128);
    lemma_rotate_right(v, v % 2);
    lemma_rotate_left(v, ci);
    lemma_rotate_right(v, ci);
    lemma_shift_left(v);
    lemma_shift_right_arith(v);
    lemma_swap_nibbles(v);
    assert((v >> 7) & 1 == v >> 7 && (v << 7) == ((v & 1) << 7) && ((v >> 7) & 1 == 1) == bit(v, 7)
        && ((v & 1) == 1) == bit(v, 0) && (ci << 7) == (if ci == 1 { 0x80u8 } else { 0u8 })) by (bit_vector)
        requires
            ci <= 1,
    ;
    let r0 = shift_rotate_result(v, f, 0).0;
    let r1 = shift_rotate_result(v, f, 1).0;
    let r2 = shift_rotate_result(v, f, 2).0;
    let r3 = shift_rotate_result(v, f, 3).0;
    let r4 = shift_rotate_result(v, f, 4).0;
    let r5 = shift_rotate_result(v, f, 5).0;
    let r6 = shift_rotate_result(v, f, 6).0;
    let r7 = shift_rotate_result(v, f, 7).0;
    lemma_flag_byte_fields(r0 == 0, false, false, v / 128 == 1);
    lemma_flag_byte_fields(r1 == 0, false, false, v % 2 == 1);
    lemma_flag_byte_fields(r2 == 0, false, false, v / 128 == 1);
    lemma_flag_byte_fields(r3 == 0, false, false, v % 2 == 1);
    lemma_flag_byte_fields(r4 == 0, false, false, v / 128 == 1);
    lemma_flag_byte_fields(r5 == 0, false, false, v % 2 == 1);
    lemma_flag_byte_fields(r6 == 0, false, false, false);
    lemma_flag_byte_fields(r7 == 0, false, false, v % 2 == 1);
}

/// The bit group of the 0xCB prefix on a register operand (not (HL)): BIT b
/// keeps the register and sets Z exactly when bit b is clear (H set, N clear,
/// C kept); RES b clears bit b and keeps every other bit; SET b sets bit b
/// and keeps every other bit. Here `i` is any bit position.
pub proof fn lemma_cb_bit_group<B: Bus>(c: Cpu, bus: B, i: u8)
    requires
        i < 8,
        bus.peek(c.pc) % 8 != 6,
        bus.peek(c.pc) >= 0x40,
    ensures
        ({
            let cb = bus.peek(c.pc);
            let r = cb % 8;
            let b = (cb / 8) % 8;
            let v = c.reg(bus, r);
            let (c2, b2, cycles) = cb_spec(c, bus);
            let w = c2.reg(b2, r);
            &&& b2 == bus
            &&& cycles == 8
            &&& cb / 64 == 1 ==> w == v && z_set(c2.f) == !bit(v, b) && h_set(c2.f) && !n_set(c2.f)
                && c_set(c2.f) == c_set(c.f)
            &&& cb / 64 == 2 ==> bit(w, i) == (i != b && bit(v, i)) && c2.f == c.f
            &&& cb / 64 == 3 ==> bit(w, i) == (i == b || bit(v, i)) && c2.f == c.f
        }),
{
    let cb = bus.peek(c.pc);
    let b = ((cb / 8) % 8) as u8;
    let v = c.reg(bus, cb % 8);
    assert(((v & !(1u8 << b)) >> i) & 1 == 1 <==> (i != b && (v >> i) & 1 == 1)) by (bit_vector)
        requires
            i < 8,
            b < 8,
    ;
    assert(((v | (1u8 << b)) >> i) & 1 == 1 <==> (i == b || (v >> i) & 1 == 1)) by (bit_vector)
        requires
            i < 8,
            b < 8,
    ;
    assert((v & (1u8 << b) == 0) <==> !((v >> b) & 1 == 1)) by (bit_vector)
        requires
            b < 8,
    ;
    lemma_flag_byte_fields(v & (1u8 << b) == 0, false, true, (c.f / 16) % 2 == 1);
}

/// The decimal value of a byte whose nibbles are both decimal digits.
pub open spec fn bcd_value(x: u8) -> int {
    (x / 16) * 10 + x % 16
}

/// Whether both nibbles of a byte are decimal digits.
pub open spec fn is_bcd(x: u8) -> bool {
    x % 16 <= 9 && x / 16 <= 9
}

/// The byte whose nibbles are the two decimal digits of `n` (0..=99).
pub open spec fn bcd_byte(n: int) -> int {
    (n / 10) * 16 + n % 10
}

/// DAA after a subtraction (N set) takes 6 off A when H is set and 0x60 when
/// C is set, modulo 256; it keeps N and C, clears H and sets Z on a zero
/// result.
pub proof fn lemma_daa_after_subtraction(a: u8, f: u8)
    requires
        n_set(f),
    ensures
        ({
            let (r, g) = daa_result(a, f);
            &&& r as int == (a - (if h_set(f) { 6int } else { 0 }) - (if c_set(f) { 0x60int } else { 0 })
                + 256) % 256
            &&& n_set(g) && c_set(g) == c_set(f) && !h_set(g) && z_set(g) == (r == 0)
        }),
{
    let x = a - (if h_set(f) { 6int } else { 0 }) - (if c_set(f) { 0x60int } else { 0 });
    lemma_wrap8(x);
    lemma_flag_byte_fields(wrap8(x) == 0, true, false, c_set(f));
}

/// DAA after an addition (N clear) adds 6 when H is set and 0x60 when C is
/// set, modulo 256, and C afterwards tells that 0x60 was added; N and H are
/// clear and Z tells a zero result.
pub proof fn lemma_daa_after_addition(a: u8, f: u8)
    requires
        !n_set(f),
    ensures
        ({
            let (r, g) = daa_result(a, f);
            let low: int = if (r - a + 256) % 256 == 6 || (r - a + 256) % 256 == 0x66 { 6 } else { 0 };
            let high: int = if c_set(g) { 0x60 } else { 0 };
            &&& r as int == (a + low + high) % 256
            &&& ((r - a + 256) % 256 == 0 || (r - a + 256) % 256 == 6 || (r - a + 256) % 256 == 0x60
                || (r - a + 256) % 256 == 0x66)
            &&& h_set(f) ==> low == 6
            &&& c_set(f) ==> c_set(g)
            &&& !n_set(g) && !h_set(g) && z_set(g) == (r == 0)
        }),
{
    let (r, g) = daa_result(a, f);
    let a1: int = if h_set(f) || a > 0x9F { a + 6 } else { a as int };
    let adjust = c_set(f) || ((a1 as u16) & 0x9F) > 0x99;
    let a2: int = if adjust { a1 + 0x60 } else { a1 };
    lemma_wrap8(a2);
    lemma_flag_byte_fields(wrap8(a2) == 0, false, false, adjust);
}

/// Subtracting one BCD number from another with SUB and adjusting with DAA
/// gives the BCD digits of the decimal difference modulo 100, with C telling
/// that the subtraction borrowed.
#[verifier::spinoff_prover]
#[verifier::rlimit(50)]
pub proof fn lemma_bcd_subtraction(x: u8, y: u8, f: u8)
    requires
        is_bcd(x),
        is_bcd(y),
    ensures
        ({
            let (d, f1) = alu_result(x, f, y, 2);
            let (r, f2) = daa_result(d, f1);
            let diff = (bcd_value(x) - bcd_value(y) + 100) % 100;
            &&& r as int == bcd_byte(diff)
            &&& c_set(f2) == (bcd_value(x) < bcd_value(y))
            &&& z_set(f2) == (diff == 0)
        }),
{
    lemma_alu_sub(x, f, y);
    let (d, f1) = alu_result(x, f, y, 2);
    lemma_daa_after_subtraction(d, f1);
    let xh = x / 16;
    let xl = x % 16;
    let yh = y / 16;
    let yl = y % 16;
    assert(x == xh * 16 + xl);
    assert(y == yh * 16 + yl);
    assert(h_set(f1) == (xl < yl));
    assert(c_set(f1) == (x < y));
    let (r, f2) = daa_result(d, f1);
    let diff = (bcd_value(x) - bcd_value(y) + 100) % 100;
    let q: int = if xl >= yl {
        if x >= y { xh - yh } else { xh - yh + 10 }
    } else {
        if x >= y { xh - yh - 1 } else { xh - yh + 9 }
    };
    let rr: int = if xl >= yl { xl - yl } else { xl - yl + 10 };
    assert(0 <= q < 10 && 0 <= rr < 10);
    assert(r == q * 16 + rr);
    lemma_fundamental_div_mod_converse(bcd_value(x) - bcd_value(y) + 100, 100, (if x >= y { 1int } else { 0 }), q * 10 + rr);
    assert(diff == q * 10 + rr);
    lemma_fundamental_div_mod_converse(diff, 10, q, rr);
}

/// Whether the condition that a conditional JR, JP, CALL or RET opcode tests
/// holds: NZ for 0x20, 0xC0, 0xC2, 0xC4; Z for 0x28, 0xC8, 0xCA, 0xCC; NC for
/// 0x30, 0xD0, 0xD2, 0xD4; C for 0x38, 0xD8, 0xDA, 0xDC.
pub open spec fn cond_taken(f: u8, op: u8) -> bool {
    if op == 0x20 || op == 0xC0 || op == 0xC2 || op == 0xC4 {
        !z_set(f)
    } else if op == 0x28 || op == 0xC8 || op == 0xCA || op == 0xCC {
        z_set(f)
    } else if op == 0x30 || op == 0xD0 || op == 0xD2 || op == 0xD4 {
        !c_set(f)
    } else {
        c_set(f)
    }
}

/// The little-endian word at `address`.
pub open spec fn word_at<B: Bus>(bus: B, address: u16) -> int {
    bus.peek(wrap16(address + 1)) * 256 + bus.peek(address)
}

/// JP cc, nn (PC past the opcode): when the condition holds PC becomes nn in
/// 16 cycles, otherwise PC moves past nn in 12 cycles; nothing else changes.
pub proof fn lemma_conditional_jp<B: Bus>(c: Cpu, bus: B, op: u8)
    requires
        op == 0xC2 || op == 0xCA || op == 0xD2 || op == 0xDA,
    ensures
        ({
            let (c2, b2, cycles) = execute_spec(c, bus, op);
            &&& b2 == bus
            &&& cond_taken(c.f, op) ==> c2 == Cpu { pc: word_at(bus, c.pc) as u16, ..c } && cycles == 16
            &&& !cond_taken(c.f, op) ==> c2 == Cpu { pc: wrap16(c.pc + 2), ..c } && cycles == 12
        }),
{
}

/// JR cc, e (PC past the opcode): when the condition holds PC moves past the
/// offset byte and then by the signed offset, in 12 cycles; otherwise it only
/// moves past the offset byte, in 8 cycles; nothing else changes.
pub proof fn lemma_conditional_jr<B: Bus>(c: Cpu, bus: B, op: u8)
    requires
        op == 0x20 || op == 0x28 || op == 0x30 || op == 0x38,
    ensures
        ({
            let (c2, b2, cycles) = execute_spec(c, bus, op);
            let e = bus.peek(c.pc);
            let offset: int = if e < 128 { e as int } else { e - 256 };
            &&& b2 == bus
            &&& cond_taken(c.f, op) ==> c2 == Cpu { pc: wrap16(c.pc + 1 + offset), ..c } && cycles == 12
            &&& !cond_taken(c.f, op) ==> c2 == Cpu { pc: wrap16(c.pc + 1), ..c } && cycles == 8
        }),
{
    let e = bus.peek(c.pc);
    let offset: int = if e < 128 { e as int } else { e - 256 };
    lemma_wrap16(c.pc + 1);
    lemma_wrap16(wrap16(c.pc + 1) + offset);
    lemma_wrap16(c.pc + 1 + offset);
}

/// CALL cc, nn (PC past the opcode): when the condition holds the address past
/// nn is pushed (high byte at SP-1, low byte at SP-2), SP drops by 2 and PC
/// becomes nn, in 24 cycles; otherwise PC moves past nn in 12 cycles and the
/// bus is left alone.
pub proof fn lemma_conditional_call<B: Bus>(c: Cpu, bus: B, op: u8)
    requires
        op == 0xC4 || op == 0xCC || op == 0xD4 || op == 0xDC,
    ensures
        ({
            let (c2, b2, cycles) = execute_spec(c, bus, op);
            let ret = wrap16(c.pc + 2);
            &&& cond_taken(c.f, op) ==> c2 == Cpu { pc: word_at(bus, c.pc) as u16, sp: wrap16(c.sp - 2), ..c }
                && b2 == bus.after_write(wrap16(c.sp - 1), (ret / 256) as u8).after_write(
                wrap16(c.sp - 2),
                (ret % 256) as u8,
            ) && cycles == 24
            &&& !cond_taken(c.f, op) ==> c2 == Cpu { pc: ret, ..c } && b2 == bus && cycles == 12
        }),
{
}

/// RET cc (PC past the opcode): when the condition holds PC becomes the word
/// at SP and SP rises by 2, in 20 cycles; otherwise nothing changes and it
/// takes 8 cycles.
pub proof fn lemma_conditional_ret<B: Bus>(c: Cpu, bus: B, op: u8)
    requires
        op == 0xC0 || op == 0xC8 || op == 0xD0 || op == 0xD8,
    ensures
        ({
            let (c2, b2, cycles) = execute_spec(c, bus, op);
            &&& b2 == bus
            &&& cond_taken(c.f, op) ==> c2 == Cpu { pc: word_at(bus, c.sp) as u16, sp: wrap16(c.sp + 2), ..c }
                && cycles == 20
            &&& !cond_taken(c.f, op) ==> c2 == c && cycles == 8
        }),
{
}

/// The 8-bit register with index 0 to 7 other than 6: B, C, D, E, H, L, and A for 7.
pub open spec fn reg8(c: Cpu, id: u8) -> u8 {
    if id == 0 {
        c.b
    } else if id == 1 {
        c.c
    } else if id == 2 {
        c.d
    } else if id == 3 {
        c.e
    } else if id == 4 {
        c.h
    } else if id == 5 {
        c.l
    } else {
        c.a
    }
}

/// `c2` differs from `c` at most in the 8-bit register `id`.
pub open spec fn only_reg8_changed(c: Cpu, c2: Cpu, id: u8) -> bool {
    &&& forall|k: u8| k < 8 && k != 6 && k != id ==> #[trigger] reg8(c2, k) == reg8(c, k)
    &&& c2.f == c.f && c2.sp == c.sp && c2.pc == c.pc
    &&& c2.stopped == c.stopped && c2.halted == c.halted && c2.ime == c.ime
}

/// LD r, r' (0x40..=0x7F between registers, 0x76 excepted) copies register
/// `op % 8` into register `(op / 8) % 8` in 4 cycles and changes nothing else.
pub proof fn lemma_load_register<B: Bus>(c: Cpu, bus: B, op: u8)
    requires
        0x40 <= op < 0x80,
        op % 8 != 6,
        (op / 8) % 8 != 6,
    ensures
        ({
            let (c2, b2, cycles) = execute_spec(c, bus, op);
            &&& reg8(c2, (op / 8) % 8) == reg8(c, op % 8)
            &&& only_reg8_changed(c, c2, (op / 8) % 8)
            &&& b2 == bus && cycles == 4
        }),
{
}

/// LD r, n (0x06, 0x0E, 0x16, 0x1E, 0x26, 0x2E; PC past the opcode) loads the
/// byte at PC into register `op / 8` and moves PC past it, in 8 cycles.
pub proof fn lemma_load_register_immediate<B: Bus>(c: Cpu, bus: B, op: u8)
    requires
        op == 0x06 || op == 0x0E || op == 0x16 || op == 0x1E || op == 0x26 || op == 0x2E,
    ensures
        ({
            let (c2, b2, cycles) = execute_spec(c, bus, op);
            &&& reg8(c2, op / 8) == bus.peek(c.pc)
            &&& only_reg8_changed(c, Cpu { pc: c.pc, ..c2 }, op / 8)
            &&& c2.pc == wrap16(c.pc + 1)
            &&& b2 == bus && cycles == 8
        }),
{
}

/// INC r and DEC r on a register (not (HL)) change only that register, by
/// INC and DEC as `inc_result` and `dec_result` state, and F, in 4 cycles.
pub proof fn lemma_inc_dec_register<B: Bus>(c: Cpu, bus: B, op: u8)
    requires
        op < 0x40,
        op % 8 == 4 || op % 8 == 5,
        op / 8 != 6,
    ensures
        ({
            let (c2, b2, cycles) = execute_spec(c, bus, op);
            let (r, g) = if op % 8 == 4 {
                inc_result(reg8(c, op / 8), c.f)
            } else {
                dec_result(reg8(c, op / 8), c.f)
            };
            &&& reg8(c2, op / 8) == r && c2.f == g
            &&& only_reg8_changed(Cpu { f: g, ..c }, c2, op / 8)
            &&& b2 == bus && cycles == 4
        }),
{
}

/// The ALU group on a register operand (0x80..=0xBF, operand `op % 8` not
/// (HL)): operation `(op - 0x80) / 8` (add, adc, sub, sbc, and, xor, or, cp)
/// on A and the operand, in 4 cycles; only A and F change.
pub proof fn lemma_alu_register<B: Bus>(c: Cpu, bus: B, op: u8)
    requires
        0x80 <= op < 0xC0,
        op % 8 != 6,
    ensures
        ({
            let (c2, b2, cycles) = execute_spec(c, bus, op);
            let (a, f) = alu_result(c.a, c.f, reg8(c, op % 8), ((op - 0x80) / 8) as u8);
            &&& c2 == Cpu { a: a, f: f, ..c }
            &&& b2 == bus && cycles == 4
        }),
{
    assert(((op - 0x80) / 8) as u8 == (op / 8) % 8);
    assert(c.reg(bus, op % 8) == reg8(c, op % 8));
}

/// The word registers: BC, DE, HL as high byte * 256 + low byte, and SP.
pub open spec fn word_reg(c: Cpu, idx: u8) -> int {
    if idx == 0 {
        c.b * 256 + c.c
    } else if idx == 1 {
        c.d * 256 + c.e
    } else if idx == 2 {
        c.h * 256 + c.l
    } else {
        c.sp as int
    }
}

/// Registers outside word register `idx` keep their values, and so do A and
/// the processor states.
pub open spec fn only_word_changed(c: Cpu, c2: Cpu, idx: u8) -> bool {
    &&& forall|k: u8| k < 4 && k != idx ==> #[trigger] word_reg(c2, k) == word_reg(c, k)
    &&& c2.a == c.a && c2.stopped == c.stopped && c2.halted == c.halted && c2.ime == c.ime
}

/// LD rr, nn (0x01, 0x11, 0x21, 0x31) loads the word at PC into word register
/// `op / 16` and moves PC past it, in 12 cycles.
pub proof fn lemma_load_word<B: Bus>(c: Cpu, bus: B, op: u8)
    requires
        op == 0x01 || op == 0x11 || op == 0x21 || op == 0x31,
    ensures
        ({
            let (c2, b2, cycles) = execute_spec(c, bus, op);
            &&& word_reg(c2, op / 16) == word_at(bus, c.pc)
            &&& only_word_changed(c, c2, op / 16) && c2.f == c.f
            &&& c2.pc == wrap16(c.pc + 2) && b2 == bus && cycles == 12
        }),
{
    let v = word_at(bus, c.pc);
    assert((v / 256) * 256 + v % 256 == v);
}

/// INC rr (0x03, 0x13, 0x23, 0x33) adds 1 and DEC rr (0x0B, 0x1B, 0x2B,
/// 0x3B) takes 1 from word register `op / 16`, modulo 65536, in 8 cycles,
/// leaving the flags.
#[verifier::spinoff_prover]
#[verifier::rlimit(50)]
pub proof fn lemma_step_word<B: Bus>(c: Cpu, bus: B, op: u8)
    requires
        op < 0x40,
        op % 16 == 3 || op % 16 == 0x0B,
    ensures
        ({
            let (c2, b2, cycles) = execute_spec(c, bus, op);
            let w = word_reg(c, op / 16);
            &&& word_reg(c2, op / 16) == (if op % 16 == 3 { (w + 1) % 65536 } else { (w + 65535) % 65536 })
            &&& only_word_changed(c, c2, op / 16) && c2.f == c.f && c2.pc == c.pc
            &&& b2 == bus && cycles == 8
        }),
{
    let w = word_reg(c, op / 16);
    lemma_wrap16(w + 1);
    lemma_wrap16(w - 1);
    let r = if op % 16 == 3 { wrap16(w + 1) } else { wrap16(w - 1) };
    assert((r / 256) * 256 + r % 256 == r);
}

/// ADD HL, rr (0x09, 0x19, 0x29, 0x39) adds word register `op / 16` into HL
/// modulo 65536, with C telling a carry out of bit 15 and H a carry out of
/// bit 11, Z kept and N cleared, in 8 cycles.
pub proof fn lemma_add_hl_word<B: Bus>(c: Cpu, bus: B, op: u8)
    requires
        op == 0x09 || op == 0x19 || op == 0x29 || op == 0x39,
    ensures
        ({
            let (c2, b2, cycles) = execute_spec(c, bus, op);
            let hl = word_reg(c, 2);
            let w = word_reg(c, op / 16);
            &&& word_reg(c2, 2) == (hl + w) % 65536
            &&& only_word_changed(c, c2, 2) && c2.pc == c.pc
            &&& c_set(c2.f) == (hl + w >= 65536) && h_set(c2.f) == (hl % 4096 + w % 4096 >= 4096)
            &&& z_set(c2.f) == z_set(c.f) && !n_set(c2.f)
            &&& b2 == bus && cycles == 8
        }),
{
    let hl = word_reg(c, 2);
    let w = word_reg(c, op / 16);
    lemma_wrap16(hl + w);
    let r = wrap16(hl + w);
    assert((r / 256) * 256 + r % 256 == r);
    lemma_flag_byte_fields(z_set(c.f), false, hl % 4096 + w % 4096 > 4095, hl + w > 65535);
}

/// The signed value of an offset byte.
pub open spec fn offset_value(e: u8) -> int {
    if e < 128 {
        e as int
    } else {
        e - 256
    }
}

/// `b2` is `bus` after pushing the word `w` below `sp`: high byte at SP-1,
/// low byte at SP-2.
pub open spec fn pushed<B: Bus>(bus: B, sp: u16, w: int, b2: B) -> bool {
    b2 == bus.after_write(wrap16(sp - 1), (w / 256) as u8).after_write(wrap16(sp - 2), (w % 256) as u8)
}

/// The unconditional control flow (PC past the opcode): JP nn jumps to the
/// word at PC (16 cycles); JP HL jumps to HL (4); CALL nn pushes the address
/// past nn and jumps to nn (24); RET pops PC (16) and RETI also sets IME;
/// RST t pushes PC and jumps to t = op - 0xC7 (16); JR e moves PC past the
/// offset byte and then by the signed offset (12). Only PC, SP, IME and the
/// stack bytes change.
pub proof fn lemma_unconditional_flow<B: Bus>(c: Cpu, bus: B, op: u8)
    requires
        op == 0xC3 || op == 0xE9 || op == 0xCD || op == 0xC9 || op == 0xD9 || (op >= 0xC0 && op % 8 == 7)
            || op == 0x18,
    ensures
        ({
            let (c2, b2, cycles) = execute_spec(c, bus, op);
            &&& op == 0x18 ==> c2 == Cpu {
                pc: wrap16(c.pc + 1 + offset_value(bus.peek(c.pc))),
                ..c
            } && b2 == bus && cycles == 12
            &&& op == 0xC3 ==> c2 == Cpu { pc: word_at(bus, c.pc) as u16, ..c } && b2 == bus && cycles == 16
            &&& op == 0xE9 ==> c2 == Cpu { pc: word_reg(c, 2) as u16, ..c } && b2 == bus && cycles == 4
            &&& op == 0xCD ==> c2 == Cpu { pc: word_at(bus, c.pc) as u16, sp: wrap16(c.sp - 2), ..c }
                && pushed(bus, c.sp, wrap16(c.pc + 2) as int, b2) && cycles == 24
            &&& op == 0xC9 ==> c2 == Cpu { pc: word_at(bus, c.sp) as u16, sp: wrap16(c.sp + 2), ..c }
                && b2 == bus && cycles == 16
            &&& op == 0xD9 ==> c2 == Cpu {
                pc: word_at(bus, c.sp) as u16,
                sp: wrap16(c.sp + 2),
                ime: true,
                ..c
            } && b2 == bus && cycles == 16
            &&& (op >= 0xC0 && op % 8 == 7) ==> c2 == Cpu { pc: (op - 0xC7) as u16, sp: wrap16(c.sp - 2), ..c }
                && pushed(bus, c.sp, c.pc as int, b2) && cycles == 16
        }),
{
    assert((op >= 0xC0 && op % 8 == 7) ==> (op & 0x38) as u16 == (op - 0xC7) as u16) by (bit_vector);
    let offset = offset_value(bus.peek(c.pc));
    lemma_wrap16(c.pc + 1);
    lemma_wrap16(wrap16(c.pc + 1) + offset);
    lemma_wrap16(c.pc + 1 + offset);
}

/// The high-page and absolute loads of A (PC past the opcode): LDH (n), A
/// writes A to 0xFF00 + n (12 cycles); LDH A, (n) reads it (12); LD (C), A
/// and LD A, (C) use 0xFF00 + C (8); LD (nn), A and LD A, (nn) use the word
/// at PC (16). PC moves past the operands; nothing else changes.
pub proof fn lemma_loads_of_a<B: Bus>(c: Cpu, bus: B, op: u8)
    requires
        op == 0xE0 || op == 0xF0 || op == 0xE2 || op == 0xF2 || op == 0xEA || op == 0xFA,
    ensures
        ({
            let (c2, b2, cycles) = execute_spec(c, bus, op);
            let n = bus.peek(c.pc);
            &&& op == 0xE0 ==> c2 == Cpu { pc: wrap16(c.pc + 1), ..c } && b2 == bus.after_write(
                (0xFF00 + n) as u16,
                c.a,
            ) && cycles == 12
            &&& op == 0xF0 ==> c2 == Cpu { pc: wrap16(c.pc + 1), a: bus.peek((0xFF00 + n) as u16), ..c }
                && b2 == bus && cycles == 12
            &&& op == 0xE2 ==> c2 == c && b2 == bus.after_write((0xFF00 + c.c) as u16, c.a) && cycles == 8
            &&& op == 0xF2 ==> c2 == Cpu { a: bus.peek((0xFF00 + c.c) as u16), ..c } && b2 == bus
                && cycles == 8
            &&& op == 0xEA ==> c2 == Cpu { pc: wrap16(c.pc + 2), ..c } && b2 == bus.after_write(
                word_at(bus, c.pc) as u16,
                c.a,
            ) && cycles == 16
            &&& op == 0xFA ==> c2 == Cpu { pc: wrap16(c.pc + 2), a: bus.peek(word_at(bus, c.pc) as u16), ..c }
                && b2 == bus && cycles == 16
        }),
{
}

/// ADD SP, e and LD HL, SP+e (PC past the opcode): SP plus the signed offset
/// modulo 65536, into SP (16 cycles) or HL (12); H and C tell the carries out
/// of bits 3 and 7 of the unsigned addition of the offset byte to the low byte
/// of SP; Z and N are clear.
#[verifier::spinoff_prover]
#[verifier::rlimit(50)]
pub proof fn lemma_sp_offset<B: Bus>(c: Cpu, bus: B, op: u8)
    requires
        op == 0xE8 || op == 0xF8,
    ensures
        ({
            let (c2, b2, cycles) = execute_spec(c, bus, op);
            let e = bus.peek(c.pc);
            let sum = (c.sp + offset_value(e) + 65536) % 65536;
            &&& c_set(c2.f) == (c.sp % 256 + e >= 256) && h_set(c2.f) == (c.sp % 16 + e % 16 >= 16)
            &&& !z_set(c2.f) && !n_set(c2.f) && b2 == bus && c2.pc == wrap16(c.pc + 1)
            &&& op == 0xE8 ==> c2.sp == sum && word_reg(c2, 2) == word_reg(c, 2) && cycles == 16
            &&& op == 0xF8 ==> word_reg(c2, 2) == sum && c2.sp == c.sp && cycles == 12
            &&& c2.a == c.a && word_reg(c2, 0) == word_reg(c, 0) && word_reg(c2, 1) == word_reg(c, 1)
        }),
{
    let e = bus.peek(c.pc);
    lemma_wrap16(c.sp + offset_value(e));
    let r = wrap16(c.sp + offset_value(e));
    assert((r / 256) * 256 + r % 256 == r);
    lemma_flag_byte_fields(false, false, c.sp % 16 + e % 16 > 15, c.sp % 256 + e > 255);
}

/// SCF sets C, CCF complements it, both keeping Z and clearing N and H;
/// CPL complements every bit of A and sets N and H, keeping Z and C. Each
/// takes 4 cycles.
pub proof fn lemma_flag_instructions<B: Bus>(c: Cpu, bus: B, op: u8)
    requires
        op == 0x37 || op == 0x3F || op == 0x2F,
    ensures
        ({
            let (c2, b2, cycles) = execute_spec(c, bus, op);
            &&& b2 == bus && cycles == 4 && c2 == Cpu { a: c2.a, f: c2.f, ..c }
            &&& op == 0x37 ==> c2.a == c.a && c_set(c2.f) && z_set(c2.f) == z_set(c.f) && !n_set(c2.f)
                && !h_set(c2.f)
            &&& op == 0x3F ==> c2.a == c.a && c_set(c2.f) == !c_set(c.f) && z_set(c2.f) == z_set(c.f)
                && !n_set(c2.f) && !h_set(c2.f)
            &&& op == 0x2F ==> c2.a as int == 255 - c.a && n_set(c2.f) && h_set(c2.f) && z_set(c2.f)
                == z_set(c.f) && c_set(c2.f) == c_set(c.f)
        }),
{
    let f = c.f;
    let a = c.a;
    lemma_flag_byte_fields(f / 128 == 1, false, false, true);
    lemma_flag_byte_fields(f / 128 == 1, false, false, !((f / 16) % 2 == 1));
    assert(!a as int == 255 - a && ((f | 0x60) / 64) % 2 == 1 && ((f | 0x60) / 32) % 2 == 1 && (f | 0x60)
        / 128 == f / 128 && ((f | 0x60) / 16) % 2 == (f / 16) % 2) by (bit_vector);
}

/// RLCA, RLA, RRA and RRCA: RLCA rotates A left, RLA rotates it left through
/// C, RRA rotates it right through C, with C receiving the bit shifted out;
/// RRCA rotates A right and sets C when bit 0 was clear, as the model does.
/// F holds C only; each takes 4 cycles.
pub proof fn lemma_rotate_a_meaning<B: Bus>(c: Cpu, bus: B, op: u8)
    requires
        op == 0x07 || op == 0x0F || op == 0x17 || op == 0x1F,
    ensures
        ({
            let (c2, b2, cycles) = execute_spec(c, bus, op);
            let a = c.a;
            &&& b2 == bus && cycles == 4 && c2 == Cpu { a: c2.a, f: c2.f, ..c }
            &&& !z_set(c2.f) && !n_set(c2.f) && !h_set(c2.f) && c2.f % 16 == 0
            &&& op == 0x07 ==> c2.a == (a << 1) | (a >> 7) && c_set(c2.f) == bit(a, 7)
            &&& op == 0x0F ==> c2.a == (a >> 1) | (a << 7) && c_set(c2.f) == !bit(a, 0)
            &&& op == 0x17 ==> c2.a == (a << 1) | (if c_set(c.f) { 1u8 } else { 0u8 }) && c_set(c2.f)
                == bit(a, 7)
            &&& op == 0x1F ==> c2.a == (a >> 1) | (if c_set(c.f) { 0x80u8 } else { 0u8 }) && c_set(c2.f)
                == bit(a, 0)
        }),
{
    let a = c.a;
    let f = c.f;
    lemma_byte_fields(a);
    let ci: u8 = if c_set(f) { 1 } else { 0 };
    lemma_rotate_left(a, a / 128);
    lemma_rotate_right(a, a % 2);
    lemma_rotate_left(a, ci);
    lemma_rotate_right(a, ci);
    assert((a >> 7) & 1 == a >> 7 && (a << 7) == ((a & 1) << 7) && ((a >> 7) & 1 == 1) == bit(a, 7)
        && ((a & 1) == 1) == bit(a, 0) && (ci << 7) == (if ci == 1 { 0x80u8 } else { 0u8 })) by (bit_vector)
        requires
            ci <= 1,
    ;
    lemma_flag_byte_fields(false, false, false, a / 128 == 1);
    lemma_flag_byte_fields(false, false, false, a % 2 == 0);
    lemma_flag_byte_fields(false, false, false, a % 2 == 1);
}

/// NOP, STOP (PC past its second byte), HALT, DI and EI (4 cycles each) change
/// only PC, the STOP and HALT states and IME as their names say; the opcodes
/// the model leaves out take 4 cycles and change nothing.
pub proof fn lemma_control_instructions<B: Bus>(c: Cpu, bus: B, op: u8)
    requires
        op == 0x00 || op == 0x10 || op == 0x76 || op == 0xF3 || op == 0xFB || op == 0x02 || op == 0x08
            || op == 0x0A || op == 0x12 || op == 0x1A || op == 0x36 || op == 0xC6 || op == 0xCE || op
            == 0xD3 || op == 0xD6 || op == 0xDB || op == 0xDD || op == 0xDE || op == 0xE3 || op == 0xE4
            || op == 0xE6 || op == 0xEB || op == 0xEC || op == 0xED || op == 0xEE || op == 0xF4 || op
            == 0xF6 || op == 0xF9 || op == 0xFC || op == 0xFD || op == 0xFE,
    ensures
        ({
            let (c2, b2, cycles) = execute_spec(c, bus, op);
            &&& b2 == bus && cycles == 4
            &&& op == 0x10 ==> c2 == Cpu { pc: wrap16(c.pc + 1), stopped: true, ..c }
            &&& op == 0x76 ==> c2 == Cpu { halted: true, ..c }
            &&& op == 0xF3 ==> c2 == Cpu { ime: false, ..c }
            &&& op == 0xFB ==> c2 == Cpu { ime: true, ..c }
            &&& (op != 0x10 && op != 0x76 && op != 0xF3 && op != 0xFB) ==> c2 == c
        }),
{
}

/// LD (HL+), A and LD (HL-), A write A at HL; LD A, (HL+) and LD A, (HL-)
/// read A from HL; then HL moves up or down by 1 modulo 65536. 8 cycles.
pub proof fn lemma_load_hl_step<B: Bus>(c: Cpu, bus: B, op: u8)
    requires
        op == 0x22 || op == 0x32 || op == 0x2A || op == 0x3A,
    ensures
        ({
            let (c2, b2, cycles) = execute_spec(c, bus, op);
            let hl = word_reg(c, 2);
            let next = if op == 0x22 || op == 0x2A { (hl + 1) % 65536 } else { (hl + 65535) % 65536 };
            &&& word_reg(c2, 2) == next && cycles == 8
            &&& c2.f == c.f && c2.sp == c.sp && c2.pc == c.pc && word_reg(c2, 0) == word_reg(c, 0)
                && word_reg(c2, 1) == word_reg(c, 1)
            &&& (op == 0x22 || op == 0x32) ==> b2 == bus.after_write(hl as u16, c.a) && c2.a == c.a
            &&& (op == 0x2A || op == 0x3A) ==> b2 == bus && c2.a == bus.peek(hl as u16)
        }),
{
    let hl = word_reg(c, 2);
    lemma_wrap16(hl + 1);
    lemma_wrap16(hl - 1);
    let r1 = wrap16(hl + 1);
    let r2 = wrap16(hl - 1);
    assert((r1 / 256) * 256 + r1 % 256 == r1);
    assert((r2 / 256) * 256 + r2 % 256 == r2);
}

/// PUSH rr pushes BC, DE, HL or A * 256 + F (16 cycles); POP rr loads the
/// word at SP into BC, DE, HL, or A and F with the low nibble of F cleared,
/// and raises SP by 2 (12 cycles).
pub proof fn lemma_push_pop_instructions<B: Bus>(c: Cpu, bus: B, op: u8)
    requires
        op == 0xC5 || op == 0xD5 || op == 0xE5 || op == 0xF5 || op == 0xC1 || op == 0xD1 || op == 0xE1
            || op == 0xF1,
    ensures
        ({
            let (c2, b2, cycles) = execute_spec(c, bus, op);
            let top = word_at(bus, c.sp);
            let idx = ((op - 0xC1) / 16) as u8;
            &&& op % 16 == 5 ==> c2 == Cpu { sp: wrap16(c.sp - 2), ..c } && cycles == 16 && pushed(
                bus,
                c.sp,
                (if op == 0xF5 { c.a * 256 + c.f } else { word_reg(c, idx) }),
                b2,
            )
            &&& op % 16 == 1 ==> b2 == bus && cycles == 12 && c2.sp == wrap16(c.sp + 2) && c2.pc == c.pc
            &&& (op == 0xC1 || op == 0xD1 || op == 0xE1) ==> word_reg(c2, idx) == top && only_word_changed(
                Cpu { sp: c2.sp, ..c },
                c2,
                idx,
            ) && c2.f == c.f
            &&& op == 0xF1 ==> c2 == Cpu { a: (top / 256) as u8, f: ((top % 256) / 16 * 16) as u8, sp: c2.sp, ..c }
        }),
{
    let top = word_at(bus, c.sp);
    assert((top / 256) * 256 + top % 256 == top);
}

/// The instructions with the operand (HL) read the byte at HL and write
/// their result back there: LD r, (HL) and LD (HL), r (8 cycles), the ALU
/// group on (HL) (8), INC (HL) and DEC (HL) (12).
pub proof fn lemma_memory_operand<B: Bus>(c: Cpu, bus: B, op: u8)
    requires
        (0x40 <= op < 0x80 && op != 0x76 && (op % 8 == 6 || (op / 8) % 8 == 6)) || (0x80 <= op < 0xC0 && op
            % 8 == 6) || op == 0x34 || op == 0x35,
    ensures
        ({
            let (c2, b2, cycles) = execute_spec(c, bus, op);
            let hl = word_reg(c, 2) as u16;
            let v = bus.peek(hl);
            &&& (0x40 <= op < 0x80 && op % 8 == 6) ==> reg8(c2, (op / 8) % 8) == v && only_reg8_changed(
                c,
                c2,
                (op / 8) % 8,
            ) && b2 == bus && cycles == 8
            &&& (0x70 <= op < 0x78 && op != 0x76) ==> c2 == c && b2 == bus.after_write(hl, reg8(c, op % 8)) && cycles == 8
            &&& (0x80 <= op < 0xC0) ==> c2 == Cpu {
                a: alu_result(c.a, c.f, v, ((op - 0x80) / 8) as u8).0,
                f: alu_result(c.a, c.f, v, ((op - 0x80) / 8) as u8).1,
                ..c
            } && b2 == bus && cycles == 8
            &&& op == 0x34 ==> c2 == Cpu { f: inc_result(v, c.f).1, ..c } && b2 == bus.after_write(
                hl,
                inc_result(v, c.f).0,
            ) && cycles == 12
            &&& op == 0x35 ==> c2 == Cpu { f: dec_result(v, c.f).1, ..c } && b2 == bus.after_write(
                hl,
                dec_result(v, c.f).0,
            ) && cycles == 12
        }),
{
    let hl = word_reg(c, 2);
    assert(c.hl() == hl);
    assert(0x80 <= op < 0xC0 ==> ((op - 0x80) / 8) as u8 == (op / 8) % 8);
}

/// The rotate/shift group of the 0xCB prefix on a register operand stores
/// the result that `shift_rotate_result` states into that register and its
/// flags into F, in 8 cycles; on (HL) it writes the result at HL, in 16.
pub proof fn lemma_cb_shift_group<B: Bus>(c: Cpu, bus: B)
    requires
        bus.peek(c.pc) < 0x40,
    ensures
        ({
            let cb = bus.peek(c.pc);
            let r = cb % 8;
            let (c2, b2, cycles) = cb_spec(c, bus);
            let hl = word_reg(c, 2) as u16;
            &&& r != 6 ==> ({
                let (w, g) = shift_rotate_result(reg8(c, r), c.f, (cb / 8) as u8);
                reg8(c2, r) == w && c2.f == g && only_reg8_changed(Cpu { f: g, pc: c2.pc, ..c }, c2, r)
                    && c2.pc == wrap16(c.pc + 1) && b2 == bus && cycles == 8
            })
            &&& r == 6 ==> ({
                let (w, g) = shift_rotate_result(bus.peek(hl), c.f, (cb / 8) as u8);
                c2 == Cpu { f: g, pc: wrap16(c.pc + 1), ..c } && b2 == bus.after_write(hl, w) && cycles
                    == 16
            })
        }),
{
    let cb = bus.peek(c.pc);
    assert(cb < 0x40 ==> (cb / 8) % 8 == cb / 8 && cb / 64 == 0);
    assert(c.hl() == word_reg(c, 2));
}

/// RES and SET of the 0xCB prefix on (HL) write back at HL the byte with bit
/// b cleared or set and every other bit kept, in 16 cycles; BIT on (HL) only
/// sets the flags.
pub proof fn lemma_cb_bit_group_memory<B: Bus>(c: Cpu, bus: B, i: u8)
    requires
        i < 8,
        bus.peek(c.pc) % 8 == 6,
        bus.peek(c.pc) >= 0x40,
    ensures
        ({
            let cb = bus.peek(c.pc);
            let b = (cb / 8) % 8;
            let hl = word_reg(c, 2) as u16;
            let v = bus.peek(hl);
            let (c2, b2, cycles) = cb_spec(c, bus);
            &&& cycles == 16 && c2.pc == wrap16(c.pc + 1)
            &&& cb / 64 == 1 ==> b2 == bus && z_set(c2.f) == !bit(v, b) && h_set(c2.f) && !n_set(c2.f)
                && c_set(c2.f) == c_set(c.f)
            &&& cb / 64 >= 2 ==> c2 == Cpu { pc: c2.pc, ..c } && exists|w: u8|
                b2 == bus.after_write(hl, w) && bit(w, i) == (if cb / 64 == 2 {
                    i != b && bit(v, i)
                } else {
                    i == b || bit(v, i)
                })
        }),
{
    let cb = bus.peek(c.pc);
    let b = ((cb / 8) % 8) as u8;
    let hl = word_reg(c, 2) as u16;
    assert(c.hl() == hl);
    let v = bus.peek(hl);
    assert(((v & !(1u8 << b)) >> i) & 1 == 1 <==> (i != b && (v >> i) & 1 == 1)) by (bit_vector)
        requires
            i < 8,
            b < 8,
    ;
    assert(((v | (1u8 << b)) >> i) & 1 == 1 <==> (i == b || (v >> i) & 1 == 1)) by (bit_vector)
        requires
            i < 8,
            b < 8,
    ;
    assert((v & (1u8 << b) == 0) <==> !((v >> b) & 1 == 1)) by (bit_vector)
        requires
            b < 8,
    ;
    lemma_flag_byte_fields(v & (1u8 << b) == 0, false, true, (c.f / 16) % 2 == 1);
    if cb / 64 == 2 {
        let w = v & !(1u8 << b);
        assert(cb_spec(c, bus).1 == bus.after_write(hl, w) && bit(w, i) == (i != b && bit(v, i)));
    } else if cb / 64 == 3 {
        let w = v | (1u8 << b);
        assert(cb_spec(c, bus).1 == bus.after_write(hl, w) && bit(w, i) == (i == b || bit(v, i)));
    }
}

/// The interrupt lines that are requested at 0xFF0F and enabled at 0xFFFF.
pub open spec fn requested_and_enabled<B: Bus>(bus: B) -> u8 {
    bus.peek(0xFF0F) & bus.peek(0xFFFF) & 0x1F
}

/// A step: a stopped processor does nothing (4 cycles); a halted one does
/// nothing while no enabled line is requested (4 cycles) and wakes otherwise;
/// a running one with IME clear or nothing pending fetches the opcode at PC
/// and executes it with PC past the opcode.
pub proof fn lemma_step_fetch<B: Bus>(c: Cpu, bus: B)
    ensures
        c.stopped ==> step_spec(c, bus) == (c, bus, 4u32),
        !c.stopped && c.halted && requested_and_enabled(bus) == 0 ==> step_spec(c, bus) == (c, bus, 4u32),
        !c.stopped && (!c.halted || requested_and_enabled(bus) != 0) && (!c.ime || requested_and_enabled(bus)
            == 0) ==> step_spec(c, bus) == execute_spec(
            Cpu { pc: wrap16(c.pc + 1), halted: false, ..c },
            bus,
            bus.peek(c.pc),
        ),
{
}

/// With IME set and an enabled line requested, a step (of a processor not
/// stopped) enters the interrupt of the lowest such line k: IME and HALT
/// clear, PC pushed, the request bit k at 0xFF0F cleared (the other enabled
/// requests kept), PC at 0x40 + 8k, in 20 cycles.
#[verifier::spinoff_prover]
#[verifier::rlimit(50)]
pub proof fn lemma_step_interrupt<B: Bus>(c: Cpu, bus: B, k: u8)
    requires
        !c.stopped,
        c.ime,
        k < 5,
        bit(requested_and_enabled(bus), k),
        forall|j: u8| j < k ==> !#[trigger] bit(requested_and_enabled(bus), j),
    ensures
        ({
            let p = requested_and_enabled(bus);
            let (c2, b2, cycles) = step_spec(c, bus);
            &&& c2 == Cpu { pc: (0x40 + 8 * k) as u16, sp: wrap16(c.sp - 2), ime: false, halted: false, ..c }
            &&& exists|b1: B| pushed(bus, c.sp, c.pc as int, b1) && b2 == b1.after_write(
                0xFF0F,
                p & !(1u8 << k),
            )
            &&& cycles == 20
        }),
{
    let p = requested_and_enabled(bus);
    let awake = Cpu { halted: false, ..c };
    let (c1, b1) = Cpu { ime: false, ..awake }.push_spec(bus, c.pc);
    assert(pushed(bus, c.sp, c.pc as int, b1));
    if k == 0 {
        assert(p & 0x01u8 != 0 && p & !(1u8 << 0u8) == p & !0x01u8 && p != 0) by (bit_vector)
            requires
                (p >> 0u8) & 1 == 1,
        ;
        assert(b1.after_write(0xFF0F, p & !(1u8 << k)) == step_spec(c, bus).1);
    } else if k == 1 {
        assert(!bit(p, 0));
        assert(p & 0x01u8 == 0 && p & 0x02u8 != 0 && p & !(1u8 << 1u8) == p & !0x02u8 && p != 0) by (bit_vector)
            requires
                (p >> 0u8) & 1 != 1,
                (p >> 1u8) & 1 == 1,
        ;
        assert(b1.after_write(0xFF0F, p & !(1u8 << k)) == step_spec(c, bus).1);
    } else if k == 2 {
        assert(!bit(p, 0));
        assert(!bit(p, 1));
        assert(p & 0x01u8 == 0 && p & 0x02u8 == 0 && p & 0x04u8 != 0
            && p & !(1u8 << 2u8) == p & !0x04u8 && p != 0) by (bit_vector)
            requires
                (p >> 0u8) & 1 != 1,
                (p >> 1u8) & 1 != 1,
                (p >> 2u8) & 1 == 1,
        ;
        assert(b1.after_write(0xFF0F, p & !(1u8 << k)) == step_spec(c, bus).1);
    } else if k == 3 {
        assert(!bit(p, 0));
        assert(!bit(p, 1));
        assert(!bit(p, 2));
        assert(p & 0x01u8 == 0 && p & 0x02u8 == 0 && p & 0x04u8 == 0 && p & 0x08u8 != 0
            && p & !(1u8 << 3u8) == p & !0x08u8 && p != 0) by (bit_vector)
            requires
                (p >> 0u8) & 1 != 1,
                (p >> 1u8) & 1 != 1,
                (p >> 2u8) & 1 != 1,
                (p >> 3u8) & 1 == 1,
        ;
        assert(b1.after_write(0xFF0F, p & !(1u8 << k)) == step_spec(c, bus).1);
    } else if k == 4 {
        assert(!bit(p, 0));
        assert(!bit(p, 1));
        assert(!bit(p, 2));
        assert(!bit(p, 3));
        assert(p & 0x01u8 == 0 && p & 0x02u8 == 0 && p & 0x04u8 == 0 && p & 0x08u8 == 0
            && p & 0x10u8 != 0 && p & !(1u8 << 4u8) == p & !0x10u8 && p != 0) by (bit_vector)
            requires
                (p >> 0u8) & 1 != 1,
                (p >> 1u8) & 1 != 1,
                (p >> 2u8) & 1 != 1,
                (p >> 3u8) & 1 != 1,
                (p >> 4u8) & 1 == 1,
        ;
        assert(b1.after_write(0xFF0F, p & !(1u8 << k)) == step_spec(c, bus).1);
    }
    assert(exists|bb: B| pushed(bus, c.sp, c.pc as int, bb) && step_spec(c, bus).1 == bb.after_write(
        0xFF0F,
        p & !(1u8 << k),
    ));
}

} // verus!
