use vstd::prelude::*;

verus! {

/// Byte arithmetic modulo 256.
pub open spec fn wrap8(x: int) -> u8 {
    (x % 256) as u8
}

/// Word arithmetic modulo 65536.
pub open spec fn wrap16(x: int) -> u16 {
    (x % 65536) as u16
}

/// The two's-complement value of a byte.
pub open spec fn signed8(x: u8) -> int {
    if x < 128 {
        x as int
    } else {
        x - 256
    }
}

/// `wrap8` on the small range that byte arithmetic produces.
pub proof fn lemma_wrap8(x: int)
    requires
        -512 <= x < 512,
    ensures
        0 <= x < 256 ==> wrap8(x) == x,
        -256 <= x < 0 ==> wrap8(x) == x + 256,
        -512 <= x < -256 ==> wrap8(x) == x + 512,
        256 <= x < 512 ==> wrap8(x) == x - 256,
        wrap8(x) == 0 <==> (x == 0 || x == 256 || x == -256 || x == -512),
{
}

/// `wrap16` on the small range that word arithmetic produces.
pub proof fn lemma_wrap16(x: int)
    requires
        -131072 <= x < 131072,
    ensures
        0 <= x < 65536 ==> wrap16(x) == x,
        -65536 <= x < 0 ==> wrap16(x) == x + 65536,
        x < -65536 ==> wrap16(x) == x + 131072,
        65536 <= x ==> wrap16(x) == x - 65536,
{
}

/// Single-bit masks and shifts of a byte, stated as arithmetic.
pub proof fn lemma_byte_fields(v: u8)
    by (bit_vector)
    ensures
        (v >> 7) & 1 == v / 128,
        v >> 7 == v / 128,
        v & 1 == v % 2,
        v >> 1 == v / 2,
        v >> 4 == v / 16,
        v & 0x0F == v % 16,
        v & 0x80 == (v / 128) * 128,
        (v >> 4) & 1 == (v / 16) % 2,
        v >> 3 == v / 8,
        (v >> 3) & 7 == (v / 8) % 8,
        (v >> 3) & 3 == (v / 8) % 4,
        v & 7 == v % 8,
        v >> 6 == v / 64,
        v & 0x38 == ((v / 8) % 8) * 8,
        v & 0x10 == ((v / 16) % 2) * 16,
        v & 0x20 == ((v / 32) % 2) * 32,
        v & 0x40 == ((v / 64) % 2) * 64,
{
}

/// Low-bit masks of a byte, stated as remainders.
pub proof fn lemma_byte_masks(v: u8)
    by (bit_vector)
    ensures
        v & 0x1F == v % 32,
        v & 0x03 == v % 4,
        v & 0x0F == v % 16,
        v & 0x30 == ((v / 16) % 4) * 16,
{
}

/// Flag bits that occupy distinct positions combine by addition.
pub proof fn lemma_flag_bits(z: u8, n: u8, h: u8, c: u8)
    by (bit_vector)
    requires
        z == 0 || z == 0x80,
        n == 0 || n == 0x40,
        h == 0 || h == 0x20,
        c == 0 || c == 0x10,
    ensures
        (z | n | h | c) as u16 == z as u16 + n as u16 + h as u16 + c as u16,
{
}

/// Rotating a byte left through a bit `c`.
pub proof fn lemma_rotate_left(v: u8, c: u8)
    by (bit_vector)
    requires
        c <= 1,
    ensures
        ((v << 1) | c) as u16 == (v as u16 * 2) % 256 + c as u16,
{
}

/// Rotating a byte right through a bit `c`.
pub proof fn lemma_rotate_right(v: u8, c: u8)
    by (bit_vector)
    requires
        c <= 1,
    ensures
        ((v >> 1) | (c << 7)) as u16 == (v / 2) as u16 + c as u16 * 128,
{
}

/// The arithmetic right shift of a byte keeps bit 7.
pub proof fn lemma_shift_right_arith(v: u8)
    by (bit_vector)
    ensures
        ((v >> 1) | (v & 0x80)) as u16 == (v / 2) as u16 + (v / 128) as u16 * 128,
{
}

/// Swapping the nibbles of a byte.
pub proof fn lemma_swap_nibbles(v: u8)
    by (bit_vector)
    ensures
        ((v >> 4) | (v << 4)) as u16 == (v / 16) as u16 + (v % 16) as u16 * 16,
{
}

/// Shifting a byte left by one.
pub proof fn lemma_shift_left(v: u8)
    by (bit_vector)
    ensures
        (v << 1) as u16 == (v as u16 * 2) % 256,
{
}

/// Joining two bytes into a word and splitting a word into two bytes.
pub proof fn lemma_word_bytes(w: u16, hi: u8, lo: u8)
    by (bit_vector)
    ensures
        ((hi as u16) << 8) | (lo as u16) == hi as u16 * 256 + lo as u16,
        (w >> 8) as u8 as u16 == w / 256,
        w as u8 as u16 == w % 256,
        (w & 0xFF) as u8 as u16 == w % 256,
        w & 0x0F == w % 16,
        w & 0xFF == w % 256,
        w & 0x0FFF == w % 4096,
        w < 256 ==> 0xFF00 | w == 0xFF00 + w,
        (w & 0xF0) as u8 as u16 == ((w % 256) / 16) * 16,
{
}

/// Sign extension of a byte to a word.
pub proof fn lemma_sign_extend(b: u8)
    by (bit_vector)
    ensures
        b < 128 ==> (b as i8 as i16 as u16) == b as u16,
        b >= 128 ==> (b as i8 as i16 as u16) == b as u16 + 0xFF00,
{
}

} // verus!
