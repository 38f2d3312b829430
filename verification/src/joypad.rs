//! The joypad register at 0xFF00: two select lines (bits 4 and 5, active low)
//! choose which half of the eight button states (active low) appears in bits
//! 0..3.

use vstd::prelude::*;

verus! {

/// The value that a read of 0xFF00 gives for the select lines in the high
/// nibble of `registers` and the button states `state` (bits 7..0: down, up,
/// left, right, start, select, B, A; 0 is pressed). Bits 0..3 hold the
/// buttons when only the button line (bit 4) is low, the D-pad when only the
/// D-pad line (bit 5) is low, both ANDed when both are low, and all ones
/// otherwise. Bits 6 and 7 read as 1.
pub open spec fn joypad_value(registers: u8, state: u8) -> u8 {
    let select = registers >> 4;
    let buttons = state & 0x0F;
    let dpad = state >> 4;
    let low: u8 = if select == 0x0E {
        buttons
    } else if select == 0x0D {
        dpad
    } else if select == 0x0C {
        buttons & dpad
    } else {
        0x0F
    };
    (select << 4) | low | 0xC0
}

/// The select register as a write of `value` leaves it: bits 4 and 5 from
/// `value`, bits 6 and 7 set, bits 0..3 clear.
pub open spec fn select_after_write(value: u8) -> u8 {
    (value & 0x30) | 0xC0
}

/// The joypad: the select lines as last written and the button states.
pub struct Joypad {
    /// The select lines P14 (bit 4) and P15 (bit 5).
    pub registers: u8,
    /// The button states, 1 for released.
    pub state: u8,
}

impl Joypad {
    /// No line selected and no button pressed.
    pub fn new() -> (pad: Self)
        ensures
            pad.registers == 0xFF,
            pad.state == 0xFF,
    {
        Joypad { registers: 255, state: 0xFF }
    }

    /// The value of 0xFF00.
    pub fn read(&self) -> (value: u8)
        ensures
            value == joypad_value(self.registers, self.state),
    {
        let mskd_rgstrs = self.registers & 0b_1111_0000;
        let shftd_rgstrs = mskd_rgstrs >> 4;
        let stt = self.state;
        proof {
            let r = self.registers;
            let s = stt;
            assert((r & 0xF0) >> 4 == r >> 4) by (bit_vector);
            assert((s & 0xF0) >> 4 == s >> 4) by (bit_vector);
        }
        let value = match shftd_rgstrs {
            0b_1110 => (shftd_rgstrs << 4) | (stt & 0b_0000_1111),
            0b_1101 => (shftd_rgstrs << 4) | ((stt & 0b_1111_0000) >> 4),
            0b_1100 => {
                let btns = stt & 0b_0000_1111;
                let dpd = (stt & 0b_1111_0000) >> 4;
                (shftd_rgstrs << 4) | (btns & dpd)
            },
            _ => (shftd_rgstrs << 4) | 0b_0000_1111,
        };
        value | 0b_1100_0000
    }

    /// A write to 0xFF00: only the select lines are taken.
    pub fn register_write(&mut self, value: u8)
        ensures
            final(self).registers == select_after_write(value),
            final(self).state == old(self).state,
    {
        let selection = (value & 0b_0011_0000) | 0b_1100_0000;
        self.registers = selection;
    }

    /// Records the button states (1 for released).
    pub fn state_write(&mut self, value: u8)
        ensures
            final(self).state == value,
            final(self).registers == old(self).registers,
    {
        self.state = value;
    }
}

/// Bits 6 and 7 of the joypad register always read as 1, and after a write
/// of `value` bits 4 and 5 read back as written. With only the button line
/// low (bit 4 clear, bit 5 set) the low nibble is the button states; with
/// only the D-pad line low, the D-pad states; with both low, both ANDed; with
/// neither, all ones (nothing pressed).
pub proof fn lemma_read_after_select(value: u8, state: u8)
    ensures
        joypad_value(select_after_write(value), state) & 0xC0 == 0xC0,
        joypad_value(select_after_write(value), state) & 0x30 == value & 0x30,
        value & 0x30 == 0x20 ==> joypad_value(select_after_write(value), state) & 0x0F == state
            & 0x0F,
        value & 0x30 == 0x10 ==> joypad_value(select_after_write(value), state) & 0x0F == state
            >> 4,
        value & 0x30 == 0x00 ==> joypad_value(select_after_write(value), state) & 0x0F == (state
            & 0x0F) & (state >> 4),
        value & 0x30 == 0x30 ==> joypad_value(select_after_write(value), state) & 0x0F == 0x0F,
{
    assert(({
        let registers = (value & 0x30) | 0xC0;
        let select = registers >> 4;
        let buttons = state & 0x0F;
        let dpad = state >> 4;
        let low: u8 = if select == 0x0E {
            buttons
        } else if select == 0x0D {
            dpad
        } else if select == 0x0C {
            buttons & dpad
        } else {
            0x0F
        };
        let r = (select << 4) | low | 0xC0;
        &&& r & 0xC0 == 0xC0
        &&& r & 0x30 == value & 0x30
        &&& (value & 0x30 == 0x20 ==> r & 0x0F == state & 0x0F)
        &&& (value & 0x30 == 0x10 ==> r & 0x0F == state >> 4)
        &&& (value & 0x30 == 0x00 ==> r & 0x0F == (state & 0x0F) & (state >> 4))
        &&& (value & 0x30 == 0x30 ==> r & 0x0F == 0x0F)
    })) by (bit_vector);
}

/// Any joypad register value has bits 6 and 7 set.
pub proof fn lemma_read_high_bits(registers: u8, state: u8)
    ensures
        joypad_value(registers, state) & 0xC0 == 0xC0,
{
    assert(({
        let select = registers >> 4;
        let low: u8 = if select == 0x0E {
            state & 0x0F
        } else if select == 0x0D {
            state >> 4
        } else if select == 0x0C {
            (state & 0x0F) & (state >> 4)
        } else {
            0x0F
        };
        ((select << 4) | low | 0xC0) & 0xC0 == 0xC0
    })) by (bit_vector);
}

} // verus!
