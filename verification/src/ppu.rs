//! The picture processing unit's state.

use vstd::prelude::*;

verus! {

/// The PPU mode, as bits 0..1 of STAT (0xFF41).
#[derive(Clone, Copy, Debug, PartialEq, Eq, Structural)]
pub enum Mode {
    /// Mode 0: end of a line.
    HBlank,
    /// Mode 1: end of a frame.
    VBlank,
    /// Mode 2: object attribute search.
    OamSearch,
    /// Mode 3: pixel transfer.
    PixelTransfer,
}

/// The frame buffer (160 x 144 pixels) and the LCD state that the bus mirrors.
pub struct Ppu {
    pub screen_data: [u8; 23040],
    /// STAT bits 0..1.
    pub ppu_mode: Mode,
    /// LCDC (0xFF40) bit 7.
    pub lcd_is_enabled: bool,
    /// LY (0xFF44): the line being drawn, 0..=153, 144..=153 in V-blank.
    pub ly: u8,
    /// LYC (0xFF45): compared with LY for the STAT interrupt.
    pub lyc: u8,
}

impl Ppu {
    /// A blank screen, LCD off, line 0, H-blank.
    pub fn new() -> (ppu: Self)
        ensures
            forall|i: int| 0 <= i < 23040 ==> ppu.screen_data@[i] == 0,
            ppu.ppu_mode == Mode::HBlank,
            !ppu.lcd_is_enabled,
            ppu.ly == 0,
            ppu.lyc == 0,
    {
        Ppu { screen_data: [0; 23040], ppu_mode: Mode::HBlank, lcd_is_enabled: false, ly: 0, lyc: 0 }
    }

    /// Advances the PPU; the model draws nothing yet, so the state is kept.
    pub fn step(&mut self)
        ensures
            *final(self) == *old(self),
    {
    }
}

} // verus!
