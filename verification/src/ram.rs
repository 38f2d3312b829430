use vstd::prelude::*;
use vstd::array::spec_array_update;
use crate::bus::Bus;

verus! {

/// Start of the work RAM window.
pub const WRAM_START: u16 = 0xC000;
/// Last address of the work RAM window.
pub const WRAM_END: u16 = 0xDFFF;
/// Start of the high RAM window.
pub const HRAM_START: u16 = 0xFF80;
/// Last address of the high RAM window.
pub const HRAM_END: u16 = 0xFFFE;

/// Whether `address` lies in work RAM or high RAM, the writable windows.
pub open spec fn is_ram(address: u16) -> bool {
    (WRAM_START <= address <= WRAM_END) || (HRAM_START <= address <= HRAM_END)
}

/// A flat memory map: the cartridge ROM at `0x0000..=0x7FFF`, 8 KiB of work RAM
/// at `0xC000..=0xDFFF` and 127 bytes of high RAM at `0xFF80..=0xFFFE`.
/// Reads elsewhere give `0xFF`; writes elsewhere are ignored.
pub struct Mmu<'a> {
    pub rom: &'a [u8],
    pub wram: [u8; 8192],
    pub hram: [u8; 127],
}

impl<'a> Mmu<'a> {
    pub fn new(rom: &'a [u8]) -> (mmu: Self)
        ensures
            mmu.rom@ == rom@,
            forall|i: int| 0 <= i < 8192 ==> mmu.wram@[i] == 0,
            forall|i: int| 0 <= i < 127 ==> mmu.hram@[i] == 0,
    {
        Mmu { rom, wram: [0; 8192], hram: [0; 127] }
    }
}

impl<'a> Bus for Mmu<'a> {
    open spec fn peek(&self, address: u16) -> u8 {
        if address <= 0x7FFF {
            self.rom@[address as int]
        } else if WRAM_START <= address <= WRAM_END {
            self.wram@[address - WRAM_START]
        } else if HRAM_START <= address <= HRAM_END {
            self.hram@[address - HRAM_START]
        } else {
            0xFF
        }
    }

    open spec fn after_write(self, address: u16, value: u8) -> Self {
        if WRAM_START <= address <= WRAM_END {
            Mmu { wram: spec_array_update(self.wram, address - WRAM_START, value), ..self }
        } else if HRAM_START <= address <= HRAM_END {
            Mmu { hram: spec_array_update(self.hram, address - HRAM_START, value), ..self }
        } else {
            self
        }
    }

    open spec fn readable(&self, address: u16) -> bool {
        address <= 0x7FFF ==> address < self.rom@.len()
    }

    fn read(&self, address: u16) -> (value: u8) {
        if address <= 0x7FFF {
            self.rom[address as usize]
        } else if WRAM_START <= address && address <= WRAM_END {
            self.wram[(address - WRAM_START) as usize]
        } else if HRAM_START <= address && address <= HRAM_END {
            self.hram[(address - HRAM_START) as usize]
        } else {
            0xFF
        }
    }

    fn write(&mut self, address: u16, value: u8) {
        if WRAM_START <= address && address <= WRAM_END {
            self.wram[(address - WRAM_START) as usize] = value;
        } else if HRAM_START <= address && address <= HRAM_END {
            self.hram[(address - HRAM_START) as usize] = value;
        }
    }
}

/// A read of a RAM address gives back the byte last written there, and a
/// write leaves every other address as it was.
pub proof fn lemma_read_after_write<'a>(mmu: Mmu<'a>, address: u16, value: u8, other: u16)
    requires
        is_ram(address),
    ensures
        mmu.after_write(address, value).peek(address) == value,
        other != address ==> mmu.after_write(address, value).peek(other) == mmu.peek(other),
{
}

/// A write outside RAM (ROM, I/O, unmapped) changes nothing.
pub proof fn lemma_write_outside_ram_ignored<'a>(mmu: Mmu<'a>, address: u16, value: u8)
    requires
        !is_ram(address),
    ensures
        mmu.after_write(address, value) == mmu,
{
}

/// Writes keep the ROM, so they keep which addresses are readable.
pub proof fn lemma_write_keeps_readable<'a>(mmu: Mmu<'a>, address: u16, value: u8, other: u16)
    ensures
        mmu.after_write(address, value).readable(other) == mmu.readable(other),
{
}

/// The memory map's windows: a read below 0x8000 gives the ROM byte at that
/// address; work RAM address 0xC000 + i and high RAM address 0xFF80 + i are
/// byte i of their arrays, for reads and writes; elsewhere reads give 0xFF.
pub proof fn lemma_memory_windows<'a>(mmu: Mmu<'a>, address: u16, value: u8)
    ensures
        address <= 0x7FFF ==> mmu.peek(address) == mmu.rom@[address as int],
        0xC000 <= address <= 0xDFFF ==> mmu.peek(address) == mmu.wram@[address - 0xC000]
            && mmu.after_write(address, value).wram@ == mmu.wram@.update(address - 0xC000, value)
            && mmu.after_write(address, value).hram == mmu.hram,
        0xFF80 <= address <= 0xFFFE ==> mmu.peek(address) == mmu.hram@[address - 0xFF80]
            && mmu.after_write(address, value).hram@ == mmu.hram@.update(address - 0xFF80, value)
            && mmu.after_write(address, value).wram == mmu.wram,
        (0x8000 <= address < 0xC000 || 0xE000 <= address < 0xFF80 || address == 0xFFFF) ==> mmu.peek(
            address,
        ) == 0xFF,
        mmu.after_write(address, value).rom == mmu.rom,
{
}

} // verus!
