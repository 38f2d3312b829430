//! A Game Boy core: the processor, the memory map, the cartridge controller,
//! the joypad and the PPU state.

pub mod bits;
pub mod bus;
pub mod catridge;
pub mod cpu;
pub mod cpu_v2;
pub mod cpu_v2_laws;
pub mod cpu_v2_spec;
pub mod instruction_laws;
pub mod joypad;
pub mod ppu;
pub mod ram;

use vstd::prelude::*;

verus! {

/// The machine: the processor on the memory map, and the PPU.
pub struct GameBoy<'a> {
    pub cpu: cpu::Cpu,
    pub mmu: ram::Mmu<'a>,
    pub ppu: ppu::Ppu,
}

impl<'a> GameBoy<'a> {
    /// Powers on with `rom` mapped at 0x0000.
    pub fn new(rom: &'a [u8]) -> (gb: Self)
        ensures
            gb.cpu.regs.a == 0 && gb.cpu.regs.f == 0 && gb.cpu.regs.b == 0 && gb.cpu.regs.c == 0,
            gb.cpu.regs.d == 0 && gb.cpu.regs.e == 0 && gb.cpu.regs.h == 0 && gb.cpu.regs.l == 0,
            gb.cpu.regs.pc == 0x0100,
            gb.cpu.regs.sp == 0xFFFE,
            !gb.cpu.halted,
            gb.mmu.rom@ == rom@,
            forall|i: int| 0 <= i < 8192 ==> gb.mmu.wram@[i] == 0,
            forall|i: int| 0 <= i < 127 ==> gb.mmu.hram@[i] == 0,
            forall|i: int| 0 <= i < 23040 ==> gb.ppu.screen_data@[i] == 0,
            gb.ppu.ppu_mode == ppu::Mode::HBlank,
            !gb.ppu.lcd_is_enabled,
            gb.ppu.ly == 0,
            gb.ppu.lyc == 0,
    {
        GameBoy { cpu: cpu::Cpu::new(), mmu: ram::Mmu::new(rom), ppu: ppu::Ppu::new() }
    }

    /// One processor step on the memory map.
    pub fn step(&mut self)
        requires
            cpu::step_defined(old(self).cpu, old(self).mmu),
        ensures
            final(self).cpu == cpu::step_result(old(self).cpu, old(self).mmu),
            final(self).mmu == old(self).mmu,
            final(self).ppu == old(self).ppu,
    {
        self.cpu.step(&mut self.mmu);
    }
}

} // verus!
