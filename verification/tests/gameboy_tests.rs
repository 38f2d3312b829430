use celsius::bus::Bus;
use celsius::cpu::{Cpu, Registers};
use celsius::ram::Mmu;
use celsius::GameBoy;

fn rom_with(program: &[u8]) -> Vec<u8> {
    let mut rom = vec![0u8; 0x8000];
    rom[0x0100..0x0100 + program.len()].copy_from_slice(program);
    rom
}

#[test]
fn registers_new() {
    let regs = Registers::new();
    assert_eq!((regs.a, regs.f, regs.b, regs.c, regs.d, regs.e, regs.h, regs.l), (0, 0, 0, 0, 0, 0, 0, 0));
    assert_eq!(regs.pc, 0x0100);
    assert_eq!(regs.sp, 0xFFFE);
}

#[test]
fn cpu_new_not_halted() {
    let cpu = Cpu::new();
    assert!(!cpu.halted);
    assert_eq!(cpu.regs.pc, 0x0100);
}

#[test]
fn cpu_step_nop_and_load_a() {
    let rom = rom_with(&[0x00, 0x3E, 0x42, 0x00]);
    let mut mmu = Mmu::new(&rom);
    let mut cpu = Cpu::new();
    cpu.step(&mut mmu);
    assert_eq!(cpu.regs.pc, 0x0101);
    cpu.step(&mut mmu);
    assert_eq!(cpu.regs.a, 0x42);
    assert_eq!(cpu.regs.pc, 0x0103);
    assert_eq!(mmu.read(0x0102), 0x42);
}

#[test]
fn cpu_step_halted_does_nothing() {
    let rom = rom_with(&[0x3E, 0x42]);
    let mut mmu = Mmu::new(&rom);
    let mut cpu = Cpu::new();
    cpu.halted = true;
    cpu.step(&mut mmu);
    assert_eq!(cpu.regs.pc, 0x0100);
    assert_eq!(cpu.regs.a, 0);
}

#[test]
fn gameboy_runs_rom() {
    let rom = rom_with(&[0x00, 0x00, 0x3E, 0x7F]);
    let mut gb = GameBoy::new(&rom);
    assert_eq!(gb.cpu.regs.pc, 0x0100);
    assert_eq!(gb.mmu.read(0x0102), 0x3E);
    assert!(gb.ppu.screen_data.iter().all(|p| *p == 0));
    gb.step();
    gb.step();
    gb.step();
    assert_eq!(gb.cpu.regs.a, 0x7F);
    assert_eq!(gb.cpu.regs.pc, 0x0104);
}
