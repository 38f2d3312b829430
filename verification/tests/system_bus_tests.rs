use celsius::bus::{Bus, SystemBus};
use celsius::cpu_v2::Cpu;
use celsius::ram::Mmu;

fn boot_image() -> [u8; 256] {
    let mut boot = [0u8; 256];
    for (i, byte) in boot.iter_mut().enumerate() {
        *byte = 0xA0 ^ (i as u8);
    }
    boot
}

#[test]
fn system_bus_new_state() {
    let rom = vec![0x11u8; 0x8000];
    let bus = SystemBus::new(Mmu::new(&rom), boot_image());
    assert!(!bus.boot_disabled && !bus.cpu_lock && !bus.ppu_lock);
    assert_eq!(bus.boot_rom[3], 0xA3);
}

#[test]
fn boot_rom_overlays_low_addresses_until_switched_off() {
    let rom = vec![0x11u8; 0x8000];
    let mut bus = SystemBus::new(Mmu::new(&rom), boot_image());
    assert_eq!(bus.read(0x0000), 0xA0);
    assert_eq!(bus.read(0x00FF), 0xA0 ^ 0xFF);
    assert_eq!(bus.read(0x0100), 0x11);
    bus.write(0xFF50, 0x01);
    assert!(bus.boot_disabled);
    assert_eq!(bus.read(0x0000), 0x11);
    assert_eq!(bus.read(0x00FF), 0x11);
    bus.write(0xFF50, 0x00);
    assert_eq!(bus.read(0x0000), 0x11);
}

#[test]
fn system_bus_passes_other_accesses_through() {
    let rom = vec![0x11u8; 0x8000];
    let mut bus = SystemBus::new(Mmu::new(&rom), boot_image());
    bus.write(0xC000, 0x42);
    assert_eq!(bus.read(0xC000), 0x42);
    assert_eq!(bus.memory.read(0xC000), 0x42);
    bus.write(0x0010, 0x99);
    assert_eq!(bus.read(0x0010), 0xA0 ^ 0x10);
}

#[test]
fn processor_runs_from_the_boot_rom() {
    let rom = vec![0x00u8; 0x8000];
    let mut boot = [0u8; 256];
    boot[0] = 0x3E;
    boot[1] = 0x01;
    boot[2] = 0xE0;
    boot[3] = 0x50;
    let mut bus = SystemBus::new(Mmu::new(&rom), boot);
    let mut cpu = Cpu::new();
    cpu.pc = 0x0000;
    assert_eq!(cpu.step(&mut bus), 8);
    assert_eq!(cpu.a, 0x01);
    assert_eq!(cpu.step(&mut bus), 12);
    assert!(bus.boot_disabled);
    assert_eq!(bus.read(0x0000), 0x00);
}

#[test]
fn step_runs_on_a_short_rom() {
    let mut rom = vec![0u8; 0x200];
    rom[0x0100] = 0x00;
    rom[0x0101] = 0x3C;
    let mut mmu = Mmu::new(&rom);
    let mut cpu = Cpu::new();
    assert_eq!(cpu.step(&mut mmu), 4);
    assert_eq!(cpu.step(&mut mmu), 4);
    assert_eq!(cpu.a, 1);
    assert_eq!(cpu.pc, 0x0102);
}
