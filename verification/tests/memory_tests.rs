use celsius::bus::Bus;
use celsius::ram::Mmu;

fn rom_image() -> Vec<u8> {
    let mut rom = vec![0u8; 0x8000];
    for (i, byte) in rom.iter_mut().enumerate() {
        *byte = (i % 251) as u8;
    }
    rom
}

#[test]
fn mmu_reads_rom() {
    let rom = rom_image();
    let mmu = Mmu::new(&rom);
    assert_eq!(mmu.read(0x0000), 0);
    assert_eq!(mmu.read(0x0100), (0x0100 % 251) as u8);
    assert_eq!(mmu.read(0x7FFF), (0x7FFF % 251) as u8);
}

#[test]
fn mmu_unmapped_reads_ff() {
    let rom = rom_image();
    let mmu = Mmu::new(&rom);
    assert_eq!(mmu.read(0x8000), 0xFF);
    assert_eq!(mmu.read(0xA000), 0xFF);
    assert_eq!(mmu.read(0xFF00), 0xFF);
    assert_eq!(mmu.read(0xFFFF), 0xFF);
}

#[test]
fn mmu_ram_starts_cleared() {
    let rom = rom_image();
    let mmu = Mmu::new(&rom);
    assert_eq!(mmu.read(0xC000), 0);
    assert_eq!(mmu.read(0xDFFF), 0);
    assert_eq!(mmu.read(0xFF80), 0);
    assert_eq!(mmu.read(0xFFFE), 0);
}

#[test]
fn mmu_read_after_write_work_ram() {
    let rom = rom_image();
    let mut mmu = Mmu::new(&rom);
    mmu.write(0xC123, 0x5A);
    assert_eq!(mmu.read(0xC123), 0x5A);
    assert_eq!(mmu.read(0xC124), 0);
    assert_eq!(mmu.wram[0x123], 0x5A);
    mmu.write(0xDFFF, 0x77);
    assert_eq!(mmu.read(0xDFFF), 0x77);
}

#[test]
fn mmu_read_after_write_high_ram() {
    let rom = rom_image();
    let mut mmu = Mmu::new(&rom);
    mmu.write(0xFF80, 0x11);
    mmu.write(0xFFFE, 0x22);
    assert_eq!(mmu.read(0xFF80), 0x11);
    assert_eq!(mmu.read(0xFFFE), 0x22);
    assert_eq!(mmu.hram[0], 0x11);
    assert_eq!(mmu.hram[126], 0x22);
}

#[test]
fn mmu_write_outside_ram_ignored() {
    let rom = rom_image();
    let mut mmu = Mmu::new(&rom);
    mmu.write(0x0100, 0x99);
    mmu.write(0xFF0F, 0x99);
    mmu.write(0xFFFF, 0x99);
    mmu.write(0x9000, 0x99);
    assert_eq!(mmu.read(0x0100), (0x0100 % 251) as u8);
    assert_eq!(mmu.read(0xFF0F), 0xFF);
    assert_eq!(mmu.read(0xFFFF), 0xFF);
    assert!(mmu.wram.iter().all(|b| *b == 0));
    assert!(mmu.hram.iter().all(|b| *b == 0));
}
