use celsius::catridge::Catridge;

fn rom(kind: u8, ram_code: u8, banks: usize) -> Vec<u8> {
    let mut data = vec![0u8; banks * 0x4000];
    for bank in 0..banks {
        data[bank * 0x4000] = bank as u8;
        data[bank * 0x4000 + 1] = 0xB0 + bank as u8;
    }
    data[0x0147] = kind;
    data[0x0149] = ram_code;
    data
}

#[test]
fn new_selects_bank_one_and_locks_ram() {
    let cart = Catridge::new(rom(0x01, 0x03, 4));
    assert_eq!(cart.read_rom_bank_00(0), 0);
    assert_eq!(cart.read_rom_bank_00(0x0147), 0x01);
    assert_eq!(cart.read_rom_bank_01(0), 1);
    assert_eq!(cart.read_rom_bank_01(1), 0xB1);
    assert_eq!(cart.read_rom_ext_ram(0), 0xFF);
}

#[test]
fn rom_bank_select_and_zero_quirk() {
    let mut cart = Catridge::new(rom(0x01, 0x00, 4));
    cart.write(0x2000, 0x03);
    assert_eq!(cart.read_rom_bank_01(0), 3);
    cart.write(0x3FFF, 0x00);
    assert_eq!(cart.read_rom_bank_01(0), 1);
    cart.write(0x2100, 0x22);
    assert_eq!(cart.read_rom_bank_01(0), 2);
    cart.write(0x2000, 0x1F);
    assert_eq!(cart.read_rom_bank_01(0), 0xFF);
}

#[test]
fn external_ram_lock_and_read_after_write() {
    let mut cart = Catridge::new(rom(0x01, 0x03, 2));
    cart.write(0xA000, 0x42);
    cart.write(0x0000, 0x0A);
    assert_eq!(cart.read_rom_ext_ram(0), 0x00);
    cart.write(0xA000, 0x42);
    cart.write(0xBFFF, 0x24);
    assert_eq!(cart.read_rom_ext_ram(0), 0x42);
    assert_eq!(cart.read_rom_ext_ram(0x1FFF), 0x24);
    cart.write(0x4000, 0x01);
    assert_eq!(cart.read_rom_ext_ram(0), 0x00);
    cart.write(0xA000, 0x55);
    assert_eq!(cart.read_rom_ext_ram(0), 0x55);
    cart.write(0x4000, 0x00);
    assert_eq!(cart.read_rom_ext_ram(0), 0x42);
    cart.write(0x1FFF, 0x1A);
    assert_eq!(cart.read_rom_ext_ram(0), 0x42);
    cart.write(0x0000, 0x00);
    assert_eq!(cart.read_rom_ext_ram(0), 0xFF);
}

#[test]
fn ram_bank_select_masks_without_mbc3() {
    let mut cart = Catridge::new(rom(0x01, 0x03, 2));
    cart.write(0x0000, 0x0A);
    cart.write(0x4000, 0x07);
    cart.write(0xA000, 0x99);
    cart.write(0x4000, 0x03);
    assert_eq!(cart.read_rom_ext_ram(0), 0x99);
}

#[test]
fn small_ram_reads_ff_past_its_end() {
    let mut cart = Catridge::new(rom(0x01, 0x02, 2));
    cart.write(0x0000, 0x0A);
    cart.write(0x4000, 0x01);
    cart.write(0xA000, 0x12);
    assert_eq!(cart.read_rom_ext_ram(0), 0xFF);
}

#[test]
fn no_ram_cartridge_reads_ff() {
    let mut cart = Catridge::new(rom(0x00, 0x00, 2));
    cart.write(0x0000, 0x0A);
    cart.write(0xA000, 0x12);
    assert_eq!(cart.read_rom_ext_ram(0), 0xFF);
}

#[test]
fn ram_size_codes() {
    for (code, size) in [(0x01u8, 0usize), (0x02, 0x2000), (0x03, 0x8000), (0x04, 0x20000), (0x05, 0x10000)] {
        let mut cart = Catridge::new(rom(0x01, code, 2));
        cart.write(0x0000, 0x0A);
        if size == 0 {
            assert_eq!(cart.read_rom_ext_ram(0), 0xFF);
        } else {
            let last_bank = ((size - 1) / 0x2000).min(3);
            cart.write(0x4000, last_bank as u8);
            let offset = (size - 1) - last_bank * 0x2000;
            if offset < 0x2000 {
                cart.write(0xA000 + offset as u16, 0x3C);
                assert_eq!(cart.read_rom_ext_ram(offset), 0x3C);
            }
        }
    }
}

#[test]
fn mbc3_clock_registers() {
    let mut cart = Catridge::new(rom(0x10, 0x03, 2));
    cart.write(0x0000, 0x0A);
    cart.latch_clock_at(3 * 3600 + 25 * 60 + 47);
    cart.write(0x4000, 0x08);
    assert_eq!(cart.read_rom_ext_ram(0), 47);
    cart.write(0x4000, 0x09);
    assert_eq!(cart.read_rom_ext_ram(0), 25);
    cart.write(0x4000, 0x0A);
    assert_eq!(cart.read_rom_ext_ram(0), 3);
    cart.write(0x4000, 0x0B);
    assert_eq!(cart.read_rom_ext_ram(0), 0);
    cart.write(0x4000, 0x07);
    assert_eq!(cart.read_rom_ext_ram(0), 0);
    cart.write(0x4000, 0x0D);
    assert_eq!(cart.read_rom_ext_ram(0), 0);
    cart.latch_clock_at(86_400 + 59);
    cart.write(0x4000, 0x08);
    assert_eq!(cart.read_rom_ext_ram(0), 59);
    cart.write(0x4000, 0x0A);
    assert_eq!(cart.read_rom_ext_ram(0), 0);
}

#[test]
fn mbc3_latch_reads_the_system_clock() {
    let mut cart = Catridge::new(rom(0x13, 0x03, 2));
    cart.write(0x0000, 0x0A);
    cart.write(0x6000, 0x01);
    cart.write(0x4000, 0x08);
    let seconds = cart.read_rom_ext_ram(0);
    cart.write(0x4000, 0x09);
    let minutes = cart.read_rom_ext_ram(0);
    cart.write(0x4000, 0x0A);
    let hours = cart.read_rom_ext_ram(0);
    assert!(seconds < 60 && minutes < 60 && hours < 24);
    let now = std::time::SystemTime::now().duration_since(std::time::UNIX_EPOCH).unwrap().as_secs();
    assert!(hours as u64 == (now / 3600) % 24 || hours as u64 == ((now + 23 * 3600) / 3600) % 24);
}

#[test]
fn latch_needs_mbc3_and_value_one() {
    let mut cart = Catridge::new(rom(0x01, 0x03, 2));
    cart.write(0x0000, 0x0A);
    cart.write(0x6000, 0x01);
    cart.write(0x4000, 0x08);
    assert_eq!(cart.read_rom_ext_ram(0), 0x00);
    let mut cart = Catridge::new(rom(0x0F, 0x03, 2));
    cart.write(0x0000, 0x0A);
    cart.write(0x6000, 0x00);
    cart.write(0x4000, 0x08);
    assert_eq!(cart.read_rom_ext_ram(0), 0x00);
}

#[test]
fn writes_elsewhere_change_nothing() {
    let mut cart = Catridge::new(rom(0x01, 0x03, 2));
    cart.write(0x8000, 0x0A);
    cart.write(0xC000, 0x05);
    assert_eq!(cart.read_rom_ext_ram(0), 0xFF);
    assert_eq!(cart.read_rom_bank_01(0), 1);
}

#[test]
fn bank_getters() {
    let mut cart = Catridge::new(rom(0x10, 0x03, 2));
    assert_eq!(cart.rom_bank(), 1);
    assert_eq!(cart.ram_bank(), 0);
    cart.write(0x2000, 0x25);
    cart.write(0x4000, 0x0C);
    assert_eq!(cart.rom_bank(), 5);
    assert_eq!(cart.ram_bank(), 0x0C);
}

#[test]
fn locked_ram_reads_ff_at_any_offset() {
    let cart = Catridge::new(rom(0x01, 0x03, 2));
    assert_eq!(cart.read_rom_ext_ram(usize::MAX), 0xFF);
    let mut cart = Catridge::new(rom(0x10, 0x03, 2));
    cart.write(0x0000, 0x0A);
    cart.write(0x4000, 0x08);
    assert_eq!(cart.read_rom_ext_ram(usize::MAX), 0);
}
