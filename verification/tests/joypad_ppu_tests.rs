use celsius::joypad::Joypad;
use celsius::ppu::{Mode, Ppu};

#[test]
fn joypad_new_reads_nothing_pressed() {
    let pad = Joypad::new();
    assert_eq!(pad.registers, 0xFF);
    assert_eq!(pad.state, 0xFF);
    assert_eq!(pad.read(), 0xFF);
}

#[test]
fn joypad_select_buttons() {
    let mut pad = Joypad::new();
    pad.state_write(0b1111_0110);
    pad.register_write(0x20);
    assert_eq!(pad.registers, 0xE0);
    assert_eq!(pad.read(), 0xE6);
}

#[test]
fn joypad_select_dpad() {
    let mut pad = Joypad::new();
    pad.state_write(0b0111_1111);
    pad.register_write(0x10);
    assert_eq!(pad.read(), 0xD7);
}

#[test]
fn joypad_select_both_and_neither() {
    let mut pad = Joypad::new();
    pad.state_write(0b1101_1110);
    pad.register_write(0x00);
    assert_eq!(pad.read(), 0xCC);
    pad.register_write(0x30);
    assert_eq!(pad.read(), 0xFF);
}

#[test]
fn joypad_register_write_keeps_only_select_bits() {
    let mut pad = Joypad::new();
    pad.register_write(0x0F);
    assert_eq!(pad.registers, 0xC0);
    assert_eq!(pad.state, 0xFF);
    pad.state_write(0x00);
    assert_eq!(pad.registers, 0xC0);
}

#[test]
fn law_joypad_high_bits_always_set() {
    for registers in 0..=255u8 {
        for state in [0x00u8, 0x5A, 0xFF] {
            let pad = Joypad { registers, state };
            assert_eq!(pad.read() & 0xC0, 0xC0);
        }
    }
    for value in 0..=255u8 {
        let mut pad = Joypad::new();
        pad.register_write(value);
        assert_eq!(pad.read() & 0x30, value & 0x30);
    }
}

#[test]
fn ppu_new_is_blank() {
    let ppu = Ppu::new();
    assert!(ppu.screen_data.iter().all(|p| *p == 0));
    assert_eq!(ppu.screen_data.len(), 160 * 144);
    assert_eq!(ppu.ppu_mode, Mode::HBlank);
    assert!(!ppu.lcd_is_enabled);
    assert_eq!((ppu.ly, ppu.lyc), (0, 0));
}

#[test]
fn ppu_step_keeps_state() {
    let mut ppu = Ppu::new();
    ppu.ly = 12;
    ppu.screen_data[5] = 3;
    ppu.step();
    assert_eq!(ppu.ly, 12);
    assert_eq!(ppu.screen_data[5], 3);
    assert_eq!(ppu.ppu_mode, Mode::HBlank);
}
