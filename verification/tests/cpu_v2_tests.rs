use celsius::bus::Bus;
use celsius::cpu_v2::Cpu;
use celsius::ram::Mmu;

/// A flat 64 KiB bus, for the interrupt and halt cases that need the
/// interrupt registers to be writable.
struct FlatBus {
    mem: Vec<u8>,
}

impl Bus for FlatBus {
    fn peek(&self, address: u16) -> u8 {
        self.mem[address as usize]
    }

    fn after_write(mut self, address: u16, value: u8) -> Self {
        self.mem[address as usize] = value;
        self
    }

    fn readable(&self, _address: u16) -> bool {
        true
    }

    fn read(&self, address: u16) -> u8 {
        self.mem[address as usize]
    }

    fn write(&mut self, address: u16, value: u8) {
        self.mem[address as usize] = value;
    }
}

fn rom_with(program: &[u8]) -> Vec<u8> {
    let mut rom = vec![0u8; 0x8000];
    rom[0x0100..0x0100 + program.len()].copy_from_slice(program);
    rom
}

fn flat_with(program: &[u8]) -> FlatBus {
    let mut mem = vec![0u8; 0x10000];
    mem[0x0100..0x0100 + program.len()].copy_from_slice(program);
    FlatBus { mem }
}

#[test]
fn cpu_v2_new_power_on_state() {
    let cpu = Cpu::new();
    assert_eq!((cpu.a, cpu.f, cpu.b, cpu.c, cpu.d, cpu.e, cpu.h, cpu.l), (0, 0, 0, 0, 0, 0, 0, 0));
    assert_eq!(cpu.sp, 0xFFFE);
    assert_eq!(cpu.pc, 0x0100);
    assert!(!cpu.stopped && !cpu.halted && !cpu.ime);
}

#[test]
fn nop_advances_pc() {
    let rom = rom_with(&[0x00]);
    let mut mmu = Mmu::new(&rom);
    let mut cpu = Cpu::new();
    assert_eq!(cpu.step(&mut mmu), 4);
    assert_eq!(cpu.pc, 0x0101);
}

#[test]
fn load_pairs_immediate() {
    let rom = rom_with(&[0x01, 0x34, 0x12, 0x11, 0x78, 0x56, 0x21, 0x00, 0xC0, 0x31, 0xF0, 0xFF]);
    let mut mmu = Mmu::new(&rom);
    let mut cpu = Cpu::new();
    assert_eq!(cpu.step(&mut mmu), 12);
    assert_eq!(cpu.get_bc(), 0x1234);
    assert_eq!((cpu.b, cpu.c), (0x12, 0x34));
    assert_eq!(cpu.step(&mut mmu), 12);
    assert_eq!(cpu.get_de(), 0x5678);
    assert_eq!(cpu.step(&mut mmu), 12);
    assert_eq!(cpu.get_hl(), 0xC000);
    assert_eq!(cpu.step(&mut mmu), 12);
    assert_eq!(cpu.sp, 0xFFF0);
    assert_eq!(cpu.pc, 0x010C);
}

#[test]
fn inc_dec_pairs_wrap() {
    let rom = rom_with(&[0x03, 0x0B, 0x0B, 0x33, 0x3B]);
    let mut mmu = Mmu::new(&rom);
    let mut cpu = Cpu::new();
    cpu.set_bc(0xFFFF);
    cpu.f = 0xB0;
    assert_eq!(cpu.step(&mut mmu), 8);
    assert_eq!(cpu.get_bc(), 0x0000);
    assert_eq!(cpu.f, 0xB0);
    cpu.step(&mut mmu);
    assert_eq!(cpu.get_bc(), 0xFFFF);
    cpu.step(&mut mmu);
    assert_eq!(cpu.get_bc(), 0xFFFE);
    cpu.step(&mut mmu);
    assert_eq!(cpu.sp, 0xFFFF);
    cpu.step(&mut mmu);
    assert_eq!(cpu.sp, 0xFFFE);
}

#[test]
fn inc_register_sets_half_carry_and_keeps_carry() {
    let rom = rom_with(&[0x04]);
    let mut mmu = Mmu::new(&rom);
    let mut cpu = Cpu::new();
    cpu.b = 0x0F;
    cpu.f = 0x50;
    assert_eq!(cpu.step(&mut mmu), 4);
    assert_eq!(cpu.b, 0x10);
    assert_eq!(cpu.f, 0x30);
}

#[test]
fn inc_memory_at_hl_wraps_to_zero() {
    let rom = rom_with(&[0x34]);
    let mut mmu = Mmu::new(&rom);
    mmu.write(0xC000, 0xFF);
    let mut cpu = Cpu::new();
    cpu.set_hl(0xC000);
    assert_eq!(cpu.step(&mut mmu), 12);
    assert_eq!(mmu.read(0xC000), 0x00);
    assert_eq!(cpu.f, 0xA0);
}

#[test]
fn dec_register_flags() {
    let rom = rom_with(&[0x05, 0x0D]);
    let mut mmu = Mmu::new(&rom);
    let mut cpu = Cpu::new();
    cpu.b = 0x01;
    cpu.c = 0x10;
    cpu.step(&mut mmu);
    assert_eq!(cpu.b, 0x00);
    assert_eq!(cpu.f, 0xC0);
    cpu.step(&mut mmu);
    assert_eq!(cpu.c, 0x0F);
    assert_eq!(cpu.f, 0x60);
}

#[test]
fn load_register_immediate() {
    let rom = rom_with(&[0x06, 0x42, 0x0E, 0x43, 0x16, 0x44, 0x1E, 0x45, 0x26, 0x46, 0x2E, 0x47]);
    let mut mmu = Mmu::new(&rom);
    let mut cpu = Cpu::new();
    cpu.f = 0x50;
    cpu.a = 0x99;
    for _ in 0..6 {
        assert_eq!(cpu.step(&mut mmu), 8);
    }
    assert_eq!((cpu.b, cpu.c, cpu.d, cpu.e, cpu.h, cpu.l), (0x42, 0x43, 0x44, 0x45, 0x46, 0x47));
    assert_eq!(cpu.pc, 0x010C);
    assert_eq!((cpu.a, cpu.f, cpu.sp), (0x99, 0x50, 0xFFFE));
}

#[test]
fn load_a_immediate() {
    let rom = rom_with(&[0x3E, 0x99]);
    let mut mmu = Mmu::new(&rom);
    let mut cpu = Cpu::new();
    assert_eq!(cpu.step(&mut mmu), 8);
    assert_eq!(cpu.a, 0x99);
    assert_eq!(cpu.pc, 0x0102);
}

#[test]
fn rotations_of_a() {
    let rom = rom_with(&[0x07, 0x0F, 0x0F, 0x17, 0x1F]);
    let mut mmu = Mmu::new(&rom);
    let mut cpu = Cpu::new();
    cpu.a = 0x85;
    assert_eq!(cpu.step(&mut mmu), 4);
    assert_eq!((cpu.a, cpu.f), (0x0B, 0x10));
    cpu.a = 0x01;
    cpu.step(&mut mmu);
    assert_eq!((cpu.a, cpu.f), (0x80, 0x00));
    cpu.a = 0x02;
    cpu.step(&mut mmu);
    assert_eq!((cpu.a, cpu.f), (0x01, 0x10));
    cpu.a = 0x80;
    cpu.f = 0x10;
    cpu.step(&mut mmu);
    assert_eq!((cpu.a, cpu.f), (0x01, 0x10));
    cpu.a = 0x01;
    cpu.f = 0x00;
    cpu.step(&mut mmu);
    assert_eq!((cpu.a, cpu.f), (0x00, 0x10));
}

#[test]
fn add_hl_flags() {
    let rom = rom_with(&[0x09, 0x29, 0x19]);
    let mut mmu = Mmu::new(&rom);
    let mut cpu = Cpu::new();
    cpu.set_hl(0x0FFF);
    cpu.set_bc(0x0001);
    cpu.f = 0xC0;
    assert_eq!(cpu.step(&mut mmu), 8);
    assert_eq!(cpu.get_hl(), 0x1000);
    assert_eq!(cpu.f, 0xA0);
    cpu.set_hl(0x8000);
    cpu.step(&mut mmu);
    assert_eq!(cpu.get_hl(), 0x0000);
    assert_eq!(cpu.f, 0x90);
    cpu.set_de(0x0001);
    cpu.set_hl(0xFFFF);
    cpu.f = 0;
    cpu.step(&mut mmu);
    assert_eq!(cpu.get_hl(), 0x0000);
    assert_eq!(cpu.f, 0x30);
}

#[test]
fn stop_halts_all_further_steps() {
    let rom = rom_with(&[0x10, 0x00, 0x3E, 0x11]);
    let mut mmu = Mmu::new(&rom);
    let mut cpu = Cpu::new();
    assert_eq!(cpu.step(&mut mmu), 4);
    assert!(cpu.stopped);
    assert_eq!(cpu.pc, 0x0102);
    assert_eq!(cpu.step(&mut mmu), 4);
    assert_eq!(cpu.pc, 0x0102);
    assert_eq!(cpu.a, 0);
}

#[test]
fn relative_jumps() {
    let rom = rom_with(&[0x18, 0x05]);
    let mut mmu = Mmu::new(&rom);
    let mut cpu = Cpu::new();
    assert_eq!(cpu.step(&mut mmu), 12);
    assert_eq!(cpu.pc, 0x0107);

    let rom = rom_with(&[0x18, 0xFE]);
    let mut mmu = Mmu::new(&rom);
    let mut cpu = Cpu::new();
    cpu.step(&mut mmu);
    assert_eq!(cpu.pc, 0x0100);

    let rom = rom_with(&[0x20, 0x10, 0x28, 0x10]);
    let mut mmu = Mmu::new(&rom);
    let mut cpu = Cpu::new();
    cpu.f = 0x80;
    assert_eq!(cpu.step(&mut mmu), 8);
    assert_eq!(cpu.pc, 0x0102);
    assert_eq!(cpu.step(&mut mmu), 12);
    assert_eq!(cpu.pc, 0x0114);

    let rom = rom_with(&[0x30, 0x02, 0x38, 0x02]);
    let mut mmu = Mmu::new(&rom);
    let mut cpu = Cpu::new();
    cpu.f = 0x10;
    assert_eq!(cpu.step(&mut mmu), 8);
    assert_eq!(cpu.step(&mut mmu), 12);
    assert_eq!(cpu.pc, 0x0106);
}

#[test]
fn loads_through_hl_with_step() {
    let rom = rom_with(&[0x22, 0x32, 0x2A, 0x3A]);
    let mut mmu = Mmu::new(&rom);
    let mut cpu = Cpu::new();
    cpu.set_hl(0xC000);
    cpu.a = 0x12;
    assert_eq!(cpu.step(&mut mmu), 8);
    assert_eq!(mmu.read(0xC000), 0x12);
    assert_eq!(cpu.get_hl(), 0xC001);
    cpu.a = 0x34;
    cpu.step(&mut mmu);
    assert_eq!(mmu.read(0xC001), 0x34);
    assert_eq!(cpu.get_hl(), 0xC000);
    cpu.step(&mut mmu);
    assert_eq!(cpu.a, 0x12);
    assert_eq!(cpu.get_hl(), 0xC001);
    cpu.step(&mut mmu);
    assert_eq!(cpu.a, 0x34);
    assert_eq!(cpu.get_hl(), 0xC000);
}

#[test]
fn decimal_adjust() {
    let rom = rom_with(&[0x27]);
    let mut mmu = Mmu::new(&rom);
    let cases: [(u8, u8, u8, u8); 5] = [
        (0x12, 0x20, 0x18, 0x00),
        (0x00, 0x10, 0x60, 0x10),
        (0x0F, 0x60, 0x09, 0x40),
        (0x7D, 0x00, 0x7D, 0x00),
        (0x9A, 0x00, 0xFA, 0x10),
    ];
    for (a, f, a_out, f_out) in cases {
        let mut cpu = Cpu::new();
        cpu.a = a;
        cpu.f = f;
        assert_eq!(cpu.step(&mut mmu), 4);
        assert_eq!((cpu.a, cpu.f), (a_out, f_out), "DAA of {:#04x} with F {:#04x}", a, f);
    }
}

#[test]
fn complement_and_carry_flag_ops() {
    let rom = rom_with(&[0x2F, 0x37, 0x3F, 0x3F]);
    let mut mmu = Mmu::new(&rom);
    let mut cpu = Cpu::new();
    cpu.a = 0x35;
    cpu.f = 0x80;
    cpu.step(&mut mmu);
    assert_eq!((cpu.a, cpu.f), (0xCA, 0xE0));
    cpu.step(&mut mmu);
    assert_eq!(cpu.f, 0x90);
    cpu.step(&mut mmu);
    assert_eq!(cpu.f, 0x80);
    cpu.step(&mut mmu);
    assert_eq!(cpu.f, 0x90);
}

#[test]
fn register_to_register_loads_and_halt() {
    let rom = rom_with(&[0x41, 0x77, 0x7E, 0x76]);
    let mut mmu = Mmu::new(&rom);
    let mut cpu = Cpu::new();
    cpu.c = 0x5C;
    assert_eq!(cpu.step(&mut mmu), 4);
    assert_eq!(cpu.b, 0x5C);
    cpu.set_hl(0xC010);
    cpu.a = 0xAB;
    assert_eq!(cpu.step(&mut mmu), 8);
    assert_eq!(mmu.read(0xC010), 0xAB);
    cpu.a = 0;
    assert_eq!(cpu.step(&mut mmu), 8);
    assert_eq!(cpu.a, 0xAB);
    assert_eq!(cpu.step(&mut mmu), 4);
    assert!(cpu.halted);
}

#[test]
fn alu_operations() {
    // (opcode, a, b, f, a_out, f_out)
    let cases: [(u8, u8, u8, u8, u8, u8); 10] = [
        (0x80, 0x3A, 0xC6, 0x00, 0x00, 0xB0),
        (0x80, 0x3C, 0x12, 0x00, 0x4E, 0x00),
        (0x88, 0xE1, 0x0F, 0x10, 0xF1, 0x20),
        (0x90, 0x3E, 0x3E, 0x00, 0x00, 0xC0),
        (0x90, 0x3E, 0x40, 0x00, 0xFE, 0x50),
        (0x98, 0x3B, 0x2A, 0x10, 0x10, 0x40),
        (0xA0, 0x5A, 0x3F, 0x00, 0x1A, 0x20),
        (0xA8, 0xFF, 0x0F, 0x00, 0xF0, 0x00),
        (0xB0, 0x00, 0x00, 0x00, 0x00, 0x80),
        (0xB8, 0x3C, 0x2F, 0x00, 0x3C, 0x60),
    ];
    for (op, a, b, f, a_out, f_out) in cases {
        let rom = rom_with(&[op]);
        let mut mmu = Mmu::new(&rom);
        let mut cpu = Cpu::new();
        cpu.a = a;
        cpu.b = b;
        cpu.f = f;
        assert_eq!(cpu.step(&mut mmu), 4);
        assert_eq!((cpu.a, cpu.f), (a_out, f_out), "opcode {:#04x}", op);
    }
}

#[test]
fn alu_with_memory_operand_and_xor_a() {
    let rom = rom_with(&[0x86, 0xAF]);
    let mut mmu = Mmu::new(&rom);
    mmu.write(0xC000, 0x22);
    let mut cpu = Cpu::new();
    cpu.set_hl(0xC000);
    cpu.a = 0x11;
    assert_eq!(cpu.step(&mut mmu), 8);
    assert_eq!(cpu.a, 0x33);
    assert_eq!(cpu.step(&mut mmu), 4);
    assert_eq!((cpu.a, cpu.f), (0x00, 0x80));
}

#[test]
fn push_pop_and_pop_af_masks_flags() {
    let rom = rom_with(&[0xC5, 0xD1, 0xF5, 0xF1]);
    let mut mmu = Mmu::new(&rom);
    let mut cpu = Cpu::new();
    cpu.set_bc(0xBEEF);
    assert_eq!(cpu.step(&mut mmu), 16);
    assert_eq!(cpu.sp, 0xFFFC);
    assert_eq!(mmu.read(0xFFFD), 0xBE);
    assert_eq!(mmu.read(0xFFFC), 0xEF);
    assert_eq!(cpu.step(&mut mmu), 12);
    assert_eq!(cpu.get_de(), 0xBEEF);
    assert_eq!(cpu.sp, 0xFFFE);
    cpu.a = 0x12;
    cpu.f = 0xFF;
    cpu.step(&mut mmu);
    cpu.a = 0;
    cpu.f = 0;
    cpu.step(&mut mmu);
    assert_eq!((cpu.a, cpu.f), (0x12, 0xF0));
}

#[test]
fn absolute_jumps() {
    let rom = rom_with(&[0xC3, 0x00, 0x02]);
    let mut mmu = Mmu::new(&rom);
    let mut cpu = Cpu::new();
    assert_eq!(cpu.step(&mut mmu), 16);
    assert_eq!(cpu.pc, 0x0200);

    let rom = rom_with(&[0xC2, 0x00, 0x02, 0xCA, 0x00, 0x03]);
    let mut mmu = Mmu::new(&rom);
    let mut cpu = Cpu::new();
    cpu.f = 0x80;
    assert_eq!(cpu.step(&mut mmu), 12);
    assert_eq!(cpu.pc, 0x0103);
    assert_eq!(cpu.step(&mut mmu), 16);
    assert_eq!(cpu.pc, 0x0300);

    let rom = rom_with(&[0xD2, 0x00, 0x02, 0xDA, 0x00, 0x03]);
    let mut mmu = Mmu::new(&rom);
    let mut cpu = Cpu::new();
    assert_eq!(cpu.step(&mut mmu), 16);
    assert_eq!(cpu.pc, 0x0200);

    let rom = rom_with(&[0xE9]);
    let mut mmu = Mmu::new(&rom);
    let mut cpu = Cpu::new();
    cpu.set_hl(0x4321);
    assert_eq!(cpu.step(&mut mmu), 4);
    assert_eq!(cpu.pc, 0x4321);
}

#[test]
fn call_and_return() {
    let mut program = vec![0xCD, 0x00, 0x02];
    program.resize(0x100, 0x00);
    program.push(0xC9);
    let rom = rom_with(&program);
    let mut mmu = Mmu::new(&rom);
    let mut cpu = Cpu::new();
    assert_eq!(cpu.step(&mut mmu), 24);
    assert_eq!(cpu.pc, 0x0200);
    assert_eq!(cpu.sp, 0xFFFC);
    assert_eq!(mmu.read(0xFFFD), 0x01);
    assert_eq!(mmu.read(0xFFFC), 0x03);
    assert_eq!(cpu.step(&mut mmu), 16);
    assert_eq!(cpu.pc, 0x0103);
    assert_eq!(cpu.sp, 0xFFFE);
}

#[test]
fn conditional_call_and_return() {
    let rom = rom_with(&[0xC4, 0x00, 0x02, 0xD4, 0x00, 0x03]);
    let mut mmu = Mmu::new(&rom);
    let mut cpu = Cpu::new();
    cpu.f = 0x80;
    assert_eq!(cpu.step(&mut mmu), 12);
    assert_eq!(cpu.pc, 0x0103);
    assert_eq!(cpu.step(&mut mmu), 24);
    assert_eq!(cpu.pc, 0x0300);

    let rom = rom_with(&[0xC0, 0xC8]);
    let mut mmu = Mmu::new(&rom);
    mmu.write(0xFFF0, 0x34);
    mmu.write(0xFFF1, 0x12);
    let mut cpu = Cpu::new();
    cpu.sp = 0xFFF0;
    cpu.f = 0x80;
    assert_eq!(cpu.step(&mut mmu), 8);
    assert_eq!(cpu.pc, 0x0101);
    assert_eq!(cpu.step(&mut mmu), 20);
    assert_eq!(cpu.pc, 0x1234);
    assert_eq!(cpu.sp, 0xFFF2);
}

#[test]
fn call_on_zero_and_carry_conditions() {
    let rom = rom_with(&[0xCC, 0x00, 0x02]);
    let mut mmu = Mmu::new(&rom);
    let mut cpu = Cpu::new();
    cpu.f = 0x80;
    assert_eq!(cpu.step(&mut mmu), 24);
    assert_eq!(cpu.pc, 0x0200);
    assert_eq!(cpu.sp, 0xFFFC);
    assert_eq!(mmu.read(0xFFFD), 0x01);
    assert_eq!(mmu.read(0xFFFC), 0x03);

    let rom = rom_with(&[0xCC, 0x00, 0x02, 0xDC, 0x00, 0x03, 0xDC, 0x00, 0x04]);
    let mut mmu = Mmu::new(&rom);
    let mut cpu = Cpu::new();
    assert_eq!(cpu.step(&mut mmu), 12);
    assert_eq!(cpu.pc, 0x0103);
    assert_eq!(cpu.sp, 0xFFFE);
    assert_eq!(cpu.step(&mut mmu), 12);
    assert_eq!(cpu.pc, 0x0106);
    cpu.f = 0x10;
    assert_eq!(cpu.step(&mut mmu), 24);
    assert_eq!(cpu.pc, 0x0400);
    assert_eq!(cpu.sp, 0xFFFC);
    assert_eq!(mmu.read(0xFFFD), 0x01);
    assert_eq!(mmu.read(0xFFFC), 0x09);
}

#[test]
fn restart_and_return_from_interrupt() {
    let rom = rom_with(&[0xFF]);
    let mut mmu = Mmu::new(&rom);
    let mut cpu = Cpu::new();
    assert_eq!(cpu.step(&mut mmu), 16);
    assert_eq!(cpu.pc, 0x0038);
    assert_eq!(cpu.sp, 0xFFFC);
    assert_eq!(mmu.read(0xFFFC), 0x01);
    assert_eq!(mmu.read(0xFFFD), 0x01);
}

#[test]
fn prefix_cb_operations() {
    // (second byte, register value, f, result, f_out)
    let cases: [(u8, u8, u8, u8, u8); 11] = [
        (0x00, 0x85, 0x00, 0x0B, 0x10),
        (0x08, 0x01, 0x00, 0x80, 0x10),
        (0x10, 0x80, 0x00, 0x00, 0x90),
        (0x18, 0x01, 0x10, 0x80, 0x10),
        (0x20, 0xFF, 0x00, 0xFE, 0x10),
        (0x28, 0x81, 0x00, 0xC0, 0x10),
        (0x30, 0xF1, 0x00, 0x1F, 0x00),
        (0x38, 0x01, 0x00, 0x00, 0x90),
        (0x78, 0x80, 0x10, 0x80, 0x30),
        (0x80, 0xFF, 0x00, 0xFE, 0x00),
        (0xC0, 0x00, 0x00, 0x01, 0x00),
    ];
    for (cb, value, f, result, f_out) in cases {
        let rom = rom_with(&[0xCB, cb]);
        let mut mmu = Mmu::new(&rom);
        let mut cpu = Cpu::new();
        cpu.b = value;
        cpu.f = f;
        assert_eq!(cpu.step(&mut mmu), 8);
        assert_eq!((cpu.b, cpu.f), (result, f_out), "CB {:#04x}", cb);
        assert_eq!(cpu.pc, 0x0102);
    }
}

#[test]
fn prefix_cb_on_memory_operand() {
    let rom = rom_with(&[0xCB, 0xDE, 0xCB, 0x46]);
    let mut mmu = Mmu::new(&rom);
    let mut cpu = Cpu::new();
    cpu.set_hl(0xC000);
    assert_eq!(cpu.step(&mut mmu), 16);
    assert_eq!(mmu.read(0xC000), 0x08);
    assert_eq!(cpu.step(&mut mmu), 16);
    assert_eq!(cpu.f, 0xA0);
}

#[test]
fn high_page_loads() {
    let rom = rom_with(&[0xE0, 0x80, 0xF0, 0x81, 0xE2, 0xF2]);
    let mut mmu = Mmu::new(&rom);
    mmu.write(0xFF81, 0x66);
    let mut cpu = Cpu::new();
    cpu.a = 0x55;
    assert_eq!(cpu.step(&mut mmu), 12);
    assert_eq!(mmu.read(0xFF80), 0x55);
    assert_eq!(cpu.step(&mut mmu), 12);
    assert_eq!(cpu.a, 0x66);
    cpu.c = 0x90;
    assert_eq!(cpu.step(&mut mmu), 8);
    assert_eq!(mmu.read(0xFF90), 0x66);
    cpu.a = 0;
    assert_eq!(cpu.step(&mut mmu), 8);
    assert_eq!(cpu.a, 0x66);
    assert_eq!(cpu.pc, 0x0106);
}

#[test]
fn absolute_loads_of_a() {
    let rom = rom_with(&[0xEA, 0x34, 0xC2, 0xFA, 0x34, 0xC2]);
    let mut mmu = Mmu::new(&rom);
    let mut cpu = Cpu::new();
    cpu.a = 0x7E;
    assert_eq!(cpu.step(&mut mmu), 16);
    assert_eq!(mmu.read(0xC234), 0x7E);
    cpu.a = 0;
    assert_eq!(cpu.step(&mut mmu), 16);
    assert_eq!(cpu.a, 0x7E);
}

#[test]
fn stack_pointer_offsets() {
    let rom = rom_with(&[0xE8, 0x08, 0xE8, 0xFE, 0xF8, 0x01]);
    let mut mmu = Mmu::new(&rom);
    let mut cpu = Cpu::new();
    cpu.sp = 0xFFF8;
    cpu.f = 0xC0;
    assert_eq!(cpu.step(&mut mmu), 16);
    assert_eq!(cpu.sp, 0x0000);
    assert_eq!(cpu.f, 0x30);
    cpu.sp = 0x0001;
    cpu.step(&mut mmu);
    assert_eq!(cpu.sp, 0xFFFF);
    assert_eq!(cpu.f, 0x00);
    assert_eq!(cpu.step(&mut mmu), 12);
    assert_eq!(cpu.get_hl(), 0x0000);
    assert_eq!(cpu.sp, 0xFFFF);
    assert_eq!(cpu.f, 0x30);
}

#[test]
fn interrupt_master_enable_switches() {
    let rom = rom_with(&[0xFB, 0xF3]);
    let mut mmu = Mmu::new(&rom);
    let mut cpu = Cpu::new();
    assert_eq!(cpu.step(&mut mmu), 4);
    assert!(cpu.ime);
    // With IME set the memory map reads 0xFF at 0xFF0F and 0xFFFF: the
    // V-blank line is pending and is serviced.
    assert_eq!(cpu.step(&mut mmu), 20);
    assert_eq!(cpu.pc, 0x0040);
    assert!(!cpu.ime);
}

#[test]
fn interrupt_entry_services_lowest_line() {
    let mut bus = flat_with(&[0x00]);
    bus.mem[0xFF0F] = 0x14;
    bus.mem[0xFFFF] = 0x1F;
    let mut cpu = Cpu::new();
    cpu.ime = true;
    cpu.sp = 0xD000;
    assert_eq!(cpu.step(&mut bus), 20);
    assert_eq!(cpu.pc, 0x0050);
    assert!(!cpu.ime);
    assert_eq!(cpu.sp, 0xCFFE);
    assert_eq!(bus.mem[0xCFFF], 0x01);
    assert_eq!(bus.mem[0xCFFE], 0x00);
    assert_eq!(bus.mem[0xFF0F], 0x10);
}

#[test]
fn execute_interrupt_directly() {
    let mut bus = flat_with(&[]);
    let mut cpu = Cpu::new();
    cpu.pc = 0x1234;
    cpu.ime = true;
    cpu.execute_interrupt(&mut bus, 0x08);
    assert_eq!(cpu.pc, 0x0058);
    assert_eq!(bus.mem[0xFF0F], 0x00);
    assert_eq!(bus.mem[0xFFFD], 0x12);
    assert_eq!(bus.mem[0xFFFC], 0x34);
}

#[test]
fn halted_waits_for_an_enabled_request() {
    let mut bus = flat_with(&[0x3E, 0x07]);
    let mut cpu = Cpu::new();
    cpu.halted = true;
    assert_eq!(cpu.step(&mut bus), 4);
    assert!(cpu.halted);
    assert_eq!(cpu.pc, 0x0100);
    bus.mem[0xFF0F] = 0x01;
    bus.mem[0xFFFF] = 0x01;
    assert_eq!(cpu.step(&mut bus), 8);
    assert!(!cpu.halted);
    assert_eq!(cpu.a, 0x07);
}

#[test]
fn unknown_opcodes_take_four_cycles() {
    for op in [0x02u8, 0x08, 0x0A, 0x12, 0x1A, 0x36, 0xC6, 0xD3, 0xE3, 0xEB] {
        let rom = rom_with(&[op, 0x00, 0x00]);
        let mut mmu = Mmu::new(&rom);
        let mut cpu = Cpu::new();
        cpu.a = 0x42;
        assert_eq!(cpu.step(&mut mmu), 4, "opcode {:#04x}", op);
        assert_eq!(cpu.pc, 0x0101);
        assert_eq!(cpu.a, 0x42);
        assert_eq!(cpu.sp, 0xFFFE);
    }
}

#[test]
fn helper_operations_directly() {
    let mut cpu = Cpu::new();
    assert_eq!(cpu.inc_8(0xFF), 0x00);
    assert_eq!(cpu.f, 0xA0);
    assert_eq!(cpu.dec_8(0x00), 0xFF);
    assert_eq!(cpu.f, 0x60);
    cpu.set_flags(0, 1, 0, 1);
    assert_eq!(cpu.f, 0xD0);
    cpu.alu(0x01, 0);
    assert_eq!((cpu.a, cpu.f), (0x01, 0x00));
    assert_eq!(cpu.cb_swap(0x12), 0x21);
    assert_eq!(cpu.cb_shift_rotate(0x80, 7), 0x40);
    cpu.cb_bit_test(0x04, 2);
    assert_eq!(cpu.f, 0x20);
    let rom = rom_with(&[0x34, 0x12]);
    let mut mmu = Mmu::new(&rom);
    assert_eq!(cpu.read_u16(&mmu), 0x1234);
    assert_eq!(cpu.pc, 0x0102);
    cpu.set_hl(0xC000);
    cpu.set_register_val(&mut mmu, 6, 0x9A);
    assert_eq!(cpu.get_register_val(&mmu, 6), 0x9A);
    cpu.set_register_val(&mut mmu, 7, 0x11);
    assert_eq!(cpu.get_register_val(&mmu, 7), 0x11);
    assert_eq!(cpu.execute(&mut mmu, 0x00), 4);
}

#[test]
fn law_push_then_pop_restores_pair() {
    for (push, pop) in [(0xC5u8, 0xC1u8), (0xD5, 0xD1), (0xE5, 0xE1)] {
        let rom = rom_with(&[push, pop]);
        let mut mmu = Mmu::new(&rom);
        let mut cpu = Cpu::new();
        cpu.set_bc(0x1122);
        cpu.set_de(0x3344);
        cpu.set_hl(0x5566);
        cpu.sp = 0xDFF0;
        cpu.step(&mut mmu);
        cpu.set_bc(0);
        cpu.set_de(0);
        cpu.set_hl(0);
        cpu.step(&mut mmu);
        let restored = match push {
            0xC5 => cpu.get_bc(),
            0xD5 => cpu.get_de(),
            _ => cpu.get_hl(),
        };
        let expected = match push {
            0xC5 => 0x1122,
            0xD5 => 0x3344,
            _ => 0x5566,
        };
        assert_eq!(restored, expected);
        assert_eq!(cpu.sp, 0xDFF0);
    }
}

#[test]
fn law_rotations_invert() {
    for v in 0..=255u8 {
        let mut cpu = Cpu::new();
        let r = cpu.cb_rlc(v);
        assert_eq!(cpu.cb_rrc(r), v);
        let r = cpu.cb_swap(v);
        assert_eq!(cpu.cb_swap(r), v);
        cpu.f = 0x10;
        let r = cpu.cb_rl(v);
        assert_eq!(cpu.cb_rr(r), v);
        assert_eq!(cpu.f & 0x10, 0x10);
    }
}

#[test]
fn law_inc_dec_and_add_sub_invert() {
    for v in 0..=255u8 {
        let mut cpu = Cpu::new();
        let r = cpu.inc_8(v);
        assert_eq!(cpu.dec_8(r), v);
        cpu.a = v;
        cpu.alu(0x9D, 0);
        cpu.alu(0x9D, 2);
        assert_eq!(cpu.a, v);
    }
}

#[test]
fn law_flag_low_nibble_stays_clear() {
    let program: Vec<u8> = (0u8..=255).filter(|op| *op != 0x10 && *op != 0x76 && *op != 0xCB).collect();
    for op in program {
        let rom = rom_with(&[op, 0x01, 0x02]);
        let mut mmu = Mmu::new(&rom);
        let mut cpu = Cpu::new();
        cpu.a = 0x9B;
        cpu.f = 0xF0;
        cpu.set_bc(0x1234);
        cpu.set_hl(0xC100);
        cpu.sp = 0xDFF0;
        cpu.step(&mut mmu);
        assert_eq!(cpu.f & 0x0F, 0, "opcode {:#04x}", op);
    }
}

#[test]
fn law_interrupt_then_reti_resumes() {
    let mut bus = flat_with(&[0x00]);
    bus.mem[0x0040] = 0xD9;
    bus.mem[0xFF0F] = 0x01;
    bus.mem[0xFFFF] = 0x01;
    let mut cpu = Cpu::new();
    cpu.ime = true;
    cpu.sp = 0xDFF0;
    assert_eq!(cpu.step(&mut bus), 20);
    assert_eq!(cpu.pc, 0x0040);
    assert!(!cpu.ime);
    assert_eq!(cpu.step(&mut bus), 16);
    assert_eq!(cpu.pc, 0x0100);
    assert!(cpu.ime);
    assert_eq!(cpu.sp, 0xDFF0);
    assert_eq!(bus.mem[0xFF0F], 0x00);
}

#[test]
fn law_pair_round_trip() {
    let mut cpu = Cpu::new();
    for v in [0x0000u16, 0x00FF, 0xFF00, 0x1234, 0xFFFF] {
        cpu.set_bc(v);
        cpu.set_de(v ^ 0xFFFF);
        cpu.set_hl(v.wrapping_add(1));
        assert_eq!(cpu.get_bc(), v);
        assert_eq!(cpu.get_de(), v ^ 0xFFFF);
        assert_eq!(cpu.get_hl(), v.wrapping_add(1));
    }
}

#[test]
fn law_steps_keep_rom() {
    let program: Vec<u8> = (0u8..=255).collect();
    let rom = rom_with(&program);
    let mut mmu = Mmu::new(&rom);
    let mut cpu = Cpu::new();
    cpu.set_hl(0x0150);
    cpu.sp = 0x0010;
    for _ in 0..64 {
        cpu.stopped = false;
        cpu.halted = false;
        cpu.step(&mut mmu);
    }
    assert_eq!(mmu.rom, &rom[..]);
    for address in 0..0x8000u16 {
        assert_eq!(mmu.read(address), rom[address as usize]);
    }
}
