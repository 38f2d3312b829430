//! The first processor model: the register file and a step that knows NOP
//! and LD A, n.

use vstd::prelude::*;
use crate::bits::{wrap16, lemma_wrap16};
use crate::bus::Bus;

verus! {

/// The register file.
pub struct Registers {
    pub a: u8,
    pub f: u8,
    pub b: u8,
    pub c: u8,
    pub d: u8,
    pub e: u8,
    pub h: u8,
    pub l: u8,
    pub pc: u16,
    pub sp: u16,
}

impl Registers {
    /// Registers cleared, PC at 0x0100, SP at 0xFFFE.
    pub fn new() -> (regs: Self)
        ensures
            regs.a == 0 && regs.f == 0 && regs.b == 0 && regs.c == 0,
            regs.d == 0 && regs.e == 0 && regs.h == 0 && regs.l == 0,
            regs.pc == 0x0100,
            regs.sp == 0xFFFE,
    {
        Registers { a: 0, f: 0, b: 0, c: 0, d: 0, e: 0, h: 0, l: 0, pc: 0x0100, sp: 0xFFFE }
    }
}

/// The processor: its registers and whether it is halted.
pub struct Cpu {
    pub regs: Registers,
    pub halted: bool,
}

/// Whether `step` is defined on this state: halted, or the opcode at PC is
/// NOP (0x00) or LD A, n (0x3E) with its operand readable.
pub open spec fn step_defined<B: Bus>(cpu: Cpu, bus: B) -> bool {
    let pc = cpu.regs.pc;
    cpu.halted || (bus.readable(pc) && (bus.peek(pc) == 0x00 || (bus.peek(pc) == 0x3E
        && bus.readable(wrap16(pc + 1)))))
}

/// One step: nothing while halted; NOP moves PC past the opcode; LD A, n
/// loads the byte after the opcode into A and moves PC past it.
pub open spec fn step_result<B: Bus>(cpu: Cpu, bus: B) -> Cpu {
    let pc = cpu.regs.pc;
    if cpu.halted {
        cpu
    } else if bus.peek(pc) == 0x3E {
        Cpu {
            regs: Registers { a: bus.peek(wrap16(pc + 1)), pc: wrap16(pc + 2), ..cpu.regs },
            ..cpu
        }
    } else {
        Cpu { regs: Registers { pc: wrap16(pc + 1), ..cpu.regs }, ..cpu }
    }
}

impl Cpu {
    /// Power-on registers, not halted.
    pub fn new() -> (cpu: Self)
        ensures
            cpu.regs.a == 0 && cpu.regs.f == 0 && cpu.regs.b == 0 && cpu.regs.c == 0,
            cpu.regs.d == 0 && cpu.regs.e == 0 && cpu.regs.h == 0 && cpu.regs.l == 0,
            cpu.regs.pc == 0x0100,
            cpu.regs.sp == 0xFFFE,
            !cpu.halted,
    {
        Cpu { regs: Registers::new(), halted: false }
    }

    /// Executes the instruction at PC; the bus is only read.
    pub fn step<B: Bus>(&mut self, bus: &mut B)
        requires
            step_defined(*old(self), *old(bus)),
        ensures
            *final(self) == step_result(*old(self), *old(bus)),
            *final(bus) == *old(bus),
    {
        if self.halted {
            return ;
        }
        let opcode = bus.read(self.regs.pc);
        proof {
            lemma_wrap16(self.regs.pc + 1);
            lemma_wrap16(self.regs.pc + 2);
        }
        self.regs.pc = self.regs.pc.wrapping_add(1);
        match opcode {
            0x00 => {},
            _ => {
                let value = bus.read(self.regs.pc);
                self.regs.a = value;
                self.regs.pc = self.regs.pc.wrapping_add(1);
            },
        }
    }
}

/// The first processor model: halted, a step changes nothing; NOP moves PC
/// past the opcode (modulo 65536); LD A, n loads the byte after the opcode
/// into A and moves PC past it. Nothing else changes.
pub proof fn lemma_step_meaning<B: Bus>(cpu: Cpu, bus: B)
    ensures
        cpu.halted ==> step_result(cpu, bus) == cpu,
        !cpu.halted && bus.peek(cpu.regs.pc) == 0x00 ==> step_result(cpu, bus) == (Cpu {
            regs: Registers { pc: ((cpu.regs.pc + 1) % 65536) as u16, ..cpu.regs },
            ..cpu
        }),
        !cpu.halted && bus.peek(cpu.regs.pc) == 0x3E ==> step_result(cpu, bus) == (Cpu {
            regs: Registers {
                a: bus.peek(((cpu.regs.pc + 1) % 65536) as u16),
                pc: ((cpu.regs.pc + 2) % 65536) as u16,
                ..cpu.regs
            },
            ..cpu
        }),
{
}

} // verus!
