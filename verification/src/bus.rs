use vstd::prelude::*;

verus! {

/// The memory bus as the processor sees it: a 16-bit address space of bytes.
///
/// `peek` is what a read returns, `after_write` is the bus that a write leaves
/// behind, and `readable` tells the addresses whose read is defined.
pub trait Bus: Sized {
    /// The byte that a read of `address` returns.
    spec fn peek(&self, address: u16) -> u8;

    /// The bus after `value` has been written to `address`.
    spec fn after_write(self, address: u16, value: u8) -> Self;

    /// Whether a read of `address` is defined on this bus.
    spec fn readable(&self, address: u16) -> bool;

    fn read(&self, address: u16) -> (value: u8)
        requires
            self.readable(address),
        ensures
            value == self.peek(address),
    ;

    fn write(&mut self, address: u16, value: u8)
        ensures
            *final(self) == old(self).after_write(address, value),
    ;
}

/// The address whose write switches the boot ROM off.
pub const BOOT_OFF: u16 = 0xFF50;

/// The system bus: the 256-byte boot ROM laid over 0x0000..=0x00FF until a
/// write to 0xFF50 switches it off, in front of the memory behind it.
pub struct SystemBus<B: Bus> {
    pub memory: B,
    pub cpu_lock: bool,
    pub ppu_lock: bool,
    pub boot_disabled: bool,
    pub boot_rom: [u8; 256],
}

impl<B: Bus> SystemBus<B> {
    /// The boot ROM `boot_rom` switched on in front of `memory`, no locks held.
    pub fn new(memory: B, boot_rom: [u8; 256]) -> (bus: Self)
        ensures
            bus.memory == memory,
            bus.boot_rom == boot_rom,
            !bus.boot_disabled,
            !bus.cpu_lock,
            !bus.ppu_lock,
    {
        SystemBus { memory, cpu_lock: false, ppu_lock: false, boot_disabled: false, boot_rom }
    }

    /// Whether a read of `address` is served by the boot ROM.
    pub open spec fn boot_serves(&self, address: u16) -> bool {
        address < 0x0100 && !self.boot_disabled
    }
}

impl<B: Bus> Bus for SystemBus<B> {
    open spec fn peek(&self, address: u16) -> u8 {
        if self.boot_serves(address) {
            self.boot_rom@[address as int]
        } else {
            self.memory.peek(address)
        }
    }

    /// A write to 0xFF50 switches the boot ROM off and goes no further; any
    /// other write goes to the memory behind.
    open spec fn after_write(self, address: u16, value: u8) -> Self {
        if address == BOOT_OFF {
            SystemBus { boot_disabled: true, ..self }
        } else {
            SystemBus { memory: self.memory.after_write(address, value), ..self }
        }
    }

    open spec fn readable(&self, address: u16) -> bool {
        self.boot_serves(address) || self.memory.readable(address)
    }

    fn read(&self, address: u16) -> (value: u8) {
        if address < 0x0100 && !self.boot_disabled {
            return self.boot_rom[address as usize];
        }
        self.memory.read(address)
    }

    fn write(&mut self, address: u16, value: u8) {
        if address == BOOT_OFF {
            self.boot_disabled = true;
            return ;
        }
        self.memory.write(address, value);
    }
}

/// Until 0xFF50 is written the boot ROM answers below 0x0100; after a write
/// to 0xFF50 the memory behind answers there, and no write brings the boot
/// ROM back.
pub proof fn lemma_boot_rom_switch_off<B: Bus>(bus: SystemBus<B>, value: u8, address: u16, other: u8)
    ensures
        address < 0x0100 && !bus.boot_disabled ==> bus.peek(address) == bus.boot_rom@[address as int],
        bus.after_write(BOOT_OFF, value).peek(address) == bus.memory.peek(address),
        bus.after_write(BOOT_OFF, value).memory == bus.memory,
        bus.boot_disabled ==> bus.after_write(address, other).boot_disabled,
{
}

} // verus!
