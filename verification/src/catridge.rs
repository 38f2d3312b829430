//! The cartridge: ROM banking and external RAM for the MBC1 and MBC3 memory
//! bank controllers, with the MBC3 real-time clock registers.

use vstd::prelude::*;
use crate::bits::lemma_byte_masks;
use std::time::{Duration, SystemTime, UNIX_EPOCH};

verus! {

/// The memory bank controller that the cartridge header names.
#[derive(Clone, Copy, Debug, PartialEq, Eq, Structural)]
pub enum MbcType {
    Mbc0,
    Mbc1,
    Mbc3,
}

/// The controller for the cartridge type byte at 0x0147.
pub open spec fn mbc_of(kind: u8) -> MbcType {
    if 0x01 <= kind <= 0x03 {
        MbcType::Mbc1
    } else if 0x0F <= kind <= 0x13 {
        MbcType::Mbc3
    } else {
        MbcType::Mbc0
    }
}

/// The external RAM size in bytes for the RAM size byte at 0x0149.
pub open spec fn ram_size_of(code: u8) -> nat {
    if code == 0x02 {
        8 * 1024
    } else if code == 0x03 {
        32 * 1024
    } else if code == 0x04 {
        128 * 1024
    } else if code == 0x05 {
        64 * 1024
    } else {
        0
    }
}

/// What a cartridge holds: its ROM, its external RAM, the selected ROM bank
/// (for 0x4000..=0x7FFF) and RAM bank or clock register, whether the RAM is
/// locked, the controller, and the five clock registers.
#[verifier::ext_equal]
pub struct CatridgeView {
    pub rom: Seq<u8>,
    pub ram: Seq<u8>,
    pub rom_bank: int,
    pub ram_bank: int,
    pub ram_locked: bool,
    pub mbc: MbcType,
    pub rtc: Seq<u8>,
}

impl CatridgeView {
    /// The clock registers after latching the time `now` (seconds since 1970):
    /// seconds, minutes and hours of the day; the day registers are kept.
    pub open spec fn latched(self, now: u64) -> CatridgeView {
        CatridgeView {
            rtc: self.rtc.update(0, (now % 60) as u8).update(1, ((now / 60) % 60) as u8).update(
                2,
                ((now / 3600) % 24) as u8,
            ),
            ..self
        }
    }

    /// What a read of 0x4000 + `address` gives: the byte of the selected ROM
    /// bank, or 0xFF past the end of the ROM.
    pub open spec fn rom_bank_byte(self, address: int) -> u8 {
        let actual = self.rom_bank * 0x4000 + address;
        if actual < self.rom.len() {
            self.rom[actual]
        } else {
            0xFF
        }
    }

    /// What a read of 0xA000 + `address` gives: with the RAM unlocked and
    /// present, the byte of RAM bank 0..=3 (0xFF past its end) or the clock
    /// register 8..=12; otherwise 0xFF.
    pub open spec fn ram_byte(self, address: int) -> u8 {
        if !self.ram_locked && self.ram.len() > 0 {
            if self.ram_bank <= 3 {
                let actual = self.ram_bank * 0x2000 + address;
                if actual < self.ram.len() {
                    self.ram[actual]
                } else {
                    0xFF
                }
            } else if 8 <= self.ram_bank <= 0x0C {
                self.rtc[self.ram_bank - 8]
            } else {
                0xFF
            }
        } else {
            0xFF
        }
    }

    /// The cartridge after a write of `value` to `address`, except for the
    /// clock latch (MBC3, 0x6000..=0x7FFF, value 1), which reads the time.
    pub open spec fn written(self, address: u16, value: u8) -> CatridgeView {
        if address <= 0x1FFF {
            CatridgeView { ram_locked: value % 16 != 0x0A, ..self }
        } else if address <= 0x3FFF {
            CatridgeView { rom_bank: if value % 32 == 0 { 1 } else { (value % 32) as int }, ..self }
        } else if address <= 0x5FFF {
            if self.mbc == MbcType::Mbc3 {
                if value <= 0x03 || (0x08 <= value <= 0x0C) {
                    CatridgeView { ram_bank: value as int, ..self }
                } else {
                    self
                }
            } else {
                CatridgeView { ram_bank: (value % 4) as int, ..self }
            }
        } else if 0xA000 <= address <= 0xBFFF {
            let actual = self.ram_bank * 0x2000 + (address - 0xA000);
            if !self.ram_locked && self.ram.len() > 0 && actual < self.ram.len() {
                CatridgeView { ram: self.ram.update(actual, value), ..self }
            } else {
                self
            }
        } else {
            self
        }
    }

    /// The banking state is in range: ROM bank 1..=31, RAM bank or clock
    /// register at most 0x0C (at most 3 without MBC3), five clock registers.
    pub open spec fn banks_in_range(self) -> bool {
        &&& 1 <= self.rom_bank <= 31
        &&& 0 <= self.ram_bank <= 0x0C
        &&& (self.mbc != MbcType::Mbc3 ==> self.ram_bank <= 3)
        &&& self.rtc.len() == 5
    }

    /// Whether a write of `value` to `address` latches the clock.
    pub open spec fn latches(self, address: u16, value: u8) -> bool {
        0x6000 <= address <= 0x7FFF && self.mbc == MbcType::Mbc3 && value == 0x01
    }
}

/// A cartridge: the ROM image, its external RAM and the controller state.
pub struct Catridge {
    rom_file: Vec<u8>,
    rom_ext_ram: Vec<u8>,
    rom_indx: usize,
    rom_ext_indx: usize,
    eram_lock: bool,
    mbc_type: MbcType,
    rtc_registers: [u8; 5],
}

impl View for Catridge {
    type V = CatridgeView;

    closed spec fn view(&self) -> CatridgeView {
        CatridgeView {
            rom: self.rom_file@,
            ram: self.rom_ext_ram@,
            rom_bank: self.rom_indx as int,
            ram_bank: self.rom_ext_indx as int,
            ram_locked: self.eram_lock,
            mbc: self.mbc_type,
            rtc: self.rtc_registers@,
        }
    }
}

/// `std::time::SystemTime`, carried through as an opaque value.
#[verifier::external_type_specification]
#[verifier::external_body]
pub struct ExSystemTime(std::time::SystemTime);

/// `std::time::SystemTime::now`. Nothing is stated of the time it returns.
#[verifier::external_body]
fn system_time_now() -> SystemTime {
    SystemTime::now()
}

/// `SystemTime::duration_since(UNIX_EPOCH)`, with its error as `None`. Nothing
/// is stated of the duration: it depends on the clock.
#[verifier::external_body]
fn since_unix_epoch(now: &SystemTime) -> Option<Duration> {
    now.duration_since(UNIX_EPOCH).ok()
}

/// `Duration::as_secs`. Nothing is stated of the result: a duration is opaque here.
#[verifier::external_body]
fn duration_secs(duration: &Duration) -> u64 {
    duration.as_secs()
}

impl Catridge {
    /// The banking state is always in range: ROM bank 1..=31, RAM bank or clock
    /// register at most 0x0C (at most 3 without MBC3), five clock registers.
    #[verifier::type_invariant]
    spec fn wf(&self) -> bool {
        &&& 1 <= self.rom_indx <= 31
        &&& self.rom_ext_indx <= 0x0C
        &&& (self.mbc_type != MbcType::Mbc3 ==> self.rom_ext_indx <= 3)
    }

    /// Reads the header: the controller from 0x0147 and the RAM size from
    /// 0x0149. ROM bank 1 is selected and the RAM is locked.
    pub fn new(data: Vec<u8>) -> (cart: Self)
        requires
            data.len() > 0x0149,
        ensures
            cart@.rom == data@,
            cart@.mbc == mbc_of(data@[0x0147]),
            cart@.ram.len() == ram_size_of(data@[0x0149]),
            forall|i: int| 0 <= i < cart@.ram.len() ==> cart@.ram[i] == 0,
            cart@.rom_bank == 1,
            cart@.ram_bank == 0,
            cart@.ram_locked,
            cart@.rtc == seq![0u8, 0u8, 0u8, 0u8, 0u8],
            cart@.banks_in_range(),
    {
        let mbc_type_selected = match data[0x0147] {
            0x01..=0x03 => MbcType::Mbc1,
            0x0F..=0x13 => MbcType::Mbc3,
            _ => MbcType::Mbc0,
        };
        let ram_size: usize = match data[0x0149] {
            0x00 => 0,
            0x01 => 0,
            0x02 => 8 * 1024,
            0x03 => 32 * 1024,
            0x04 => 128 * 1024,
            0x05 => 64 * 1024,
            _ => 0,
        };
        let rtc: [u8; 5] = [0, 0, 0, 0, 0];
        let cart = Catridge {
            rom_file: data,
            rom_ext_ram: vec![0; ram_size],
            rom_indx: 1,
            rom_ext_indx: 0,
            eram_lock: true,
            mbc_type: mbc_type_selected,
            rtc_registers: rtc,
        };
        proof {
            assert(cart@.rtc =~= seq![0u8, 0u8, 0u8, 0u8, 0u8]);
        }
        cart
    }

    /// Latches the clock registers to the time `now`, in seconds since 1970.
    pub fn latch_clock_at(&mut self, now: u64)
        ensures
            final(self)@ == old(self)@.latched(now),
            final(self)@.banks_in_range(),
    {
        proof {
            use_type_invariant(&*self);
        }
        self.rtc_registers[0] = (now % 60) as u8;
        self.rtc_registers[1] = ((now / 60) % 60) as u8;
        self.rtc_registers[2] = ((now / 3600) % 24) as u8;
    }

    /// Latches the clock registers to the system time. Where the system clock
    /// lies before 1970 the registers are left as they are.
    pub fn latch_clock(&mut self)
        ensures
            final(self)@ == old(self)@ || exists|now: u64| final(self)@ == old(self)@.latched(now),
            final(self)@.banks_in_range(),
    {
        proof {
            use_type_invariant(&*self);
        }
        let now = system_time_now();
        if let Some(duration) = since_unix_epoch(&now) {
            let secs = duration_secs(&duration);
            self.latch_clock_at(secs);
        }
    }

    /// The ROM bank selected for 0x4000..=0x7FFF; the banking state is in range.
    pub fn rom_bank(&self) -> (bank: usize)
        ensures
            bank == self@.rom_bank,
            self@.banks_in_range(),
    {
        proof {
            use_type_invariant(self);
        }
        self.rom_indx
    }

    /// The RAM bank or clock register selected for 0xA000..=0xBFFF; the
    /// banking state is in range.
    pub fn ram_bank(&self) -> (bank: usize)
        ensures
            bank == self@.ram_bank,
            self@.banks_in_range(),
    {
        proof {
            use_type_invariant(self);
        }
        self.rom_ext_indx
    }

    /// A read of 0x0000 + `address`: the fixed bank 0.
    pub fn read_rom_bank_00(&self, address: usize) -> (value: u8)
        requires
            address < self@.rom.len(),
        ensures
            value == self@.rom[address as int],
    {
        self.rom_file[address]
    }

    /// A read of 0x4000 + `address`: the selected ROM bank, 0xFF past the ROM.
    pub fn read_rom_bank_01(&self, address: usize) -> (value: u8)
        requires
            self@.rom_bank * 0x4000 + address <= usize::MAX,
        ensures
            value == self@.rom_bank_byte(address as int),
    {
        proof {
            use_type_invariant(self);
        }
        let actual_address = (self.rom_indx * 0x4000) + address;
        if actual_address < self.rom_file.len() {
            self.rom_file[actual_address]
        } else {
            0xFF
        }
    }

    /// A read of 0xA000 + `address`: external RAM or a clock register.
    pub fn read_rom_ext_ram(&self, address: usize) -> (value: u8)
        requires
            !self@.ram_locked && self@.ram.len() > 0 && self@.ram_bank <= 3 ==> self@.ram_bank
                * 0x2000 + address <= usize::MAX,
        ensures
            value == self@.ram_byte(address as int),
    {
        proof {
            use_type_invariant(self);
        }
        if !self.eram_lock && !self.rom_ext_ram.is_empty() {
            if self.rom_ext_indx <= 0x03 {
                let actual_address = (self.rom_ext_indx * 0x2000) + address;
                if actual_address < self.rom_ext_ram.len() {
                    self.rom_ext_ram[actual_address]
                } else {
                    0xFF
                }
            } else if self.rom_ext_indx >= 0x08 && self.rom_ext_indx <= 0x0C {
                self.rtc_registers[self.rom_ext_indx - 0x08]
            } else {
                0xFF
            }
        } else {
            0xFF
        }
    }

    /// A write to the controller's registers (0x0000..=0x7FFF) or to the
    /// external RAM (0xA000..=0xBFFF).
    pub fn write(&mut self, address: u16, value: u8)
        ensures
            !old(self)@.latches(address, value) ==> final(self)@ == old(self)@.written(address, value),
            old(self)@.latches(address, value) ==> (final(self)@ == old(self)@ || exists|now: u64|
                final(self)@ == old(self)@.latched(now)),
            final(self)@.banks_in_range(),
    {
        proof {
            use_type_invariant(&*self);
            lemma_byte_masks(value);
        }
        if address <= 0x1FFF {
            self.eram_lock = (value & 0x0F) != 0x0A;
        } else if address <= 0x3FFF {
            let mut bank = (value & 0x1F) as usize;
            if bank == 0 {
                bank = 1;
            }
            self.rom_indx = bank;
        } else if address <= 0x5FFF {
            if self.mbc_type == MbcType::Mbc3 {
                if value <= 0x03 || (value <= 0x0C && value >= 0x08) {
                    self.rom_ext_indx = value as usize;
                }
            } else {
                self.rom_ext_indx = (value & 0x03) as usize;
            }
        } else if address <= 0x7FFF {
            if self.mbc_type == MbcType::Mbc3 {
                if value == 0x01 {
                    self.latch_clock();
                }
            }
        } else if address >= 0xA000 && address <= 0xBFFF {
            if !self.eram_lock && !self.rom_ext_ram.is_empty() {
                let offset = (address - 0xA000) as usize;
                let actual_address = (self.rom_ext_indx * 0x2000) + offset;
                if actual_address < self.rom_ext_ram.len() {
                    let mut ram = Vec::new();
                    std::mem::swap(&mut ram, &mut self.rom_ext_ram);
                    ram.set(actual_address, value);
                    self.rom_ext_ram = ram;
                }
            }
        }
    }
}

/// With the RAM unlocked and a RAM bank selected, a read of external RAM
/// gives back the byte last written at that offset, and the write leaves the
/// other offsets as they were.
pub proof fn lemma_ram_read_after_write(v: CatridgeView, offset: u16, other: u16, value: u8)
    requires
        offset <= 0x1FFF,
        other <= 0x1FFF,
        !v.ram_locked,
        0 <= v.ram_bank <= 3,
        v.ram_bank * 0x2000 + offset < v.ram.len(),
    ensures
        v.written((0xA000 + offset) as u16, value).ram_byte(offset as int) == value,
        other != offset ==> v.written((0xA000 + offset) as u16, value).ram_byte(other as int)
            == v.ram_byte(other as int),
{
}

/// A write of a value with low nibble 0x0A to 0x0000..=0x1FFF unlocks the
/// RAM; any other value locks it; a locked RAM reads as 0xFF and ignores writes.
pub proof fn lemma_ram_lock(v: CatridgeView, address: u16, value: u8, offset: u16)
    requires
        address <= 0x1FFF,
        offset <= 0x1FFF,
    ensures
        v.written(address, value).ram_locked == (value % 16 != 0x0A),
        v.ram_locked ==> v.ram_byte(offset as int) == 0xFF,
        v.ram_locked ==> v.written((0xA000 + offset) as u16, value) == v,
{
}

/// A write to 0x2000..=0x3FFF selects ROM bank `value % 32` for
/// 0x4000..=0x7FFF, with bank 0 read as bank 1.
pub proof fn lemma_rom_bank_select(v: CatridgeView, address: u16, value: u8, offset: int)
    requires
        0x2000 <= address <= 0x3FFF,
    ensures
        v.written(address, value).rom_bank == (if value % 32 == 0 { 1 } else { value % 32 }),
        v.written(address, value).rom_bank_byte(offset) == v.rom_bank_byte(offset - v.rom_bank
            * 0x4000 + (if value % 32 == 0 { 1 } else { value % 32 }) * 0x4000),
{
}

/// Writes and clock latches keep the banking state in range.
pub proof fn lemma_banks_stay_in_range(v: CatridgeView, address: u16, value: u8, now: u64)
    requires
        v.banks_in_range(),
    ensures
        v.written(address, value).banks_in_range(),
        v.latched(now).banks_in_range(),
{
}

/// After a latch, the clock registers 8, 9 and 10 read as the seconds,
/// minutes and hours of the latched time, when the RAM is unlocked and present.
pub proof fn lemma_latched_clock_reads(v: CatridgeView, now: u64, offset: int)
    requires
        v.banks_in_range(),
        !v.ram_locked,
        v.ram.len() > 0,
    ensures
        v.ram_bank == 8 ==> v.latched(now).ram_byte(offset) == now % 60,
        v.ram_bank == 9 ==> v.latched(now).ram_byte(offset) == (now / 60) % 60,
        v.ram_bank == 10 ==> v.latched(now).ram_byte(offset) == (now / 3600) % 24,
{
}

/// A write to 0x4000..=0x5FFF selects the RAM bank or clock register: on
/// MBC3 the values 0x00..=0x03 select that RAM bank and 0x08..=0x0C that clock
/// register, and other values are ignored; without MBC3 the low two bits
/// select the RAM bank. Nothing else changes.
pub proof fn lemma_ram_bank_select(v: CatridgeView, address: u16, value: u8)
    requires
        0x4000 <= address <= 0x5FFF,
    ensures
        v.mbc == MbcType::Mbc3 && (value <= 0x03 || (0x08 <= value && value <= 0x0C)) ==> v.written(
            address,
            value,
        ).ram_bank == value,
        v.mbc == MbcType::Mbc3 && !(value <= 0x03 || (0x08 <= value && value <= 0x0C)) ==> v.written(
            address,
            value,
        ).ram_bank == v.ram_bank,
        v.mbc != MbcType::Mbc3 ==> v.written(address, value).ram_bank == value % 4,
        v.written(address, value) == (CatridgeView { ram_bank: v.written(address, value).ram_bank, ..v }),
{
}

/// The header's cartridge type selects MBC1 for 0x01..=0x03, MBC3 for
/// 0x0F..=0x13 and no controller otherwise; its RAM size code gives 8 KiB
/// (0x02), 32 KiB (0x03), 128 KiB (0x04), 64 KiB (0x05), and no RAM otherwise.
pub proof fn lemma_header_codes(kind: u8, code: u8)
    ensures
        (mbc_of(kind) == MbcType::Mbc1) == (1 <= kind && kind <= 3),
        (mbc_of(kind) == MbcType::Mbc3) == (0x0F <= kind && kind <= 0x13),
        (mbc_of(kind) == MbcType::Mbc0) == !((1 <= kind && kind <= 3) || (0x0F <= kind && kind <= 0x13)),
        code == 0x02 ==> ram_size_of(code) == 0x2000,
        code == 0x03 ==> ram_size_of(code) == 0x8000,
        code == 0x04 ==> ram_size_of(code) == 0x20000,
        code == 0x05 ==> ram_size_of(code) == 0x10000,
        (code < 0x02 || code > 0x05) ==> ram_size_of(code) == 0,
{
}

/// With the RAM unlocked and present, a read of external RAM with RAM bank
/// k in 0..=3 selected gives the byte at k * 0x2000 + offset (0xFF past the
/// end of the RAM); with clock register 8..=12 selected it gives that
/// register; with 4..=7 selected it gives 0xFF.
pub proof fn lemma_ram_read_source(v: CatridgeView, offset: int)
    requires
        !v.ram_locked,
        v.ram.len() > 0,
        v.banks_in_range(),
        0 <= offset,
    ensures
        v.ram_bank <= 3 && v.ram_bank * 0x2000 + offset < v.ram.len() ==> v.ram_byte(offset) == v.ram[v.ram_bank
            * 0x2000 + offset],
        v.ram_bank <= 3 && v.ram_bank * 0x2000 + offset >= v.ram.len() ==> v.ram_byte(offset) == 0xFF,
        8 <= v.ram_bank ==> v.ram_byte(offset) == v.rtc[v.ram_bank - 8],
        4 <= v.ram_bank <= 7 ==> v.ram_byte(offset) == 0xFF,
{
}

} // verus!
