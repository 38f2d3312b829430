# celsius

A Game Boy core whose logic is verified with Verus.

- `src/cpu_v2.rs`: the full processor model (register file, flags, interrupt
  entry, the instruction set and `step`); `src/cpu_v2_spec.rs` states what each
  instruction does over the registers and the bus, and `src/cpu_v2_laws.rs`
  proves laws over those statements (PUSH/POP and CALL/RET over two steps, interrupt
  entry and RETI, inverse operations, the flag register's low nibble).
- `src/cpu.rs`: the first, smaller processor model (NOP and LD A, n).
- `src/bus.rs`: the bus trait the processors run on, and the system bus that
  lays the boot ROM over the memory behind it; `src/ram.rs`: the flat memory
  map that implements the trait.
- `src/catridge.rs`: MBC1/MBC3 ROM and RAM banking and the MBC3 clock.
- `src/joypad.rs`, `src/ppu.rs`: the joypad register and the PPU state.
- `src/bits.rs`: bit-level facts the proofs use.
- `app/main.rs`: the ESP32-S3 firmware entry.
