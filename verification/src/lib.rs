//! A verified emulation core for the MOS 6502 processor of an 8-bit game
//! console: register file and status flags, the full documented and
//! undocumented opcode space, the thirteen addressing modes with their
//! conditional page-cross cycle penalties, the memory bus with work-RAM and
//! PRG-ROM mirroring, a fixed-mapping cartridge, breakpoints, and the
//! per-instruction trace-line format used to check execution against a
//! reference log.

pub mod bus;
pub mod cart;
pub mod cpu;
pub mod instr;
pub mod laws;
pub mod nes;
pub mod ppu;
pub mod sem;
pub mod text;
pub mod vram;
pub mod wram;

pub use nes::NES;
