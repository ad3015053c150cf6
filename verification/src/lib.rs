//! Core of an emulator for an 8-bit handheld console: register file, memory
//! bus, instruction decoding and execution, display timing and interrupts.

pub mod bits;
pub mod cartridge;
pub mod cpu;
pub mod gameboy;
pub mod memory;
pub mod ppu;
pub mod utils;
