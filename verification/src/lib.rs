//! A verified CHIP-8 virtual machine: flat 4096-byte memory with a built-in
//! font, sixteen 8-bit registers, a 16-entry call stack, two timers, a 64x32
//! monochrome framebuffer, and the full 35-opcode instruction set.

pub mod cpu;
pub mod fault;
pub mod font;
pub mod laws;
pub mod mem;
pub mod state;
