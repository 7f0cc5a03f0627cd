//! A verified interpreter core for the CHIP-8 instruction set.
//!
//! The `Cpu` owns the whole machine state: 4096 bytes of memory, sixteen
//! 8-bit registers, a sixteen-entry call stack, a 64x32 monochrome
//! framebuffer, a sixteen-key keypad image, and two 8-bit timers. A host
//! drives it through `tick` (one fetch-decode-execute cycle) and
//! `timer_tick` (the 60 Hz timer decay), and reads the framebuffer and
//! sound timer back out. Every instruction's effect is specified against a
//! mathematical model of the machine and proved.

pub mod definitions;
pub mod emu;
pub mod font;
pub mod laws;
pub mod model;
