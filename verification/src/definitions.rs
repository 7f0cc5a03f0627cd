//! The machine's data: constants, the state struct, its execution mode,
//! and the non-fatal fault reports.

use vstd::prelude::*;

verus! {

/// Bytes of machine memory, addressable 0x000-0xFFF.
pub const RAM_SIZE: usize = 4096;

/// Number of general-purpose 8-bit registers V0-VF.
pub const NUM_REGS: usize = 16;

/// Capacity of the call stack, in return addresses.
pub const STACK_SIZE: usize = 16;

/// Number of keypad keys (hex keypad 0-F).
pub const NUM_KEYS: usize = 16;

/// Address at which loaded programs begin; everything below is reserved
/// for interpreter data (the font table).
pub const START_ADDR: u16 = 0x200;

/// Display height in pixels.
pub const DISP_ROWS: usize = 32;

/// Display width in pixels.
pub const DISP_COLS: usize = 64;

/// Whether the machine is fetching instructions normally or is suspended
/// inside a "wait for key" instruction. While awaiting a key, `tick` does
/// not fetch; it re-checks the keypad and, once some key is pressed,
/// writes that key's index into register `target` and resumes.
#[derive(Clone, Copy, PartialEq, Eq, Structural, Debug)]
pub enum Mode {
    Running,
    AwaitingKey { target: u8 },
}

/// A non-fatal condition raised by an instruction. The machine keeps
/// running: the offending instruction acts as a no-op (beyond the program
/// counter having already advanced past it) and the condition is handed to
/// the host to report. `op` is the fetched instruction word and `addr` the
/// program counter at execution time, i.e. already pointing past the word.
#[derive(Clone, Copy, PartialEq, Eq, Structural, Debug)]
pub enum Fault {
    /// A return instruction found the call stack empty.
    StackUnderflow { op: u16, addr: u16 },
    /// A call instruction found the call stack full.
    StackOverflow { op: u16, addr: u16 },
    /// The fetched word matches no instruction pattern.
    UnknownOpcode { op: u16, addr: u16 },
}

/// The virtual machine: memory, registers, call stack, framebuffer,
/// keypad image, timers, and the pseudo-random generator state used by
/// the random-byte instruction. The host seeds `rng` through `seed`.
pub struct Cpu {
    /// Machine memory; the font table occupies the bottom 80 bytes.
    pub ram: Vec<u8>,
    /// Program counter: address of the next instruction word.
    pub pc: u16,
    /// Index register, the base address for memory-indexed instructions.
    pub i_reg: u16,
    /// General-purpose registers V0-VF; VF doubles as the flag register.
    pub v_reg: Vec<u8>,
    /// Framebuffer, row-major, 64 columns by 32 rows, true = lit.
    pub display: Vec<bool>,
    /// Stack pointer: number of occupied stack slots.
    pub sp: u16,
    /// Call stack of return addresses.
    pub stack: Vec<u16>,
    /// Keypad image, true = pressed; written by the host.
    pub keypad: Vec<bool>,
    /// Delay timer, decremented at 60 Hz toward zero.
    pub dt: u8,
    /// Sound timer; a tone plays while it is nonzero.
    pub st: u8,
    /// Normal fetching, or suspended awaiting a key press.
    pub mode: Mode,
    /// State of the deterministic pseudo-random generator.
    pub rng: u16,
}

} // verus!
