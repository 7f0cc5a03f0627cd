//! The mathematical model of the machine and the complete instruction
//! semantics. Every executable entry point of `Cpu` is specified against
//! the functions in this module: `spec_exec` gives the effect of each of
//! the 34 instruction patterns (and the unknown-opcode report for every
//! other word), `spec_tick` composes fetch and execute with the
//! awaiting-key suspension, and `spec_timer_tick` gives the timer decay.
//!
//! Conventions this model fixes (and documents for the whole crate):
//! - All memory addressing wraps modulo 4096: the program counter, sprite
//!   reads and indexed stores use the low twelve bits of their address.
//! - Sprite drawing clips at the right and bottom screen edges; only the
//!   start position wraps (Vx mod 64, Vy mod 32).
//! - Where an instruction both writes Vx and the flag VF, the flag write
//!   happens last, so with x = F the flag value is what remains.
//! - The "wait for key" instruction completes on the lowest-numbered
//!   pressed key.

use vstd::prelude::*;

use crate::definitions::{Fault, Mode};
use crate::font::font_at;

verus! {

/// The machine state as mathematics: sequences in place of vectors,
/// otherwise field for field the state of `Cpu`.
#[verifier::ext_equal]
pub ghost struct Model {
    pub mem: Seq<u8>,
    pub pc: u16,
    pub i: u16,
    pub v: Seq<u8>,
    pub disp: Seq<bool>,
    pub sp: u16,
    pub stack: Seq<u16>,
    pub keypad: Seq<bool>,
    pub dt: u8,
    pub st: u8,
    pub mode: Mode,
    pub rng: u16,
}

impl Model {
    /// Well-formedness: the fixed sizes of the machine's storage, the
    /// stack pointer and program counter in range, and a register index
    /// as the target of a pending key wait.
    pub open spec fn inv(self) -> bool {
        &&& self.mem.len() == 4096
        &&& self.v.len() == 16
        &&& self.disp.len() == 2048
        &&& self.stack.len() == 16
        &&& self.keypad.len() == 16
        &&& self.sp <= 16
        &&& self.pc < 4096
        &&& forall|j: int| 0 <= j < self.sp ==> self.stack[j] < 4096
        &&& match self.mode {
            Mode::Running => true,
            Mode::AwaitingKey { target } => target < 16,
        }
    }
}

/// The machine state established by construction and by reset: memory
/// zero except for the font table, program counter at the load address,
/// everything else cleared.
pub open spec fn init_model() -> Model {
    Model {
        mem: Seq::new(4096, |a: int| if a < 80 { font_at(a) } else { 0u8 }),
        pc: 0x200,
        i: 0,
        v: Seq::new(16, |k: int| 0u8),
        disp: Seq::new(2048, |p: int| false),
        sp: 0,
        stack: Seq::new(16, |k: int| 0u16),
        keypad: Seq::new(16, |k: int| false),
        dt: 0,
        st: 0,
        mode: Mode::Running,
        rng: 0,
    }
}

// ---------------------------------------------------------------------
// Decoding. The four nibbles of an instruction word and the derived
// immediate fields, written with division and remainder so that the
// solver can reason about them directly.
// ---------------------------------------------------------------------

/// The high nibble of the instruction word.
pub open spec fn nib1(op: u16) -> u16 {
    op / 4096
}

/// The second nibble: the register index x.
pub open spec fn op_x(op: u16) -> int {
    ((op / 256) % 16) as int
}

/// The third nibble: the register index y.
pub open spec fn op_y(op: u16) -> int {
    ((op / 16) % 16) as int
}

/// The low nibble: the 4-bit immediate n.
pub open spec fn nib4(op: u16) -> u16 {
    op % 16
}

/// The low byte: the 8-bit immediate nn.
pub open spec fn op_nn(op: u16) -> u8 {
    (op % 256) as u8
}

/// The low twelve bits: the address immediate nnn.
pub open spec fn op_nnn(op: u16) -> u16 {
    op % 4096
}

// ---------------------------------------------------------------------
// The pseudo-random generator: a 16-bit linear congruential step. It is
// deterministic on purpose — the host seeds it — so the random-byte
// instruction has an exact specification.
// ---------------------------------------------------------------------

/// One step of the pseudo-random generator.
pub open spec fn rng_next(r: u16) -> u16 {
    ((r * 25173 + 13849) % 65536) as u16
}

/// The byte drawn from the freshly advanced generator state.
pub open spec fn rng_byte(r: u16) -> u8 {
    (rng_next(r) / 256) as u8
}

// ---------------------------------------------------------------------
// Sprite drawing.
// ---------------------------------------------------------------------

/// The place value of bit `k` of a byte, counted from the most
/// significant: 128 for bit 0 down to 1 for bit 7.
pub open spec fn bit_weight(k: int) -> u8 {
    if k == 0 {
        128
    } else if k == 1 {
        64
    } else if k == 2 {
        32
    } else if k == 3 {
        16
    } else if k == 4 {
        8
    } else if k == 5 {
        4
    } else if k == 6 {
        2
    } else {
        1
    }
}

/// Whether bit `k` (counted from the most significant) of `byte` is set.
pub open spec fn bit_of(byte: u8, k: int) -> bool {
    (byte / bit_weight(k)) % 2 == 1
}

/// The sprite byte for relative row `rr`, read at the index register
/// plus `rr`, wrapping modulo 4096.
pub open spec fn sprite_row_byte(mem: Seq<u8>, i: u16, rr: int) -> u8 {
    mem[(i + rr) % 4096]
}

/// Whether screen cell (row `r`, column `c`) lies under an `n`-row
/// sprite whose top-left corner is at (`y0`, `x0`). Cells beyond the
/// right or bottom screen edge are never asked about: the draw clips.
pub open spec fn sprite_covers(x0: int, y0: int, n: int, r: int, c: int) -> bool {
    y0 <= r < y0 + n && x0 <= c < x0 + 8
}

/// The value of display cell `idx` (row-major, row `idx / 64`, column
/// `idx % 64`) after XOR-blitting the sprite onto `disp`.
pub open spec fn draw_pixel(
    disp: Seq<bool>,
    mem: Seq<u8>,
    i: u16,
    x0: int,
    y0: int,
    n: int,
    idx: int,
) -> bool {
    let r = idx / 64;
    let c = idx % 64;
    if sprite_covers(x0, y0, n, r, c) && bit_of(sprite_row_byte(mem, i, r - y0), c - x0) {
        !disp[idx]
    } else {
        disp[idx]
    }
}

/// The whole display after XOR-blitting the sprite.
pub open spec fn draw_disp(
    disp: Seq<bool>,
    mem: Seq<u8>,
    i: u16,
    x0: int,
    y0: int,
    n: int,
) -> Seq<bool> {
    Seq::new(2048, |idx: int| draw_pixel(disp, mem, i, x0, y0, n, idx))
}

/// Cell `idx` is lit in `disp` and a set sprite bit lands on it — the
/// draw turns it off, a collision at `idx`.
pub open spec fn hits(
    disp: Seq<bool>,
    mem: Seq<u8>,
    i: u16,
    x0: int,
    y0: int,
    n: int,
    idx: int,
) -> bool {
    &&& 0 <= idx < 2048
    &&& sprite_covers(x0, y0, n, idx / 64, idx % 64)
    &&& bit_of(sprite_row_byte(mem, i, idx / 64 - y0), idx % 64 - x0)
    &&& disp[idx]
}

/// Whether sprite cell (relative row `rr`, column `cc`) comes before
/// the cell the draw loop is about to process, in row-major order.
pub open spec fn cell_done(row: int, col: int, rr: int, cc: int) -> bool {
    rr < row || (rr == row && cc < col)
}

/// The value of display cell `idx` once the draw loop has processed
/// every sprite cell before (`row`, `col`).
pub open spec fn draw_pixel_upto(
    disp: Seq<bool>,
    mem: Seq<u8>,
    i: u16,
    x0: int,
    y0: int,
    n: int,
    row: int,
    col: int,
    idx: int,
) -> bool {
    let r = idx / 64;
    let c = idx % 64;
    if sprite_covers(x0, y0, n, r, c) && cell_done(row, col, r - y0, c - x0) && bit_of(
        sprite_row_byte(mem, i, r - y0),
        c - x0,
    ) {
        !disp[idx]
    } else {
        disp[idx]
    }
}

/// A collision at `idx` among the sprite cells before (`row`, `col`).
pub open spec fn hits_upto(
    disp: Seq<bool>,
    mem: Seq<u8>,
    i: u16,
    x0: int,
    y0: int,
    n: int,
    row: int,
    col: int,
    idx: int,
) -> bool {
    hits(disp, mem, i, x0, y0, n, idx) && cell_done(row, col, idx / 64 - y0, idx % 64 - x0)
}

/// Whether the draw loop has seen a collision before (`row`, `col`).
pub open spec fn collision_upto(
    disp: Seq<bool>,
    mem: Seq<u8>,
    i: u16,
    x0: int,
    y0: int,
    n: int,
    row: int,
    col: int,
) -> bool {
    exists|idx: int| hits_upto(disp, mem, i, x0, y0, n, row, col, idx)
}

/// Cell `idx` is unlit in `disp` and a set sprite bit lands on it —
/// the draw turns it on.
pub open spec fn lights(
    disp: Seq<bool>,
    mem: Seq<u8>,
    i: u16,
    x0: int,
    y0: int,
    n: int,
    idx: int,
) -> bool {
    &&& 0 <= idx < 2048
    &&& sprite_covers(x0, y0, n, idx / 64, idx % 64)
    &&& bit_of(sprite_row_byte(mem, i, idx / 64 - y0), idx % 64 - x0)
    &&& !disp[idx]
}

/// Whether the draw reports a collision in VF.
pub open spec fn draw_collision(
    disp: Seq<bool>,
    mem: Seq<u8>,
    i: u16,
    x0: int,
    y0: int,
    n: int,
) -> bool {
    exists|idx: int| hits(disp, mem, i, x0, y0, n, idx)
}

// ---------------------------------------------------------------------
// Register dump and load.
// ---------------------------------------------------------------------

/// Memory after storing registers V0..V(cnt-1) at consecutive addresses
/// from the index register on, wrapping modulo 4096.
pub open spec fn store_seq(mem: Seq<u8>, v: Seq<u8>, i: u16, cnt: int) -> Seq<u8>
    decreases cnt,
{
    if cnt <= 0 {
        mem
    } else {
        store_seq(mem, v, i, cnt - 1).update((i + cnt - 1) % 4096, v[cnt - 1])
    }
}

/// Registers after loading V0..V(cnt-1) from consecutive addresses from
/// the index register on, wrapping modulo 4096.
pub open spec fn load_seq(v: Seq<u8>, mem: Seq<u8>, i: u16, cnt: int) -> Seq<u8>
    decreases cnt,
{
    if cnt <= 0 {
        v
    } else {
        load_seq(v, mem, i, cnt - 1).update(cnt - 1, mem[(i + cnt - 1) % 4096])
    }
}

// ---------------------------------------------------------------------
// Keypad.
// ---------------------------------------------------------------------

/// The index of the first pressed key at or after `k`, or 16 when none
/// of keys `k`..15 is pressed.
pub open spec fn first_key_from(keys: Seq<bool>, k: int) -> int
    decreases 16 - k,
{
    if k < 0 || k >= 16 {
        16
    } else if keys[k] {
        k
    } else {
        first_key_from(keys, k + 1)
    }
}

// ---------------------------------------------------------------------
// The cycle.
// ---------------------------------------------------------------------

/// The big-endian instruction word at the program counter.
pub open spec fn op_at(m: Model) -> u16 {
    (m.mem[m.pc as int] * 256 + m.mem[((m.pc + 1) % 4096) as int]) as u16
}

/// The machine after the fetch step: the program counter advanced past
/// the instruction word, wrapping modulo 4096.
pub open spec fn after_fetch(m: Model) -> Model {
    Model { pc: (((m.pc + 2) % 4096) as u16), ..m }
}

/// The machine with the next instruction skipped.
pub open spec fn skip(m: Model) -> Model {
    Model { pc: (((m.pc + 2) % 4096) as u16), ..m }
}

/// The complete instruction semantics: the machine state and the fault
/// report produced by executing the word `op` from state `m`, the
/// program counter already pointing past the word. Every one of the
/// 65536 words is covered; a word matching no pattern leaves the state
/// unchanged and reports an unknown opcode.
pub open spec fn spec_exec(m: Model, op: u16) -> (Model, Option<Fault>) {
    let x = op_x(op);
    let y = op_y(op);
    let n = nib4(op) as int;
    let nn = op_nn(op);
    let nnn = op_nnn(op);
    let vx = m.v[x];
    let vy = m.v[y];
    if op == 0x00E0 {
        // CLS: clear the framebuffer.
        (Model { disp: Seq::new(2048, |p: int| false), ..m }, None)
    } else if op == 0x00EE {
        // RET: pop the return address; underflow reports and is a no-op.
        if m.sp > 0 {
            (Model { pc: m.stack[m.sp - 1], sp: (m.sp - 1) as u16, ..m }, None)
        } else {
            (m, Some(Fault::StackUnderflow { op, addr: m.pc }))
        }
    } else if nib1(op) == 1 {
        // JMP nnn.
        (Model { pc: nnn, ..m }, None)
    } else if nib1(op) == 2 {
        // CALL nnn: push the post-fetch program counter, then jump;
        // overflow reports and the whole call is ignored.
        if m.sp < 16 {
            (
                Model {
                    stack: m.stack.update(m.sp as int, m.pc),
                    sp: (m.sp + 1) as u16,
                    pc: nnn,
                    ..m
                },
                None,
            )
        } else {
            (m, Some(Fault::StackOverflow { op, addr: m.pc }))
        }
    } else if nib1(op) == 3 {
        // SE Vx, nn: skip when equal.
        (if vx == nn { skip(m) } else { m }, None)
    } else if nib1(op) == 4 {
        // SNE Vx, nn: skip when not equal.
        (if vx != nn { skip(m) } else { m }, None)
    } else if nib1(op) == 5 && nib4(op) == 0 {
        // SE Vx, Vy.
        (if vx == vy { skip(m) } else { m }, None)
    } else if nib1(op) == 6 {
        // LD Vx, nn.
        (Model { v: m.v.update(x, nn), ..m }, None)
    } else if nib1(op) == 7 {
        // ADD Vx, nn: 8-bit wraparound, no flag.
        (Model { v: m.v.update(x, ((vx + nn) % 256) as u8), ..m }, None)
    } else if nib1(op) == 8 && nib4(op) == 0 {
        // LD Vx, Vy.
        (Model { v: m.v.update(x, vy), ..m }, None)
    } else if nib1(op) == 8 && nib4(op) == 1 {
        // OR Vx, Vy.
        (Model { v: m.v.update(x, vx | vy), ..m }, None)
    } else if nib1(op) == 8 && nib4(op) == 2 {
        // AND Vx, Vy.
        (Model { v: m.v.update(x, vx & vy), ..m }, None)
    } else if nib1(op) == 8 && nib4(op) == 3 {
        // XOR Vx, Vy.
        (Model { v: m.v.update(x, vx ^ vy), ..m }, None)
    } else if nib1(op) == 8 && nib4(op) == 4 {
        // ADD Vx, Vy: wraparound sum, VF = carry, written last.
        (
            Model {
                v: m.v.update(x, ((vx + vy) % 256) as u8).update(
                    15,
                    if vx + vy > 255 { 1u8 } else { 0u8 },
                ),
                ..m
            },
            None,
        )
    } else if nib1(op) == 8 && nib4(op) == 5 {
        // SUB Vx, Vy: wraparound difference, VF = 1 when no borrow.
        (
            Model {
                v: m.v.update(x, ((vx + 256 - vy) % 256) as u8).update(
                    15,
                    if vx >= vy { 1u8 } else { 0u8 },
                ),
                ..m
            },
            None,
        )
    } else if nib1(op) == 8 && nib4(op) == 6 {
        // SHR Vx: VF = bit shifted out.
        (Model { v: m.v.update(x, (vx / 2) as u8).update(15, (vx % 2) as u8), ..m }, None)
    } else if nib1(op) == 8 && nib4(op) == 7 {
        // SUBN Vx, Vy: Vy - Vx, VF = 1 when no borrow.
        (
            Model {
                v: m.v.update(x, ((vy + 256 - vx) % 256) as u8).update(
                    15,
                    if vy >= vx { 1u8 } else { 0u8 },
                ),
                ..m
            },
            None,
        )
    } else if nib1(op) == 8 && nib4(op) == 0xE {
        // SHL Vx: VF = bit shifted out.
        (Model { v: m.v.update(x, ((vx % 128) * 2) as u8).update(15, (vx / 128) as u8), ..m }, None)
    } else if nib1(op) == 9 && nib4(op) == 0 {
        // SNE Vx, Vy.
        (if vx != vy { skip(m) } else { m }, None)
    } else if nib1(op) == 0xA {
        // LD I, nnn.
        (Model { i: nnn, ..m }, None)
    } else if nib1(op) == 0xB {
        // JMP nnn + V0, kept inside memory by the 12-bit wrap.
        (Model { pc: ((nnn + m.v[0]) % 4096) as u16, ..m }, None)
    } else if nib1(op) == 0xC {
        // RND Vx, nn: nn AND the next pseudo-random byte.
        (Model { v: m.v.update(x, nn & rng_byte(m.rng)), rng: rng_next(m.rng), ..m }, None)
    } else if nib1(op) == 0xD {
        // DRW Vx, Vy, n: XOR-blit, VF = collision.
        let x0 = (vx % 64) as int;
        let y0 = (vy % 32) as int;
        let flag = draw_collision(m.disp, m.mem, m.i, x0, y0, n);
        (
            Model {
                disp: draw_disp(m.disp, m.mem, m.i, x0, y0, n),
                v: m.v.update(15, if flag { 1u8 } else { 0u8 }),
                ..m
            },
            None,
        )
    } else if nib1(op) == 0xE && nn == 0x9E {
        // SKP Vx: skip when the key in Vx's low nibble is pressed.
        (if m.keypad[(vx % 16) as int] { skip(m) } else { m }, None)
    } else if nib1(op) == 0xE && nn == 0xA1 {
        // SKNP Vx: skip when that key is not pressed.
        (if !m.keypad[(vx % 16) as int] { skip(m) } else { m }, None)
    } else if nib1(op) == 0xF && nn == 0x07 {
        // LD Vx, DT.
        (Model { v: m.v.update(x, m.dt), ..m }, None)
    } else if nib1(op) == 0xF && nn == 0x0A {
        // LD Vx, K: suspend until a key press is observed.
        (Model { mode: Mode::AwaitingKey { target: x as u8 }, ..m }, None)
    } else if nib1(op) == 0xF && nn == 0x15 {
        // LD DT, Vx.
        (Model { dt: vx, ..m }, None)
    } else if nib1(op) == 0xF && nn == 0x18 {
        // LD ST, Vx.
        (Model { st: vx, ..m }, None)
    } else if nib1(op) == 0xF && nn == 0x1E {
        // ADD I, Vx: 16-bit wraparound, no flag.
        (Model { i: ((m.i + vx) % 65536) as u16, ..m }, None)
    } else if nib1(op) == 0xF && nn == 0x29 {
        // LD F, Vx: address of the glyph for Vx's low nibble.
        (Model { i: ((vx % 16) * 5) as u16, ..m }, None)
    } else if nib1(op) == 0xF && nn == 0x33 {
        // BCD Vx: hundreds, tens, ones at I, I+1, I+2.
        (
            Model {
                mem: m.mem.update((m.i % 4096) as int, (vx / 100) as u8).update(
                    ((m.i + 1) % 4096) as int,
                    ((vx / 10) % 10) as u8,
                ).update(((m.i + 2) % 4096) as int, (vx % 10) as u8),
                ..m
            },
            None,
        )
    } else if nib1(op) == 0xF && nn == 0x55 {
        // LD [I], Vx: dump V0..Vx.
        (Model { mem: store_seq(m.mem, m.v, m.i, x + 1), ..m }, None)
    } else if nib1(op) == 0xF && nn == 0x65 {
        // LD Vx, [I]: load V0..Vx.
        (Model { v: load_seq(m.v, m.mem, m.i, x + 1), ..m }, None)
    } else {
        (m, Some(Fault::UnknownOpcode { op, addr: m.pc }))
    }
}

/// One call of `tick`. While awaiting a key, no fetch happens: if some
/// key is pressed, the lowest-numbered one completes the pending write
/// and the machine resumes; otherwise nothing changes. When running,
/// fetch advances the program counter and the fetched word executes.
pub open spec fn spec_tick(m: Model) -> (Model, Option<Fault>) {
    match m.mode {
        Mode::Running => spec_exec(after_fetch(m), op_at(m)),
        Mode::AwaitingKey { target } => {
            let k = first_key_from(m.keypad, 0);
            if k < 16 {
                (Model { v: m.v.update(target as int, k as u8), mode: Mode::Running, ..m }, None)
            } else {
                (m, None)
            }
        },
    }
}

/// One call of `timer_tick`: each timer, when nonzero, decremented by
/// one and otherwise held at zero.
pub open spec fn spec_timer_tick(m: Model) -> Model {
    Model {
        dt: if m.dt > 0 { (m.dt - 1) as u8 } else { 0 },
        st: if m.st > 0 { (m.st - 1) as u8 } else { 0 },
        ..m
    }
}

/// Memory after copying a program image verbatim at the load address.
pub open spec fn load_mem(mem: Seq<u8>, prog: Seq<u8>) -> Seq<u8> {
    Seq::new(4096, |a: int| if 512 <= a < 512 + prog.len() { prog[a - 512] } else { mem[a] })
}

} // verus!
