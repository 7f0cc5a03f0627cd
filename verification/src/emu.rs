//! The executable machine and its proofs: construction, reset, program
//! loading, the stack, the fetch-decode-execute cycle, the timers, and
//! the peripheral accessors. Every public function's contract is stated
//! over the model in `crate::model`.

use vstd::prelude::*;

use crate::definitions::{
    Cpu, Fault, Mode, DISP_COLS, DISP_ROWS, NUM_KEYS, NUM_REGS, RAM_SIZE, STACK_SIZE, START_ADDR,
};
use crate::font::{font_at, font_byte};
use crate::model::{
    after_fetch, bit_of, bit_weight, collision_upto, draw_collision, draw_disp, draw_pixel,
    draw_pixel_upto, first_key_from, hits, hits_upto, init_model, load_mem, load_seq, op_at,
    op_nn, op_nnn, op_x, op_y, nib1, nib4, rng_byte, rng_next, spec_exec, spec_tick,
    spec_timer_tick,
    sprite_row_byte, store_seq, Model,
};

verus! {

impl View for Cpu {
    type V = Model;

    open spec fn view(&self) -> Model {
        Model {
            mem: self.ram@,
            pc: self.pc,
            i: self.i_reg,
            v: self.v_reg@,
            disp: self.display@,
            sp: self.sp,
            stack: self.stack@,
            keypad: self.keypad@,
            dt: self.dt,
            st: self.st,
            mode: self.mode,
            rng: self.rng,
        }
    }
}

/// Overwrites every element of `v` with `val`.
fn fill<T: Copy>(v: &mut Vec<T>, val: T)
    ensures
        final(v)@.len() == old(v)@.len(),
        forall|j: int| 0 <= j < final(v)@.len() ==> final(v)@[j] == val,
{
    let mut k: usize = 0;
    while k < v.len()
        invariant
            k <= v@.len(),
            v@.len() == old(v)@.len(),
            forall|j: int| 0 <= j < k ==> v@[j] == val,
        decreases v@.len() - k,
    {
        v[k] = val;
        k += 1;
    }
}

/// A fresh vector of `n` copies of `val`.
fn make_filled<T: Copy>(n: usize, val: T) -> (v: Vec<T>)
    ensures
        v@.len() == n,
        forall|j: int| 0 <= j < n ==> v@[j] == val,
{
    let mut v: Vec<T> = Vec::new();
    let mut k: usize = 0;
    while k < n
        invariant
            k <= n,
            v@.len() == k,
            forall|j: int| 0 <= j < k ==> v@[j] == val,
        decreases n - k,
    {
        v.push(val);
        k += 1;
    }
    v
}

/// Writes the font table into the bottom of memory.
fn load_font(ram: &mut Vec<u8>)
    requires
        old(ram)@.len() == 4096,
    ensures
        final(ram)@.len() == 4096,
        forall|j: int| 0 <= j < 80 ==> final(ram)@[j] == font_at(j),
        forall|j: int| 80 <= j < 4096 ==> final(ram)@[j] == old(ram)@[j],
{
    let mut k: usize = 0;
    while k < 80
        invariant
            k <= 80,
            ram@.len() == 4096,
            forall|j: int| 0 <= j < k ==> ram@[j] == font_at(j),
            forall|j: int| k <= j < 4096 ==> ram@[j] == old(ram)@[j],
        decreases 80 - k,
    {
        let b = font_byte(k);
        ram[k] = b;
        k += 1;
    }
}

/// The place value of sprite bit `k`, matching `bit_weight`.
fn bit_mask(k: usize) -> (r: u8)
    ensures
        r == bit_weight(k as int),
        r > 0,
{
    if k == 0 {
        128
    } else if k == 1 {
        64
    } else if k == 2 {
        32
    } else if k == 3 {
        16
    } else if k == 4 {
        8
    } else if k == 5 {
        4
    } else if k == 6 {
        2
    } else {
        1
    }
}

/// Two positions of the draw loop that admit the same collisions admit
/// them as a whole.
proof fn lemma_collision_iff(
    disp: Seq<bool>,
    mem: Seq<u8>,
    i: u16,
    x0: int,
    y0: int,
    n: int,
    r1: int,
    c1: int,
    r2: int,
    c2: int,
)
    requires
        forall|idx: int|
            hits_upto(disp, mem, i, x0, y0, n, r1, c1, idx) == hits_upto(
                disp,
                mem,
                i,
                x0,
                y0,
                n,
                r2,
                c2,
                idx,
            ),
    ensures
        collision_upto(disp, mem, i, x0, y0, n, r1, c1) == collision_upto(
            disp,
            mem,
            i,
            x0,
            y0,
            n,
            r2,
            c2,
        ),
{
    if collision_upto(disp, mem, i, x0, y0, n, r1, c1) {
        let w = choose|idx: int| hits_upto(disp, mem, i, x0, y0, n, r1, c1, idx);
        assert(hits_upto(disp, mem, i, x0, y0, n, r2, c2, w));
    }
    if collision_upto(disp, mem, i, x0, y0, n, r2, c2) {
        let w = choose|idx: int| hits_upto(disp, mem, i, x0, y0, n, r2, c2, idx);
        assert(hits_upto(disp, mem, i, x0, y0, n, r1, c1, w));
    }
}

/// After the last sprite row the loop's collision account is the
/// specified collision flag.
proof fn lemma_collision_full(disp: Seq<bool>, mem: Seq<u8>, i: u16, x0: int, y0: int, n: int)
    requires
        n >= 0,
    ensures
        collision_upto(disp, mem, i, x0, y0, n, n, 0) == draw_collision(disp, mem, i, x0, y0, n),
{
    assert forall|idx: int|
        hits_upto(disp, mem, i, x0, y0, n, n, 0, idx) == hits(disp, mem, i, x0, y0, n, idx) by {}
    if collision_upto(disp, mem, i, x0, y0, n, n, 0) {
        let w = choose|idx: int| hits_upto(disp, mem, i, x0, y0, n, n, 0, idx);
        assert(hits(disp, mem, i, x0, y0, n, w));
    }
    if draw_collision(disp, mem, i, x0, y0, n) {
        let w = choose|idx: int| hits(disp, mem, i, x0, y0, n, idx);
        assert(hits_upto(disp, mem, i, x0, y0, n, n, 0, w));
    }
}

impl Cpu {
    /// Builds the machine in its initial state: memory zeroed but for
    /// the font table, program counter at the load address, registers,
    /// stack, keypad, timers and framebuffer cleared.
    pub fn new() -> (c: Cpu)
        ensures
            c@ == init_model(),
            c@.inv(),
    {
        let mut ram = make_filled(RAM_SIZE, 0u8);
        load_font(&mut ram);
        let c = Cpu {
            ram,
            pc: START_ADDR,
            i_reg: 0,
            v_reg: make_filled(NUM_REGS, 0u8),
            display: make_filled(DISP_COLS * DISP_ROWS, false),
            sp: 0,
            stack: make_filled(STACK_SIZE, 0u16),
            keypad: make_filled(NUM_KEYS, false),
            dt: 0,
            st: 0,
            mode: Mode::Running,
            rng: 0,
        };
        proof {
            assert(c@.mem =~= init_model().mem);
            assert(c@.v =~= init_model().v);
            assert(c@.disp =~= init_model().disp);
            assert(c@.stack =~= init_model().stack);
            assert(c@.keypad =~= init_model().keypad);
            assert(c@ =~= init_model());
        }
        c
    }

    /// Returns the machine to the exact construction state, in place:
    /// clears memory, registers, stack, keypad, timers, framebuffer and
    /// any pending key wait, reloads the font, and puts the program
    /// counter back at the load address.
    pub fn reset(&mut self)
        requires
            old(self)@.inv(),
        ensures
            final(self)@ == init_model(),
            final(self)@.inv(),
    {
        self.pc = START_ADDR;
        self.i_reg = 0;
        self.sp = 0;
        self.dt = 0;
        self.st = 0;
        self.mode = Mode::Running;
        self.rng = 0;
        fill(&mut self.ram, 0u8);
        load_font(&mut self.ram);
        fill(&mut self.v_reg, 0u8);
        fill(&mut self.display, false);
        fill(&mut self.stack, 0u16);
        fill(&mut self.keypad, false);
        proof {
            assert(self@.mem =~= init_model().mem);
            assert(self@.v =~= init_model().v);
            assert(self@.disp =~= init_model().disp);
            assert(self@.stack =~= init_model().stack);
            assert(self@.keypad =~= init_model().keypad);
            assert(self@ =~= init_model());
        }
    }

    /// Copies a program image verbatim into memory at the load address.
    /// An image larger than the 3584 bytes of program space is rejected
    /// whole: nothing is written and `false` comes back.
    pub fn load(&mut self, program: &Vec<u8>) -> (ok: bool)
        requires
            old(self)@.inv(),
        ensures
            final(self)@.inv(),
            ok == (program@.len() <= 3584),
            ok ==> final(self)@ == (Model { mem: load_mem(old(self)@.mem, program@), ..old(self)@ }),
            !ok ==> final(self)@ == old(self)@,
    {
        if program.len() > 3584 {
            return false;
        }
        let mut k: usize = 0;
        while k < program.len()
            invariant
                old(self)@.inv(),
                k <= program@.len(),
                program@.len() <= 3584,
                self.ram@.len() == 4096,
                forall|a: int| 512 <= a < 512 + k ==> self.ram@[a] == program@[a - 512],
                forall|a: int| 0 <= a < 4096 && !(512 <= a < 512 + k) ==> self.ram@[a] == old(self)@.mem[a],
                self.pc == old(self).pc,
                self.i_reg == old(self).i_reg,
                self.v_reg@ == old(self)@.v,
                self.display@ == old(self)@.disp,
                self.sp == old(self).sp,
                self.stack@ == old(self)@.stack,
                self.keypad@ == old(self)@.keypad,
                self.dt == old(self).dt,
                self.st == old(self).st,
                self.mode == old(self).mode,
                self.rng == old(self).rng,
            decreases program@.len() - k,
        {
            self.ram[512 + k] = program[k];
            k += 1;
        }
        proof {
            assert(self@.mem =~= load_mem(old(self)@.mem, program@));
            assert(self@ =~= (Model { mem: load_mem(old(self)@.mem, program@), ..old(self)@ }));
        }
        true
    }

    /// Pushes a return address onto the call stack. With the stack full
    /// nothing changes and `false` comes back. Addresses are 12-bit, as
    /// everywhere in the machine.
    pub fn push(&mut self, val: u16) -> (ok: bool)
        requires
            old(self)@.inv(),
            val < 4096,
        ensures
            final(self)@.inv(),
            ok == (old(self)@.sp < 16),
            ok ==> final(self)@ == (Model {
                stack: old(self)@.stack.update(old(self)@.sp as int, val),
                sp: (old(self)@.sp + 1) as u16,
                ..old(self)@
            }),
            !ok ==> final(self)@ == old(self)@,
    {
        if self.sp < 16 {
            let sp = self.sp as usize;
            self.stack[sp] = val;
            self.sp = self.sp + 1;
            true
        } else {
            false
        }
    }

    /// Pops the most recent return address, or `None` with the stack
    /// empty, in which case nothing changes.
    pub fn pop(&mut self) -> (r: Option<u16>)
        requires
            old(self)@.inv(),
        ensures
            final(self)@.inv(),
            old(self)@.sp > 0 ==> r == Some(old(self)@.stack[old(self)@.sp - 1]) && final(self)@
                == (Model { sp: (old(self)@.sp - 1) as u16, ..old(self)@ }),
            old(self)@.sp == 0 ==> r == None::<u16> && final(self)@ == old(self)@,
    {
        if self.sp > 0 {
            self.sp = self.sp - 1;
            Some(self.stack[self.sp as usize])
        } else {
            None
        }
    }

    /// Reads the two bytes at the program counter as one big-endian
    /// instruction word and advances the program counter past it,
    /// wrapping modulo 4096.
    pub fn fetch(&mut self) -> (op: u16)
        requires
            old(self)@.inv(),
        ensures
            final(self)@.inv(),
            op == op_at(old(self)@),
            final(self)@ == after_fetch(old(self)@),
    {
        let hi = self.ram[self.pc as usize] as u16;
        let lo = self.ram[(self.pc as usize + 1) % 4096] as u16;
        self.pc = ((self.pc as usize + 2) % 4096) as u16;
        hi * 256 + lo
    }

    /// Advances the pseudo-random generator one step and returns the
    /// byte drawn from it.
    fn random_byte(&mut self) -> (b: u8)
        ensures
            final(self)@ == (Model { rng: rng_next(old(self)@.rng), ..old(self)@ }),
            b == rng_byte(old(self)@.rng),
    {
        let next = ((self.rng as u32 * 25173 + 13849) % 65536) as u16;
        self.rng = next;
        (next / 256) as u8
    }

    /// Stores registers V0..Vx at consecutive addresses from the index
    /// register on, wrapping modulo 4096.
    fn store_regs(&mut self, x: usize)
        requires
            old(self)@.inv(),
            x < 16,
        ensures
            final(self)@.inv(),
            final(self)@ == (Model {
                mem: store_seq(old(self)@.mem, old(self)@.v, old(self)@.i, x + 1),
                ..old(self)@
            }),
    {
        let mut k: usize = 0;
        while k <= x
            invariant
                old(self)@.inv(),
                x < 16,
                k <= x + 1,
                self.ram@.len() == 4096,
                self@ == (Model {
                    mem: store_seq(old(self)@.mem, old(self)@.v, old(self)@.i, k as int),
                    ..old(self)@
                }),
            decreases x + 1 - k,
        {
            let addr = (self.i_reg as usize + k) % 4096;
            let val = self.v_reg[k];
            self.ram[addr] = val;
            proof {
                assert(self.ram@ == store_seq(
                    old(self)@.mem,
                    old(self)@.v,
                    old(self)@.i,
                    k + 1,
                ));
                assert(self@ =~= (Model {
                    mem: store_seq(old(self)@.mem, old(self)@.v, old(self)@.i, k + 1),
                    ..old(self)@
                }));
            }
            k += 1;
        }
    }

    /// Loads registers V0..Vx from consecutive addresses from the index
    /// register on, wrapping modulo 4096.
    fn load_regs(&mut self, x: usize)
        requires
            old(self)@.inv(),
            x < 16,
        ensures
            final(self)@.inv(),
            final(self)@ == (Model {
                v: load_seq(old(self)@.v, old(self)@.mem, old(self)@.i, x + 1),
                ..old(self)@
            }),
    {
        let mut k: usize = 0;
        while k <= x
            invariant
                old(self)@.inv(),
                x < 16,
                k <= x + 1,
                self.v_reg@.len() == 16,
                self@ == (Model {
                    v: load_seq(old(self)@.v, old(self)@.mem, old(self)@.i, k as int),
                    ..old(self)@
                }),
            decreases x + 1 - k,
        {
            let addr = (self.i_reg as usize + k) % 4096;
            let val = self.ram[addr];
            self.v_reg[k] = val;
            proof {
                assert(self.v_reg@ == load_seq(
                    old(self)@.v,
                    old(self)@.mem,
                    old(self)@.i,
                    k + 1,
                ));
                assert(self@ =~= (Model {
                    v: load_seq(old(self)@.v, old(self)@.mem, old(self)@.i, k + 1),
                    ..old(self)@
                }));
            }
            k += 1;
        }
    }

    /// XOR-blits the `n`-row sprite at the index register onto the
    /// framebuffer at (Vx mod 64, Vy mod 32), clipping at the right and
    /// bottom edges, and writes the collision flag into VF.
    fn op_draw(&mut self, x: usize, y: usize, n: usize)
        requires
            old(self)@.inv(),
            x < 16,
            y < 16,
            n < 16,
        ensures
            final(self)@.inv(),
            final(self)@ == (Model {
                disp: draw_disp(
                    old(self)@.disp,
                    old(self)@.mem,
                    old(self)@.i,
                    (old(self)@.v[x as int] % 64) as int,
                    (old(self)@.v[y as int] % 32) as int,
                    n as int,
                ),
                v: old(self)@.v.update(
                    15,
                    if draw_collision(
                        old(self)@.disp,
                        old(self)@.mem,
                        old(self)@.i,
                        (old(self)@.v[x as int] % 64) as int,
                        (old(self)@.v[y as int] % 32) as int,
                        n as int,
                    ) {
                        1u8
                    } else {
                        0u8
                    },
                ),
                ..old(self)@
            }),
    {
        let ghost m0 = old(self)@;
        let x0 = (self.v_reg[x] % 64) as usize;
        let y0 = (self.v_reg[y] % 32) as usize;
        let mut collided = false;
        let mut row: usize = 0;
        proof {
            assert forall|idx: int| 0 <= idx < 2048 implies self.display@[idx] == draw_pixel_upto(
                m0.disp,
                m0.mem,
                m0.i,
                x0 as int,
                y0 as int,
                n as int,
                0,
                0,
                idx,
            ) by {}
            assert forall|idx: int|
                !hits_upto(m0.disp, m0.mem, m0.i, x0 as int, y0 as int, n as int, 0, 0, idx) by {}
            assert(!collision_upto(m0.disp, m0.mem, m0.i, x0 as int, y0 as int, n as int, 0, 0));
        }
        while row < n
            invariant
                m0.inv(),
                x0 == m0.v[x as int] % 64,
                y0 == m0.v[y as int] % 32,
                n < 16,
                row <= n,
                self.display@.len() == 2048,
                forall|idx: int|
                    0 <= idx < 2048 ==> self.display@[idx] == draw_pixel_upto(
                        m0.disp,
                        m0.mem,
                        m0.i,
                        x0 as int,
                        y0 as int,
                        n as int,
                        row as int,
                        0,
                        idx,
                    ),
                collided == collision_upto(
                    m0.disp,
                    m0.mem,
                    m0.i,
                    x0 as int,
                    y0 as int,
                    n as int,
                    row as int,
                    0,
                ),
                self.ram@ == m0.mem,
                self.pc == m0.pc,
                self.i_reg == m0.i,
                self.v_reg@ == m0.v,
                self.sp == m0.sp,
                self.stack@ == m0.stack,
                self.keypad@ == m0.keypad,
                self.dt == m0.dt,
                self.st == m0.st,
                self.mode == m0.mode,
                self.rng == m0.rng,
            decreases n - row,
        {
            let py = y0 + row;
            if py < 32 {
                let byte = self.ram[(self.i_reg as usize + row) % 4096];
                let mut col: usize = 0;
                while col < 8
                    invariant
                        m0.inv(),
                        x0 == m0.v[x as int] % 64,
                        y0 == m0.v[y as int] % 32,
                        n < 16,
                        row < n,
                        col <= 8,
                        py == y0 + row,
                        py < 32,
                        byte == sprite_row_byte(m0.mem, m0.i, row as int),
                        self.display@.len() == 2048,
                        forall|idx: int|
                            0 <= idx < 2048 ==> self.display@[idx] == draw_pixel_upto(
                                m0.disp,
                                m0.mem,
                                m0.i,
                                x0 as int,
                                y0 as int,
                                n as int,
                                row as int,
                                col as int,
                                idx,
                            ),
                        collided == collision_upto(
                            m0.disp,
                            m0.mem,
                            m0.i,
                            x0 as int,
                            y0 as int,
                            n as int,
                            row as int,
                            col as int,
                        ),
                        self.ram@ == m0.mem,
                        self.pc == m0.pc,
                        self.i_reg == m0.i,
                        self.v_reg@ == m0.v,
                        self.sp == m0.sp,
                        self.stack@ == m0.stack,
                        self.keypad@ == m0.keypad,
                        self.dt == m0.dt,
                        self.st == m0.st,
                        self.mode == m0.mode,
                        self.rng == m0.rng,
                    decreases 8 - col,
                {
                    let px = x0 + col;
                    if px < 64 {
                        let mask = bit_mask(col);
                        if (byte / mask) % 2 == 1 {
                            let idx = py * 64 + px;
                            proof {
                                assert(idx == py * 64 + px && px < 64 && py < 32);
                                assert(idx / 64 == py && idx % 64 == px);
                            }
                            let cur = self.display[idx];
                            if cur {
                                collided = true;
                            }
                            self.display[idx] = !cur;
                            proof {
                                assert(bit_of(
                                    sprite_row_byte(m0.mem, m0.i, row as int),
                                    col as int,
                                ));
                                assert(cur == m0.disp[idx as int]);
                                assert forall|j: int| 0 <= j < 2048 implies self.display@[j]
                                    == draw_pixel_upto(
                                    m0.disp,
                                    m0.mem,
                                    m0.i,
                                    x0 as int,
                                    y0 as int,
                                    n as int,
                                    row as int,
                                    col + 1,
                                    j,
                                ) by {
                                    if j != idx {
                                        assert(j == 64 * (j / 64) + j % 64);
                                    }
                                }
                                if cur {
                                    assert(hits_upto(
                                        m0.disp,
                                        m0.mem,
                                        m0.i,
                                        x0 as int,
                                        y0 as int,
                                        n as int,
                                        row as int,
                                        col + 1,
                                        idx as int,
                                    ));
                                } else {
                                    assert forall|j: int|
                                        hits_upto(
                                            m0.disp,
                                            m0.mem,
                                            m0.i,
                                            x0 as int,
                                            y0 as int,
                                            n as int,
                                            row as int,
                                            col + 1,
                                            j,
                                        ) == hits_upto(
                                            m0.disp,
                                            m0.mem,
                                            m0.i,
                                            x0 as int,
                                            y0 as int,
                                            n as int,
                                            row as int,
                                            col as int,
                                            j,
                                        ) by {
                                        if j == idx {
                                        } else {
                                            assert(j == 64 * (j / 64) + j % 64);
                                        }
                                    }
                                    lemma_collision_iff(
                                        m0.disp,
                                        m0.mem,
                                        m0.i,
                                        x0 as int,
                                        y0 as int,
                                        n as int,
                                        row as int,
                                        col + 1,
                                        row as int,
                                        col as int,
                                    );
                                }
                            }
                        } else {
                            proof {
                                assert(!bit_of(
                                    sprite_row_byte(m0.mem, m0.i, row as int),
                                    col as int,
                                ));
                                assert forall|j: int| 0 <= j < 2048 implies self.display@[j]
                                    == draw_pixel_upto(
                                    m0.disp,
                                    m0.mem,
                                    m0.i,
                                    x0 as int,
                                    y0 as int,
                                    n as int,
                                    row as int,
                                    col + 1,
                                    j,
                                ) by {}
                                assert forall|j: int|
                                    hits_upto(
                                        m0.disp,
                                        m0.mem,
                                        m0.i,
                                        x0 as int,
                                        y0 as int,
                                        n as int,
                                        row as int,
                                        col + 1,
                                        j,
                                    ) == hits_upto(
                                        m0.disp,
                                        m0.mem,
                                        m0.i,
                                        x0 as int,
                                        y0 as int,
                                        n as int,
                                        row as int,
                                        col as int,
                                        j,
                                    ) by {}
                                lemma_collision_iff(
                                    m0.disp,
                                    m0.mem,
                                    m0.i,
                                    x0 as int,
                                    y0 as int,
                                    n as int,
                                    row as int,
                                    col + 1,
                                    row as int,
                                    col as int,
                                );
                            }
                        }
                    } else {
                        proof {
                            assert forall|j: int| 0 <= j < 2048 implies self.display@[j]
                                == draw_pixel_upto(
                                m0.disp,
                                m0.mem,
                                m0.i,
                                x0 as int,
                                y0 as int,
                                n as int,
                                row as int,
                                col + 1,
                                j,
                            ) by {}
                            assert forall|j: int|
                                hits_upto(
                                    m0.disp,
                                    m0.mem,
                                    m0.i,
                                    x0 as int,
                                    y0 as int,
                                    n as int,
                                    row as int,
                                    col + 1,
                                    j,
                                ) == hits_upto(
                                    m0.disp,
                                    m0.mem,
                                    m0.i,
                                    x0 as int,
                                    y0 as int,
                                    n as int,
                                    row as int,
                                    col as int,
                                    j,
                                ) by {}
                            lemma_collision_iff(
                                m0.disp,
                                m0.mem,
                                m0.i,
                                x0 as int,
                                y0 as int,
                                n as int,
                                row as int,
                                col + 1,
                                row as int,
                                col as int,
                            );
                        }
                    }
                    col += 1;
                }
                proof {
                    assert forall|j: int| 0 <= j < 2048 implies self.display@[j]
                        == draw_pixel_upto(
                        m0.disp,
                        m0.mem,
                        m0.i,
                        x0 as int,
                        y0 as int,
                        n as int,
                        row + 1,
                        0,
                        j,
                    ) by {}
                    assert forall|j: int|
                        hits_upto(
                            m0.disp,
                            m0.mem,
                            m0.i,
                            x0 as int,
                            y0 as int,
                            n as int,
                            row + 1,
                            0,
                            j,
                        ) == hits_upto(
                            m0.disp,
                            m0.mem,
                            m0.i,
                            x0 as int,
                            y0 as int,
                            n as int,
                            row as int,
                            8,
                            j,
                        ) by {}
                    lemma_collision_iff(
                        m0.disp,
                        m0.mem,
                        m0.i,
                        x0 as int,
                        y0 as int,
                        n as int,
                        row + 1,
                        0,
                        row as int,
                        8,
                    );
                }
            } else {
                proof {
                    assert forall|j: int| 0 <= j < 2048 implies self.display@[j]
                        == draw_pixel_upto(
                        m0.disp,
                        m0.mem,
                        m0.i,
                        x0 as int,
                        y0 as int,
                        n as int,
                        row + 1,
                        0,
                        j,
                    ) by {
                        assert(j / 64 < 32);
                    }
                    assert forall|j: int|
                        hits_upto(
                            m0.disp,
                            m0.mem,
                            m0.i,
                            x0 as int,
                            y0 as int,
                            n as int,
                            row + 1,
                            0,
                            j,
                        ) == hits_upto(
                            m0.disp,
                            m0.mem,
                            m0.i,
                            x0 as int,
                            y0 as int,
                            n as int,
                            row as int,
                            0,
                            j,
                        ) by {
                        if 0 <= j < 2048 {
                            assert(j / 64 < 32);
                        }
                    }
                    lemma_collision_iff(
                        m0.disp,
                        m0.mem,
                        m0.i,
                        x0 as int,
                        y0 as int,
                        n as int,
                        row + 1,
                        0,
                        row as int,
                        0,
                    );
                }
            }
            row += 1;
        }
        let flag: u8 = if collided {
            1
        } else {
            0
        };
        self.v_reg[15] = flag;
        proof {
            lemma_collision_full(m0.disp, m0.mem, m0.i, x0 as int, y0 as int, n as int);
            assert forall|j: int| 0 <= j < 2048 implies self.display@[j] == draw_pixel(
                m0.disp,
                m0.mem,
                m0.i,
                x0 as int,
                y0 as int,
                n as int,
                j,
            ) by {}
            assert(self.display@ =~= draw_disp(
                m0.disp,
                m0.mem,
                m0.i,
                x0 as int,
                y0 as int,
                n as int,
            ));
            assert(self@ =~= (Model {
                disp: draw_disp(m0.disp, m0.mem, m0.i, x0 as int, y0 as int, n as int),
                v: m0.v.update(
                    15,
                    if draw_collision(m0.disp, m0.mem, m0.i, x0 as int, y0 as int, n as int) {
                        1u8
                    } else {
                        0u8
                    },
                ),
                ..m0
            }));
        }
    }

    /// Scans the keypad for the lowest-numbered pressed key.
    fn first_pressed(&self) -> (r: Option<usize>)
        requires
            self@.inv(),
        ensures
            match r {
                Some(k) => k == first_key_from(self@.keypad, 0) && k < 16,
                None => first_key_from(self@.keypad, 0) == 16,
            },
    {
        let mut k: usize = 0;
        while k < 16
            invariant
                self@.inv(),
                k <= 16,
                first_key_from(self@.keypad, 0) == first_key_from(self@.keypad, k as int),
            decreases 16 - k,
        {
            if self.keypad[k] {
                proof {
                    assert(first_key_from(self@.keypad, k as int) == k);
                }
                return Some(k);
            }
            proof {
                assert(first_key_from(self@.keypad, k as int) == first_key_from(
                    self@.keypad,
                    k + 1,
                ));
            }
            k += 1;
        }
        proof {
            assert(first_key_from(self@.keypad, 16) == 16);
        }
        None
    }

    /// Executes one instruction word, the program counter already
    /// pointing past it. Exactly one of the 34 instruction patterns
    /// applies, or none does and the word is reported as an unknown
    /// opcode; the three non-fatal conditions leave the state unchanged
    /// beyond the already-advanced program counter.
    pub fn exec(&mut self, op: u16) -> (r: Option<Fault>)
        requires
            old(self)@.inv(),
        ensures
            final(self)@.inv(),
            final(self)@ == spec_exec(old(self)@, op).0,
            r == spec_exec(old(self)@, op).1,
    {
        let d1 = op / 4096;
        let d4 = op % 16;
        let x = ((op / 256) % 16) as usize;
        let y = ((op / 16) % 16) as usize;
        let nn = (op % 256) as u8;
        let nnn = op % 4096;
        proof {
            assert(d1 == nib1(op) && d4 == nib4(op) && x == op_x(op) && y == op_y(op) && nn
                == op_nn(op) && nnn == op_nnn(op));
            assert(x < 16 && y < 16 && d4 < 16 && nnn < 4096);
        }
        match d1 {
            0 => {
                if op == 0x00E0 {
                    fill(&mut self.display, false);
                    proof {
                        assert(self.display@ =~= Seq::new(2048, |p: int| false));
                        assert(self@ =~= spec_exec(old(self)@, op).0);
                    }
                    None
                } else if op == 0x00EE {
                    match self.pop() {
                        Some(addr) => {
                            self.pc = addr;
                            proof {
                                assert(self@ =~= spec_exec(old(self)@, op).0);
                            }
                            None
                        },
                        None => Some(Fault::StackUnderflow { op, addr: self.pc }),
                    }
                } else {
                    Some(Fault::UnknownOpcode { op, addr: self.pc })
                }
            },
            1 => {
                self.pc = nnn;
                proof {
                    assert(self@ =~= spec_exec(old(self)@, op).0);
                }
                None
            },
            2 => {
                let ret = self.pc;
                if self.push(ret) {
                    self.pc = nnn;
                    proof {
                        assert(self@ =~= spec_exec(old(self)@, op).0);
                    }
                    None
                } else {
                    Some(Fault::StackOverflow { op, addr: self.pc })
                }
            },
            3 => {
                if self.v_reg[x] == nn {
                    self.pc = ((self.pc as usize + 2) % 4096) as u16;
                }
                proof {
                    assert(self@ =~= spec_exec(old(self)@, op).0);
                }
                None
            },
            4 => {
                if self.v_reg[x] != nn {
                    self.pc = ((self.pc as usize + 2) % 4096) as u16;
                }
                proof {
                    assert(self@ =~= spec_exec(old(self)@, op).0);
                }
                None
            },
            5 => {
                if d4 == 0 {
                    if self.v_reg[x] == self.v_reg[y] {
                        self.pc = ((self.pc as usize + 2) % 4096) as u16;
                    }
                    proof {
                        assert(self@ =~= spec_exec(old(self)@, op).0);
                    }
                    None
                } else {
                    Some(Fault::UnknownOpcode { op, addr: self.pc })
                }
            },
            6 => {
                self.v_reg[x] = nn;
                proof {
                    assert(self@ =~= spec_exec(old(self)@, op).0);
                }
                None
            },
            7 => {
                let vx = self.v_reg[x];
                self.v_reg[x] = ((vx as u16 + nn as u16) % 256) as u8;
                proof {
                    assert(self@ =~= spec_exec(old(self)@, op).0);
                }
                None
            },
            8 => {
                match d4 {
                    0 => {
                        let vy = self.v_reg[y];
                        self.v_reg[x] = vy;
                        proof {
                            assert(self@ =~= spec_exec(old(self)@, op).0);
                        }
                        None
                    },
                    1 => {
                        let vx = self.v_reg[x];
                        let vy = self.v_reg[y];
                        self.v_reg[x] = vx | vy;
                        proof {
                            assert(self@ =~= spec_exec(old(self)@, op).0);
                        }
                        None
                    },
                    2 => {
                        let vx = self.v_reg[x];
                        let vy = self.v_reg[y];
                        self.v_reg[x] = vx & vy;
                        proof {
                            assert(self@ =~= spec_exec(old(self)@, op).0);
                        }
                        None
                    },
                    3 => {
                        let vx = self.v_reg[x];
                        let vy = self.v_reg[y];
                        self.v_reg[x] = vx ^ vy;
                        proof {
                            assert(self@ =~= spec_exec(old(self)@, op).0);
                        }
                        None
                    },
                    4 => {
                        let vx = self.v_reg[x];
                        let vy = self.v_reg[y];
                        let sum = vx as u16 + vy as u16;
                        self.v_reg[x] = (sum % 256) as u8;
                        self.v_reg[15] = if sum > 255 {
                            1
                        } else {
                            0
                        };
                        proof {
                            assert(self@ =~= spec_exec(old(self)@, op).0);
                        }
                        None
                    },
                    5 => {
                        let vx = self.v_reg[x];
                        let vy = self.v_reg[y];
                        self.v_reg[x] = ((vx as u16 + 256 - vy as u16) % 256) as u8;
                        self.v_reg[15] = if vx >= vy {
                            1
                        } else {
                            0
                        };
                        proof {
                            assert(self@ =~= spec_exec(old(self)@, op).0);
                        }
                        None
                    },
                    6 => {
                        let vx = self.v_reg[x];
                        self.v_reg[x] = vx / 2;
                        self.v_reg[15] = vx % 2;
                        proof {
                            assert(self@ =~= spec_exec(old(self)@, op).0);
                        }
                        None
                    },
                    7 => {
                        let vx = self.v_reg[x];
                        let vy = self.v_reg[y];
                        self.v_reg[x] = ((vy as u16 + 256 - vx as u16) % 256) as u8;
                        self.v_reg[15] = if vy >= vx {
                            1
                        } else {
                            0
                        };
                        proof {
                            assert(self@ =~= spec_exec(old(self)@, op).0);
                        }
                        None
                    },
                    0xE => {
                        let vx = self.v_reg[x];
                        self.v_reg[x] = (vx % 128) * 2;
                        self.v_reg[15] = vx / 128;
                        proof {
                            assert(self@ =~= spec_exec(old(self)@, op).0);
                        }
                        None
                    },
                    _ => Some(Fault::UnknownOpcode { op, addr: self.pc }),
                }
            },
            9 => {
                if d4 == 0 {
                    if self.v_reg[x] != self.v_reg[y] {
                        self.pc = ((self.pc as usize + 2) % 4096) as u16;
                    }
                    proof {
                        assert(self@ =~= spec_exec(old(self)@, op).0);
                    }
                    None
                } else {
                    Some(Fault::UnknownOpcode { op, addr: self.pc })
                }
            },
            0xA => {
                self.i_reg = nnn;
                proof {
                    assert(self@ =~= spec_exec(old(self)@, op).0);
                }
                None
            },
            0xB => {
                self.pc = ((nnn as usize + self.v_reg[0] as usize) % 4096) as u16;
                proof {
                    assert(self@ =~= spec_exec(old(self)@, op).0);
                }
                None
            },
            0xC => {
                let b = self.random_byte();
                self.v_reg[x] = nn & b;
                proof {
                    assert(self@ =~= spec_exec(old(self)@, op).0);
                }
                None
            },
            0xD => {
                self.op_draw(x, y, d4 as usize);
                proof {
                    assert(self@ =~= spec_exec(old(self)@, op).0);
                }
                None
            },
            0xE => {
                if nn == 0x9E {
                    let key = (self.v_reg[x] % 16) as usize;
                    if self.keypad[key] {
                        self.pc = ((self.pc as usize + 2) % 4096) as u16;
                    }
                    proof {
                        assert(self@ =~= spec_exec(old(self)@, op).0);
                    }
                    None
                } else if nn == 0xA1 {
                    let key = (self.v_reg[x] % 16) as usize;
                    if !self.keypad[key] {
                        self.pc = ((self.pc as usize + 2) % 4096) as u16;
                    }
                    proof {
                        assert(self@ =~= spec_exec(old(self)@, op).0);
                    }
                    None
                } else {
                    Some(Fault::UnknownOpcode { op, addr: self.pc })
                }
            },
            0xF => {
                if nn == 0x07 {
                    self.v_reg[x] = self.dt;
                    proof {
                        assert(self@ =~= spec_exec(old(self)@, op).0);
                    }
                    None
                } else if nn == 0x0A {
                    self.mode = Mode::AwaitingKey { target: x as u8 };
                    proof {
                        assert(self@ =~= spec_exec(old(self)@, op).0);
                    }
                    None
                } else if nn == 0x15 {
                    self.dt = self.v_reg[x];
                    proof {
                        assert(self@ =~= spec_exec(old(self)@, op).0);
                    }
                    None
                } else if nn == 0x18 {
                    self.st = self.v_reg[x];
                    proof {
                        assert(self@ =~= spec_exec(old(self)@, op).0);
                    }
                    None
                } else if nn == 0x1E {
                    let vx = self.v_reg[x];
                    self.i_reg = ((self.i_reg as u32 + vx as u32) % 65536) as u16;
                    proof {
                        assert(self@ =~= spec_exec(old(self)@, op).0);
                    }
                    None
                } else if nn == 0x29 {
                    let vx = self.v_reg[x];
                    self.i_reg = (vx % 16) as u16 * 5;
                    proof {
                        assert(self@ =~= spec_exec(old(self)@, op).0);
                    }
                    None
                } else if nn == 0x33 {
                    let vx = self.v_reg[x];
                    let i0 = (self.i_reg as usize) % 4096;
                    let i1 = (self.i_reg as usize + 1) % 4096;
                    let i2 = (self.i_reg as usize + 2) % 4096;
                    self.ram[i0] = vx / 100;
                    self.ram[i1] = (vx / 10) % 10;
                    self.ram[i2] = vx % 10;
                    proof {
                        assert(self@ =~= spec_exec(old(self)@, op).0);
                    }
                    None
                } else if nn == 0x55 {
                    self.store_regs(x);
                    proof {
                        assert(self@ =~= spec_exec(old(self)@, op).0);
                    }
                    None
                } else if nn == 0x65 {
                    self.load_regs(x);
                    proof {
                        assert(self@ =~= spec_exec(old(self)@, op).0);
                    }
                    None
                } else {
                    Some(Fault::UnknownOpcode { op, addr: self.pc })
                }
            },
            _ => {
                proof {
                    assert(false);
                }
                None
            },
        }
    }

    /// One full machine cycle. When running: fetch, decode, execute,
    /// reporting any non-fatal condition the instruction raised. While
    /// awaiting a key: no fetch; the lowest-numbered pressed key, if
    /// any, completes the pending register write and the machine
    /// resumes fetching on the next call.
    pub fn tick(&mut self) -> (r: Option<Fault>)
        requires
            old(self)@.inv(),
        ensures
            final(self)@.inv(),
            final(self)@ == spec_tick(old(self)@).0,
            r == spec_tick(old(self)@).1,
    {
        let ghost m0 = old(self)@;
        match self.mode {
            Mode::Running => {
                let op = self.fetch();
                self.exec(op)
            },
            Mode::AwaitingKey { target } => {
                match self.first_pressed() {
                    Some(k) => {
                        self.v_reg[target as usize] = k as u8;
                        self.mode = Mode::Running;
                        proof {
                            assert(self@ =~= spec_tick(m0).0);
                        }
                        None
                    },
                    None => None,
                }
            },
        }
    }

    /// Seeds the pseudo-random generator; the host calls this once with
    /// a value of its choosing before running a program that uses the
    /// random-byte instruction.
    pub fn seed(&mut self, s: u16)
        ensures
            final(self)@ == (Model { rng: s, ..old(self)@ }),
    {
        self.rng = s;
    }

    /// Decrements each timer that is nonzero, holding it at zero
    /// afterwards; called by the host at 60 Hz.
    pub fn timer_tick(&mut self)
        ensures
            final(self)@ == spec_timer_tick(old(self)@),
    {
        if self.dt > 0 {
            self.dt = self.dt - 1;
        }
        if self.st > 0 {
            self.st = self.st - 1;
        }
    }

    /// Whether the audio collaborator should be emitting a tone.
    pub fn sound_active(&self) -> (r: bool)
        ensures
            r == (self@.st > 0),
    {
        self.st > 0
    }

    /// Records a key press or release from the host.
    pub fn set_key(&mut self, key: usize, pressed: bool)
        requires
            old(self)@.inv(),
            key < 16,
        ensures
            final(self)@.inv(),
            final(self)@ == (Model { keypad: old(self)@.keypad.update(key as int, pressed), ..old(self)@ }),
    {
        self.keypad[key] = pressed;
    }

    /// Reads one framebuffer pixel; (0, 0) is the top-left corner.
    pub fn pixel(&self, row: usize, col: usize) -> (r: bool)
        requires
            self@.inv(),
            row < 32,
            col < 64,
        ensures
            r == self@.disp[row * 64 + col],
    {
        self.display[row * 64 + col]
    }
}

} // verus!
