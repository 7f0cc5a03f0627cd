//! Laws of the instruction set, stated over the model and proved once
//! and for all: the wraparound of immediate addition, the carry and
//! borrow flags of register arithmetic, the idempotence of clearing and
//! the XOR self-inverse of sprite drawing, and the call/return round
//! trip. Each law quantifies over every machine state and every register
//! choice its statement allows.

use vstd::prelude::*;

use crate::definitions::Fault;
use crate::model::{
    draw_collision, draw_disp, hits, lights, spec_exec, Model,
};

verus! {

/// Immediate addition wraps around and touches no flag: executing
/// `7xnn` with Vx = 255 and nn = 2 leaves Vx = 1, changes no other
/// register — VF included — and nothing else of the machine.
pub proof fn lemma_add_imm_wraps(m: Model, x: u16)
    requires
        m.inv(),
        x < 16,
        m.v[x as int] == 255,
    ensures
        ({
            let op = (0x7000 + x * 256 + 2) as u16;
            spec_exec(m, op) == (Model { v: m.v.update(x as int, 1u8), ..m }, None::<Fault>)
        }),
{
    let op = (0x7000 + x * 256 + 2) as u16;
    assert(op == (112 + x) * 256 + 2);
    assert(op / 4096 == 7 && (op / 256) % 16 == x && op % 256 == 2);
}

/// Register addition detects overflow: executing `8xy4` with Vx = 200
/// and Vy = 100 leaves Vx = 44 (the wrapped sum) and VF = 1.
pub proof fn lemma_add_regs_overflow(m: Model, x: u16, y: u16)
    requires
        m.inv(),
        x < 16,
        y < 16,
        x != y,
        x != 15,
        m.v[x as int] == 200,
        m.v[y as int] == 100,
    ensures
        ({
            let op = (0x8004 + x * 256 + y * 16) as u16;
            spec_exec(m, op) == (
                Model { v: m.v.update(x as int, 44u8).update(15, 1u8), ..m },
                None::<Fault>,
            )
        }),
{
    let op = (0x8004 + x * 256 + y * 16) as u16;
    assert(op == (128 + x) * 256 + y * 16 + 4);
    assert(op / 4096 == 8 && (op / 256) % 16 == x && (op / 16) % 16 == y && op % 16 == 4);
}

/// Register addition without overflow: executing `8xy4` with Vx = 10
/// and Vy = 20 leaves Vx = 30 and VF = 0.
pub proof fn lemma_add_regs_no_overflow(m: Model, x: u16, y: u16)
    requires
        m.inv(),
        x < 16,
        y < 16,
        x != y,
        x != 15,
        m.v[x as int] == 10,
        m.v[y as int] == 20,
    ensures
        ({
            let op = (0x8004 + x * 256 + y * 16) as u16;
            spec_exec(m, op) == (
                Model { v: m.v.update(x as int, 30u8).update(15, 0u8), ..m },
                None::<Fault>,
            )
        }),
{
    let op = (0x8004 + x * 256 + y * 16) as u16;
    assert(op == (128 + x) * 256 + y * 16 + 4);
    assert(op / 4096 == 8 && (op / 256) % 16 == x && (op / 16) % 16 == y && op % 16 == 4);
}

/// Register subtraction with a borrow: executing `8xy5` with Vx = 10
/// and Vy = 20 leaves Vx = 246 (the wrapped difference) and VF = 0.
pub proof fn lemma_sub_regs_borrow(m: Model, x: u16, y: u16)
    requires
        m.inv(),
        x < 16,
        y < 16,
        x != y,
        x != 15,
        m.v[x as int] == 10,
        m.v[y as int] == 20,
    ensures
        ({
            let op = (0x8005 + x * 256 + y * 16) as u16;
            spec_exec(m, op) == (
                Model { v: m.v.update(x as int, 246u8).update(15, 0u8), ..m },
                None::<Fault>,
            )
        }),
{
    let op = (0x8005 + x * 256 + y * 16) as u16;
    assert(op == (128 + x) * 256 + y * 16 + 5);
    assert(op / 4096 == 8 && (op / 256) % 16 == x && (op / 16) % 16 == y && op % 16 == 5);
}

/// Register subtraction without a borrow: executing `8xy5` with
/// Vx = 20 and Vy = 10 leaves Vx = 10 and VF = 1.
pub proof fn lemma_sub_regs_no_borrow(m: Model, x: u16, y: u16)
    requires
        m.inv(),
        x < 16,
        y < 16,
        x != y,
        x != 15,
        m.v[x as int] == 20,
        m.v[y as int] == 10,
    ensures
        ({
            let op = (0x8005 + x * 256 + y * 16) as u16;
            spec_exec(m, op) == (
                Model { v: m.v.update(x as int, 10u8).update(15, 1u8), ..m },
                None::<Fault>,
            )
        }),
{
    let op = (0x8005 + x * 256 + y * 16) as u16;
    assert(op == (128 + x) * 256 + y * 16 + 5);
    assert(op / 4096 == 8 && (op / 256) % 16 == x && (op / 16) % 16 == y && op % 16 == 5);
}

/// Clearing the screen is idempotent: after one `00E0` every pixel is
/// off, and a second `00E0` changes nothing at all.
pub proof fn lemma_clear_idempotent(m: Model)
    requires
        m.inv(),
    ensures
        ({
            let m1 = spec_exec(m, 0x00E0).0;
            let m2 = spec_exec(m1, 0x00E0).0;
            &&& forall|p: int| 0 <= p < 2048 ==> !m1.disp[p]
            &&& m2 == m1
        }),
{
    let m1 = spec_exec(m, 0x00E0).0;
    let m2 = spec_exec(m1, 0x00E0).0;
    assert(m2.disp =~= m1.disp);
    assert(m2 =~= m1);
}

/// Sprite drawing is its own inverse: blitting the same sprite at the
/// same position twice restores every pixel to its state before the
/// first draw.
pub proof fn lemma_draw_self_inverse(
    disp: Seq<bool>,
    mem: Seq<u8>,
    i: u16,
    x0: int,
    y0: int,
    n: int,
)
    requires
        disp.len() == 2048,
    ensures
        draw_disp(draw_disp(disp, mem, i, x0, y0, n), mem, i, x0, y0, n) == disp,
{
    let once = draw_disp(disp, mem, i, x0, y0, n);
    let twice = draw_disp(once, mem, i, x0, y0, n);
    assert forall|idx: int| 0 <= idx < 2048 implies twice[idx] == disp[idx] by {}
    assert(twice =~= disp);
}

/// The second of two identical draws reports a collision exactly where
/// the first draw lit a pixel: wherever a set sprite bit fell on a cell
/// that was off before the first draw, and only there.
pub proof fn lemma_draw_twice_collision(
    disp: Seq<bool>,
    mem: Seq<u8>,
    i: u16,
    x0: int,
    y0: int,
    n: int,
)
    requires
        disp.len() == 2048,
    ensures
        draw_collision(draw_disp(disp, mem, i, x0, y0, n), mem, i, x0, y0, n) == (exists|idx: int|
            lights(disp, mem, i, x0, y0, n, idx)),
{
    let once = draw_disp(disp, mem, i, x0, y0, n);
    assert forall|idx: int|
        hits(once, mem, i, x0, y0, n, idx) == lights(disp, mem, i, x0, y0, n, idx) by {}
    if draw_collision(once, mem, i, x0, y0, n) {
        let w = choose|idx: int| hits(once, mem, i, x0, y0, n, idx);
        assert(lights(disp, mem, i, x0, y0, n, w));
    }
    if exists|idx: int| lights(disp, mem, i, x0, y0, n, idx) {
        let w = choose|idx: int| lights(disp, mem, i, x0, y0, n, idx);
        assert(hits(once, mem, i, x0, y0, n, w));
    }
}

/// A call followed at once by a return comes back: after `2nnn` and
/// `00EE` the program counter again points at the instruction after the
/// call, the stack pointer is what it was before the call, and neither
/// reports a fault. Memory, registers and display are untouched.
pub proof fn lemma_call_ret_round_trip(m: Model, nnn: u16)
    requires
        m.inv(),
        m.sp < 16,
        nnn < 4096,
    ensures
        ({
            let m1 = spec_exec(m, (0x2000 + nnn) as u16).0;
            let m2 = spec_exec(m1, 0x00EE).0;
            &&& spec_exec(m, (0x2000 + nnn) as u16).1 == None::<Fault>
            &&& spec_exec(m1, 0x00EE).1 == None::<Fault>
            &&& m1.pc == nnn
            &&& m2.pc == m.pc
            &&& m2.sp == m.sp
            &&& m2.v == m.v
            &&& m2.mem == m.mem
            &&& m2.disp == m.disp
        }),
{
    let op = (0x2000 + nnn) as u16;
    assert(op / 4096 == 2 && op % 4096 == nnn);
}

} // verus!

