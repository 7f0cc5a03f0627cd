//! Per-instruction tests: loads, arithmetic and its flags, shifts,
//! skips, jumps, the index register, binary-coded decimal, register
//! dump and load, and sprite drawing with collision and clipping.

use chip_infinite::definitions::{Cpu, Fault, Mode};

#[test]
fn load_immediate_and_copy() {
    let mut c = Cpu::new();
    assert_eq!(c.exec(0x6A2B), None); // VA <- 2B
    assert_eq!(c.v_reg[0xA], 0x2B);
    assert_eq!(c.exec(0x8BA0), None); // VB <- VA
    assert_eq!(c.v_reg[0xB], 0x2B);
}

#[test]
fn add_immediate_wraps_without_flag() {
    // 7xnn with Vx = 255 and nn = 2 gives Vx = 1 and touches no flag.
    for x in 0..15u16 {
        let mut c = Cpu::new();
        assert_eq!(c.exec(0x60FF | (x << 8)), None); // Vx <- FF
        assert_eq!(c.exec(0x7002 | (x << 8)), None); // Vx <- Vx + 2
        assert_eq!(c.v_reg[x as usize], 1);
        assert_eq!(c.v_reg[15], 0);
    }
    // With x = F the sum itself lands in the flag register.
    let mut c = Cpu::new();
    assert_eq!(c.exec(0x6FFF), None);
    assert_eq!(c.exec(0x7F02), None);
    assert_eq!(c.v_reg[15], 1);
}

#[test]
fn bitwise_or_and_xor() {
    let mut c = Cpu::new();
    assert_eq!(c.exec(0x60CC), None); // V0 <- 1100_1100
    assert_eq!(c.exec(0x61AA), None); // V1 <- 1010_1010
    assert_eq!(c.exec(0x8011), None); // V0 |= V1
    assert_eq!(c.v_reg[0], 0xEE);
    assert_eq!(c.exec(0x60CC), None);
    assert_eq!(c.exec(0x8012), None); // V0 &= V1
    assert_eq!(c.v_reg[0], 0x88);
    assert_eq!(c.exec(0x60CC), None);
    assert_eq!(c.exec(0x8013), None); // V0 ^= V1
    assert_eq!(c.v_reg[0], 0x66);
}

#[test]
fn add_registers_sets_carry() {
    // 200 + 100 wraps to 44 with VF = 1.
    let mut c = Cpu::new();
    assert_eq!(c.exec(0x60C8), None); // V0 <- 200
    assert_eq!(c.exec(0x6164), None); // V1 <- 100
    assert_eq!(c.exec(0x8014), None); // V0 <- V0 + V1
    assert_eq!(c.v_reg[0], 44);
    assert_eq!(c.v_reg[15], 1);
    // 10 + 20 stays at 30 with VF = 0.
    let mut d = Cpu::new();
    assert_eq!(d.exec(0x600A), None);
    assert_eq!(d.exec(0x6114), None);
    assert_eq!(d.exec(0x8014), None);
    assert_eq!(d.v_reg[0], 30);
    assert_eq!(d.v_reg[15], 0);
}

#[test]
fn sub_registers_sets_no_borrow_flag() {
    // 10 - 20 wraps to 246 with VF = 0 (a borrow happened).
    let mut c = Cpu::new();
    assert_eq!(c.exec(0x600A), None);
    assert_eq!(c.exec(0x6114), None);
    assert_eq!(c.exec(0x8015), None); // V0 <- V0 - V1
    assert_eq!(c.v_reg[0], 246);
    assert_eq!(c.v_reg[15], 0);
    // 20 - 10 gives 10 with VF = 1 (no borrow).
    let mut d = Cpu::new();
    assert_eq!(d.exec(0x6014), None);
    assert_eq!(d.exec(0x610A), None);
    assert_eq!(d.exec(0x8015), None);
    assert_eq!(d.v_reg[0], 10);
    assert_eq!(d.v_reg[15], 1);
}

#[test]
fn subn_registers() {
    let mut c = Cpu::new();
    assert_eq!(c.exec(0x6003), None); // V0 <- 3
    assert_eq!(c.exec(0x6109), None); // V1 <- 9
    assert_eq!(c.exec(0x8017), None); // V0 <- V1 - V0
    assert_eq!(c.v_reg[0], 6);
    assert_eq!(c.v_reg[15], 1);
    let mut d = Cpu::new();
    assert_eq!(d.exec(0x6009), None);
    assert_eq!(d.exec(0x6103), None);
    assert_eq!(d.exec(0x8017), None); // 3 - 9 wraps
    assert_eq!(d.v_reg[0], 250);
    assert_eq!(d.v_reg[15], 0);
}

#[test]
fn shifts_expose_the_shifted_out_bit() {
    let mut c = Cpu::new();
    assert_eq!(c.exec(0x6005), None); // V0 <- 0000_0101
    assert_eq!(c.exec(0x8006), None); // V0 >>= 1
    assert_eq!(c.v_reg[0], 2);
    assert_eq!(c.v_reg[15], 1);
    assert_eq!(c.exec(0x8006), None);
    assert_eq!(c.v_reg[0], 1);
    assert_eq!(c.v_reg[15], 0);
    let mut d = Cpu::new();
    assert_eq!(d.exec(0x6081), None); // V0 <- 1000_0001
    assert_eq!(d.exec(0x800E), None); // V0 <<= 1
    assert_eq!(d.v_reg[0], 2);
    assert_eq!(d.v_reg[15], 1);
    assert_eq!(d.exec(0x800E), None);
    assert_eq!(d.v_reg[0], 4);
    assert_eq!(d.v_reg[15], 0);
}

#[test]
fn skips_compare_as_documented() {
    let mut c = Cpu::new();
    assert_eq!(c.exec(0x6307), None); // V3 <- 7
    let pc = c.pc;
    assert_eq!(c.exec(0x3307), None); // skip: V3 == 7
    assert_eq!(c.pc, pc + 2);
    assert_eq!(c.exec(0x3308), None); // no skip: V3 != 8
    assert_eq!(c.pc, pc + 2);
    assert_eq!(c.exec(0x4308), None); // skip: V3 != 8
    assert_eq!(c.pc, pc + 4);
    assert_eq!(c.exec(0x6407), None); // V4 <- 7
    assert_eq!(c.exec(0x5340), None); // skip: V3 == V4
    assert_eq!(c.pc, pc + 6);
    assert_eq!(c.exec(0x9340), None); // no skip: V3 == V4
    assert_eq!(c.pc, pc + 6);
    assert_eq!(c.exec(0x6408), None); // V4 <- 8
    assert_eq!(c.exec(0x9340), None); // skip: V3 != V4
    assert_eq!(c.pc, pc + 8);
}

#[test]
fn keypad_skips() {
    let mut c = Cpu::new();
    assert_eq!(c.exec(0x6005), None); // V0 <- 5
    let pc = c.pc;
    assert_eq!(c.exec(0xE09E), None); // key 5 not pressed: no skip
    assert_eq!(c.pc, pc);
    assert_eq!(c.exec(0xE0A1), None); // key 5 not pressed: skip
    assert_eq!(c.pc, pc + 2);
    c.set_key(5, true);
    assert_eq!(c.exec(0xE09E), None); // pressed now: skip
    assert_eq!(c.pc, pc + 4);
    assert_eq!(c.exec(0xE0A1), None); // pressed: no skip
    assert_eq!(c.pc, pc + 4);
}

#[test]
fn jumps_and_the_index_register() {
    let mut c = Cpu::new();
    assert_eq!(c.exec(0x1ABC), None);
    assert_eq!(c.pc, 0xABC);
    assert_eq!(c.exec(0xA123), None);
    assert_eq!(c.i_reg, 0x123);
    assert_eq!(c.exec(0x6005), None); // V0 <- 5
    assert_eq!(c.exec(0xB300), None); // pc <- 300 + V0
    assert_eq!(c.pc, 0x305);
    // The 12-bit wrap keeps the jump inside memory.
    assert_eq!(c.exec(0x60FF), None); // V0 <- 255
    assert_eq!(c.exec(0xBFFF), None); // pc <- (FFF + FF) mod 1000
    assert_eq!(c.pc, 0x0FE);
}

#[test]
fn call_and_return_round_trip() {
    let mut c = Cpu::new();
    let before = c.pc;
    let sp_before = c.sp;
    assert_eq!(c.exec(0x2400), None); // CALL 400
    assert_eq!(c.pc, 0x400);
    assert_eq!(c.sp, sp_before + 1);
    assert_eq!(c.stack[sp_before as usize], before);
    assert_eq!(c.exec(0x00EE), None); // RET
    assert_eq!(c.pc, before);
    assert_eq!(c.sp, sp_before);
}

#[test]
fn index_register_add_and_font_address() {
    let mut c = Cpu::new();
    assert_eq!(c.exec(0xA100), None); // I <- 100
    assert_eq!(c.exec(0x6030), None); // V0 <- 48
    assert_eq!(c.exec(0xF01E), None); // I <- I + V0
    assert_eq!(c.i_reg, 0x130);
    assert_eq!(c.exec(0x610B), None); // V1 <- 0B
    assert_eq!(c.exec(0xF129), None); // I <- glyph address of B
    assert_eq!(c.i_reg, 55);
    // The glyph's five bytes sit right there in memory.
    assert_eq!(c.ram[55], 0xE0);
    assert_eq!(c.ram[56], 0x90);
    assert_eq!(c.ram[57], 0xE0);
    assert_eq!(c.ram[58], 0x90);
    assert_eq!(c.ram[59], 0xE0);
}

#[test]
fn binary_coded_decimal() {
    let mut c = Cpu::new();
    assert_eq!(c.exec(0x60FE), None); // V0 <- 254
    assert_eq!(c.exec(0xA300), None); // I <- 300
    assert_eq!(c.exec(0xF033), None);
    assert_eq!(c.ram[0x300], 2);
    assert_eq!(c.ram[0x301], 5);
    assert_eq!(c.ram[0x302], 4);
    assert_eq!(c.exec(0x6107), None); // V1 <- 7
    assert_eq!(c.exec(0xF133), None);
    assert_eq!(c.ram[0x300], 0);
    assert_eq!(c.ram[0x301], 0);
    assert_eq!(c.ram[0x302], 7);
}

#[test]
fn register_dump_and_load_round_trip() {
    let mut c = Cpu::new();
    for x in 0..4u16 {
        assert_eq!(c.exec(0x6000 | (x << 8) | (10 + x)), None); // Vx <- 10 + x
    }
    assert_eq!(c.exec(0xA400), None); // I <- 400
    assert_eq!(c.exec(0xF355), None); // dump V0..V3
    assert_eq!(&c.ram[0x400..0x404], &[10, 11, 12, 13]);
    assert_eq!(c.ram[0x404], 0);
    let mut d = Cpu::new();
    d.ram[0x400..0x404].copy_from_slice(&[10, 11, 12, 13]);
    assert_eq!(d.exec(0xA400), None);
    assert_eq!(d.exec(0xF365), None); // load V0..V3
    assert_eq!(&d.v_reg[0..4], &[10, 11, 12, 13]);
    assert_eq!(d.v_reg[4], 0);
}

#[test]
fn draw_blits_collides_and_undoes_itself() {
    let mut c = Cpu::new();
    c.ram[0x300] = 0b1011_0001;
    c.ram[0x301] = 0b0100_0010;
    assert_eq!(c.exec(0xA300), None); // I <- 300
    assert_eq!(c.exec(0x6005), None); // V0 <- 5 (column)
    assert_eq!(c.exec(0x6103), None); // V1 <- 3 (row)
    assert_eq!(c.exec(0xD012), None); // draw 2 rows at (5, 3)
    assert_eq!(c.v_reg[15], 0);
    let expect_row3 = [true, false, true, true, false, false, false, true];
    let expect_row4 = [false, true, false, false, false, false, true, false];
    for k in 0..8 {
        assert_eq!(c.pixel(3, 5 + k), expect_row3[k]);
        assert_eq!(c.pixel(4, 5 + k), expect_row4[k]);
    }
    // The same draw again XORs everything back off and reports the
    // collision.
    assert_eq!(c.exec(0xD012), None);
    assert_eq!(c.v_reg[15], 1);
    assert!(c.display.iter().all(|&p| !p));
}

#[test]
fn draw_wraps_start_and_clips_at_the_edges() {
    let mut c = Cpu::new();
    c.ram[0x300] = 0xFF;
    c.ram[0x301] = 0xFF;
    c.ram[0x302] = 0xFF;
    assert_eq!(c.exec(0xA300), None);
    // The start position wraps: column 69 starts at column 5.
    assert_eq!(c.exec(0x6045), None); // V0 <- 69
    assert_eq!(c.exec(0x6100), None); // V1 <- 0
    assert_eq!(c.exec(0xD011), None);
    for k in 0..8 {
        assert!(c.pixel(0, 5 + k));
    }
    // Pixels beyond the right edge are clipped, not wrapped.
    assert_eq!(c.exec(0x00E0), None);
    assert_eq!(c.exec(0x603C), None); // V0 <- 60
    assert_eq!(c.exec(0xD011), None);
    for col in 60..64 {
        assert!(c.pixel(0, col));
    }
    for col in 0..8 {
        assert!(!c.pixel(0, col));
    }
    // Rows beyond the bottom edge are clipped too.
    assert_eq!(c.exec(0x00E0), None);
    assert_eq!(c.exec(0x6000), None); // V0 <- 0
    assert_eq!(c.exec(0x611E), None); // V1 <- 30
    assert_eq!(c.exec(0xD013), None); // 3 rows at (0, 30)
    for col in 0..8 {
        assert!(c.pixel(30, col));
        assert!(c.pixel(31, col));
        assert!(!c.pixel(0, col));
        assert!(!c.pixel(1, col));
    }
}

#[test]
fn clear_screen_is_idempotent() {
    let mut c = Cpu::new();
    c.ram[0x300] = 0xFF;
    assert_eq!(c.exec(0xA300), None);
    assert_eq!(c.exec(0xD011), None);
    assert!(c.display.iter().any(|&p| p));
    assert_eq!(c.exec(0x00E0), None);
    assert!(c.display.iter().all(|&p| !p));
    assert_eq!(c.exec(0x00E0), None);
    assert!(c.display.iter().all(|&p| !p));
}

#[test]
fn fetch_wraps_at_the_top_of_memory() {
    let mut c = Cpu::new();
    c.ram[0xFFE] = 0x12;
    c.ram[0xFFF] = 0x34;
    c.pc = 0xFFE;
    assert_eq!(c.fetch(), 0x1234);
    assert_eq!(c.pc, 0x000);
    // From an odd address at the very end, the low byte comes from
    // address zero.
    let mut d = Cpu::new();
    d.ram[0xFFF] = 0x6A;
    d.ram[0x000] = 0x55;
    d.pc = 0xFFF;
    assert_eq!(d.fetch(), 0x6A55);
    assert_eq!(d.pc, 0x001);
}

#[test]
fn index_register_addition_wraps_at_16_bits() {
    let mut c = Cpu::new();
    c.i_reg = 0xFFFF;
    assert_eq!(c.exec(0x6005), None); // V0 <- 5
    assert_eq!(c.exec(0xF01E), None); // I <- I + V0
    assert_eq!(c.i_reg, 4);
}

#[test]
fn indexed_stores_wrap_into_low_memory() {
    let mut c = Cpu::new();
    assert_eq!(c.exec(0x60FE), None); // V0 <- 254
    c.i_reg = 0xFFF;
    assert_eq!(c.exec(0xF033), None); // digits at FFF, 000, 001
    assert_eq!(c.ram[0xFFF], 2);
    assert_eq!(c.ram[0x000], 5);
    assert_eq!(c.ram[0x001], 4);
    let mut d = Cpu::new();
    assert_eq!(d.exec(0x6021), None); // V0 <- 33
    assert_eq!(d.exec(0x6144), None); // V1 <- 68
    d.i_reg = 0xFFF;
    assert_eq!(d.exec(0xF155), None); // dump V0..V1 at FFF, 000
    assert_eq!(d.ram[0xFFF], 33);
    assert_eq!(d.ram[0x000], 68);
}

#[test]
fn unknown_in_arithmetic_family() {
    let mut c = Cpu::new();
    assert_eq!(
        c.exec(0x8009),
        Some(Fault::UnknownOpcode { op: 0x8009, addr: 0x200 })
    );
    assert_eq!(c.mode, Mode::Running);
}
