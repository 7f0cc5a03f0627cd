//! The font table: sixteen glyphs for the hex digits 0-F, five bytes
//! each, pre-loaded into the reserved low region of memory at
//! construction and after every reset. The glyph for digit `d` starts at
//! address `d * 5`.

use vstd::prelude::*;

verus! {

/// Number of bytes in the font table.
pub const FONT_BYTES: usize = 80;

/// The byte at offset `k` of the font table (zero outside it): row
/// `k % 5` of the glyph for digit `k / 5`.
pub open spec fn font_at(k: int) -> u8 {
    if k == 0 {
        0xF0
    } else if k == 1 {
        0x90
    } else if k == 2 {
        0x90
    } else if k == 3 {
        0x90
    } else if k == 4 {
        0xF0
    } else if k == 5 {
        0x20
    } else if k == 6 {
        0x60
    } else if k == 7 {
        0x20
    } else if k == 8 {
        0x20
    } else if k == 9 {
        0x70
    } else if k == 10 {
        0xF0
    } else if k == 11 {
        0x10
    } else if k == 12 {
        0xF0
    } else if k == 13 {
        0x80
    } else if k == 14 {
        0xF0
    } else if k == 15 {
        0xF0
    } else if k == 16 {
        0x10
    } else if k == 17 {
        0xF0
    } else if k == 18 {
        0x10
    } else if k == 19 {
        0xF0
    } else if k == 20 {
        0x90
    } else if k == 21 {
        0x90
    } else if k == 22 {
        0xF0
    } else if k == 23 {
        0x10
    } else if k == 24 {
        0x10
    } else if k == 25 {
        0xF0
    } else if k == 26 {
        0x80
    } else if k == 27 {
        0xF0
    } else if k == 28 {
        0x10
    } else if k == 29 {
        0xF0
    } else if k == 30 {
        0xF0
    } else if k == 31 {
        0x80
    } else if k == 32 {
        0xF0
    } else if k == 33 {
        0x90
    } else if k == 34 {
        0xF0
    } else if k == 35 {
        0xF0
    } else if k == 36 {
        0x10
    } else if k == 37 {
        0x20
    } else if k == 38 {
        0x40
    } else if k == 39 {
        0x40
    } else if k == 40 {
        0xF0
    } else if k == 41 {
        0x90
    } else if k == 42 {
        0xF0
    } else if k == 43 {
        0x90
    } else if k == 44 {
        0xF0
    } else if k == 45 {
        0xF0
    } else if k == 46 {
        0x90
    } else if k == 47 {
        0xF0
    } else if k == 48 {
        0x10
    } else if k == 49 {
        0xF0
    } else if k == 50 {
        0xF0
    } else if k == 51 {
        0x90
    } else if k == 52 {
        0xF0
    } else if k == 53 {
        0x90
    } else if k == 54 {
        0x90
    } else if k == 55 {
        0xE0
    } else if k == 56 {
        0x90
    } else if k == 57 {
        0xE0
    } else if k == 58 {
        0x90
    } else if k == 59 {
        0xE0
    } else if k == 60 {
        0xF0
    } else if k == 61 {
        0x80
    } else if k == 62 {
        0x80
    } else if k == 63 {
        0x80
    } else if k == 64 {
        0xF0
    } else if k == 65 {
        0xE0
    } else if k == 66 {
        0x90
    } else if k == 67 {
        0x90
    } else if k == 68 {
        0x90
    } else if k == 69 {
        0xE0
    } else if k == 70 {
        0xF0
    } else if k == 71 {
        0x80
    } else if k == 72 {
        0xF0
    } else if k == 73 {
        0x80
    } else if k == 74 {
        0xF0
    } else if k == 75 {
        0xF0
    } else if k == 76 {
        0x80
    } else if k == 77 {
        0xF0
    } else if k == 78 {
        0x80
    } else if k == 79 {
        0x80
    } else {
        0
    }
}

/// Returns the font-table byte at offset `k`.
pub fn font_byte(k: usize) -> (r: u8)
    ensures
        r == font_at(k as int),
{
    if k == 0 {
        0xF0
    } else if k == 1 {
        0x90
    } else if k == 2 {
        0x90
    } else if k == 3 {
        0x90
    } else if k == 4 {
        0xF0
    } else if k == 5 {
        0x20
    } else if k == 6 {
        0x60
    } else if k == 7 {
        0x20
    } else if k == 8 {
        0x20
    } else if k == 9 {
        0x70
    } else if k == 10 {
        0xF0
    } else if k == 11 {
        0x10
    } else if k == 12 {
        0xF0
    } else if k == 13 {
        0x80
    } else if k == 14 {
        0xF0
    } else if k == 15 {
        0xF0
    } else if k == 16 {
        0x10
    } else if k == 17 {
        0xF0
    } else if k == 18 {
        0x10
    } else if k == 19 {
        0xF0
    } else if k == 20 {
        0x90
    } else if k == 21 {
        0x90
    } else if k == 22 {
        0xF0
    } else if k == 23 {
        0x10
    } else if k == 24 {
        0x10
    } else if k == 25 {
        0xF0
    } else if k == 26 {
        0x80
    } else if k == 27 {
        0xF0
    } else if k == 28 {
        0x10
    } else if k == 29 {
        0xF0
    } else if k == 30 {
        0xF0
    } else if k == 31 {
        0x80
    } else if k == 32 {
        0xF0
    } else if k == 33 {
        0x90
    } else if k == 34 {
        0xF0
    } else if k == 35 {
        0xF0
    } else if k == 36 {
        0x10
    } else if k == 37 {
        0x20
    } else if k == 38 {
        0x40
    } else if k == 39 {
        0x40
    } else if k == 40 {
        0xF0
    } else if k == 41 {
        0x90
    } else if k == 42 {
        0xF0
    } else if k == 43 {
        0x90
    } else if k == 44 {
        0xF0
    } else if k == 45 {
        0xF0
    } else if k == 46 {
        0x90
    } else if k == 47 {
        0xF0
    } else if k == 48 {
        0x10
    } else if k == 49 {
        0xF0
    } else if k == 50 {
        0xF0
    } else if k == 51 {
        0x90
    } else if k == 52 {
        0xF0
    } else if k == 53 {
        0x90
    } else if k == 54 {
        0x90
    } else if k == 55 {
        0xE0
    } else if k == 56 {
        0x90
    } else if k == 57 {
        0xE0
    } else if k == 58 {
        0x90
    } else if k == 59 {
        0xE0
    } else if k == 60 {
        0xF0
    } else if k == 61 {
        0x80
    } else if k == 62 {
        0x80
    } else if k == 63 {
        0x80
    } else if k == 64 {
        0xF0
    } else if k == 65 {
        0xE0
    } else if k == 66 {
        0x90
    } else if k == 67 {
        0x90
    } else if k == 68 {
        0x90
    } else if k == 69 {
        0xE0
    } else if k == 70 {
        0xF0
    } else if k == 71 {
        0x80
    } else if k == 72 {
        0xF0
    } else if k == 73 {
        0x80
    } else if k == 74 {
        0xF0
    } else if k == 75 {
        0xF0
    } else if k == 76 {
        0x80
    } else if k == 77 {
        0xF0
    } else if k == 78 {
        0x80
    } else if k == 79 {
        0x80
    } else {
        0
    }
}

} // verus!
