//! The console's font: glyphs of 3×5 pixels in cells of 4×6.
use vstd::prelude::*;

verus! {

/// Width of a character cell, in pixels.
pub const CELL_WIDTH: i32 = 4;

/// Height of a character cell, in pixels.
pub const CELL_HEIGHT: i32 = 6;

/// Width of a glyph, in pixels.
pub const GLYPH_WIDTH: u16 = 3;

/// Height of a glyph, in pixels.
pub const GLYPH_HEIGHT: u16 = 5;

/// The first character that has a glyph: the space.
pub const FIRST_GLYPH: u32 = 32;

/// The last character that has a glyph: `Z`.
pub const LAST_GLYPH: u32 = 90;

/// The glyphs of the characters from space to `Z`. Bit `3 * row + column` of
/// a glyph is set where the pixel in that row and column is lit.
pub const GLYPHS: [u16; 59] = [
    0, 8338, 45, 24445, 12191, 21157, 31707, 10,
    8778, 10530, 21973, 1488, 5120, 448, 8192, 5268,
    31599, 29843, 29671, 31143, 18925, 31183, 31689, 18727,
    31727, 18927, 1040, 5136, 17492, 3640, 5393, 8615,
    25450, 23535, 31471, 25166, 31595, 29391, 4815, 31310,
    23533, 29847, 13463, 23277, 29257, 23423, 23403, 15214,
    5103, 26474, 23279, 14798, 9367, 27501, 12141, 32621,
    23213, 31213, 29351,
];

/// The glyph of a character; a character without a glyph is blank.
pub open spec fn glyph_bits(c: char) -> u16 {
    if FIRST_GLYPH <= c as u32 <= LAST_GLYPH {
        GLYPHS[c as u32 - FIRST_GLYPH]
    } else {
        0
    }
}

/// Whether bit `bit` of `bits` is set.
pub open spec fn bit_set(bits: u16, bit: u16) -> bool {
    (bits >> bit) & 1 == 1
}

/// Whether the glyph of `c` is lit at column `gx` and row `gy` of its cell.
/// The last column and the last row of every cell are empty.
pub open spec fn glyph_lit(c: char, gx: int, gy: int) -> bool {
    0 <= gx < 3 && 0 <= gy < 5 && bit_set(glyph_bits(c), (gy * 3 + gx) as u16)
}

/// The glyph of a character; a character without a glyph is blank.
pub fn glyph(c: char) -> (bits: u16)
    ensures
        bits == glyph_bits(c),
{
    let code = c as u32;
    if FIRST_GLYPH <= code && code <= LAST_GLYPH {
        GLYPHS[(code - FIRST_GLYPH) as usize]
    } else {
        0
    }
}

/// Whether the glyph of `c` is lit at column `gx` and row `gy`.
pub fn glyph_pixel(c: char, gx: u16, gy: u16) -> (lit: bool)
    ensures
        lit == glyph_lit(c, gx as int, gy as int),
{
    if gx < GLYPH_WIDTH && gy < GLYPH_HEIGHT {
        let bits = glyph(c);
        let bit: u16 = gy * 3 + gx;
        (bits >> bit) & 1 == 1
    } else {
        false
    }
}

} // verus!
