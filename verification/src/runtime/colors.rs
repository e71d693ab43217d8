//! The sixteen colors of the console.
use crate::runtime::sprite_sheet::Color;
use vstd::prelude::*;

verus! {

pub const BLACK: Color = 0;

pub const DARK_BLUE: Color = 1;

pub const DARK_PURPLE: Color = 2;

pub const DARK_GREEN: Color = 3;

pub const BROWN: Color = 4;

pub const DARK_GREY: Color = 5;

pub const LIGHT_GREY: Color = 6;

pub const WHITE: Color = 7;

pub const RED: Color = 8;

pub const ORANGE: Color = 9;

pub const YELLOW: Color = 10;

pub const GREEN: Color = 11;

pub const BLUE: Color = 12;

pub const LAVENDER: Color = 13;

pub const PINK: Color = 14;

pub const LIGHT_PEACH: Color = 15;

/// Red, green and blue of each of the sixteen colors.
pub const PALETTE: [(u8, u8, u8); 16] = [
    (0, 0, 0),
    (29, 43, 83),
    (126, 37, 83),
    (0, 135, 81),
    (171, 82, 54),
    (95, 87, 79),
    (194, 195, 199),
    (255, 241, 232),
    (255, 0, 77),
    (255, 163, 0),
    (255, 236, 39),
    (0, 228, 54),
    (41, 173, 255),
    (131, 118, 156),
    (255, 119, 168),
    (255, 204, 170),
];

/// Red, green and blue of a color index, taken modulo 16.
pub open spec fn rgb_spec(color: Color) -> (u8, u8, u8) {
    PALETTE[color as int % 16]
}

/// Red, green and blue of a color index, taken modulo 16.
pub fn rgb(color: Color) -> (r: (u8, u8, u8))
    ensures
        r == rgb_spec(color),
{
    PALETTE[(color % 16) as usize]
}

/// Color indices as red, green and blue bytes, three for each index.
pub fn rgb_bytes(pixels: &Vec<Color>) -> (bytes: Vec<u8>)
    requires
        3 * pixels.len() <= usize::MAX,
    ensures
        bytes@.len() == 3 * pixels@.len(),
        forall|i: int|
            0 <= i < pixels@.len() ==> (#[trigger] bytes@[3 * i], bytes@[3 * i + 1], bytes@[3 * i + 2])
                == rgb_spec(pixels@[i]),
{
    let mut bytes: Vec<u8> = Vec::new();
    let mut i: usize = 0;
    while i < pixels.len()
        invariant
            i <= pixels.len(),
            bytes@.len() == 3 * i,
            forall|j: int|
                0 <= j < i ==> (#[trigger] bytes@[3 * j], bytes@[3 * j + 1], bytes@[3 * j + 2])
                    == rgb_spec(pixels@[j]),
        decreases pixels.len() - i,
    {
        let (red, green, blue) = rgb(pixels[i]);
        bytes.push(red);
        bytes.push(green);
        bytes.push(blue);
        i += 1;
    }
    bytes
}

} // verus!
