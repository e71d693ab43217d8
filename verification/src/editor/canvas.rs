//! The canvas of the sprite editor: the selected sprite, eight times
//! enlarged.
use crate::editor::Rect;
use crate::runtime::draw_context::{clamp_coord, clamped};
use vstd::prelude::*;

verus! {

/// The canvas: a border of one pixel around 8×8 cells of 8×8 pixels.
pub struct Canvas;

/// Left edge of the canvas.
pub const CANVAS_LEFT: i32 = 8;

/// Top edge of the canvas.
pub const CANVAS_TOP: i32 = 10;

/// Width of the border of the canvas.
pub const CANVAS_BORDER: i32 = 1;

/// Side of one cell of the canvas.
pub const CELL_SIZE: i32 = 8;

impl Canvas {
    /// The cell under a point of the screen, as if the cells went on beyond
    /// the canvas in every direction.
    pub open spec fn local(x: int, y: int) -> (int, int) {
        ((x - 9) / 8, (y - 11) / 8)
    }

    /// The cell of the canvas under a point of the screen, if there is one.
    pub open spec fn lookup(x: int, y: int) -> Option<(int, int)> {
        let (lx, ly) = Self::local(x, y);
        if 0 <= lx < 8 && 0 <= ly < 8 {
            Some((lx, ly))
        } else {
            None
        }
    }

    /// The rectangle of cell `(x, y)` on the screen.
    pub open spec fn pixel_rect_spec(x: int, y: int) -> Rect {
        Rect {
            x: clamped(9 + 8 * x) as i32,
            y: clamped(11 + 8 * y) as i32,
            width: 8,
            height: 8,
        }
    }

    /// The rectangle of the canvas with its border.
    pub fn position() -> (r: Rect)
        ensures
            r == (Rect { x: 8, y: 10, width: 66, height: 66 }),
    {
        Rect {
            x: CANVAS_LEFT,
            y: CANVAS_TOP,
            width: 8 * CELL_SIZE + 2 * CANVAS_BORDER,
            height: 8 * CELL_SIZE + 2 * CANVAS_BORDER,
        }
    }

    /// The rectangle of cell `(x, y)` on the screen.
    pub fn pixel_rect(x: i32, y: i32) -> (r: Rect)
        ensures
            r == Self::pixel_rect_spec(x as int, y as int),
    {
        Rect {
            x: clamp_coord(9 + 8 * (x as i64)),
            y: clamp_coord(11 + 8 * (y as i64)),
            width: CELL_SIZE,
            height: CELL_SIZE,
        }
    }

    /// The cell under a point of the screen, as if the cells went on beyond
    /// the canvas.
    pub fn to_local(x: i32, y: i32) -> (r: (i32, i32))
        ensures
            (r.0 as int, r.1 as int) == Self::local(x as int, y as int),
    {
        (floor_eighth(x as i64 - 9), floor_eighth(y as i64 - 11))
    }

    /// The cell of the canvas under a point of the screen, if there is one.
    pub fn try_lookup(x: i32, y: i32) -> (r: Option<(i32, i32)>)
        ensures
            match r {
                Some(cell) => Self::lookup(x as int, y as int) == Some(
                    (cell.0 as int, cell.1 as int),
                ),
                None => Self::lookup(x as int, y as int) is None,
            },
    {
        let (lx, ly) = Self::to_local(x, y);
        if 0 <= lx && lx < 8 && 0 <= ly && ly < 8 {
            Some((lx, ly))
        } else {
            None
        }
    }
}

/// `v / 8`, rounded down.
fn floor_eighth(v: i64) -> (r: i32)
    requires
        -0x1_0000_0000 <= v <= 0x1_0000_0000,
    ensures
        r == v as int / 8,
{
    if v >= 0 {
        (v / 8) as i32
    } else {
        (-((-v + 7) / 8)) as i32
    }
}

} // verus!
