//! The sprite sheet: a 128×128 image of color indices, read as a 16×16 grid of
//! 8×8 sprites.
use vstd::prelude::*;

verus! {

/// A color index. The screen shows it modulo 16.
pub type Color = u8;

/// Width of a sprite, in pixels.
pub const SPRITE_WIDTH: usize = 8;

/// Height of a sprite, in pixels.
pub const SPRITE_HEIGHT: usize = 8;

/// Number of pixels of a sprite.
pub const SPRITE_AREA: usize = 64;

/// Number of sprites in one row of the sheet.
pub const SPRITES_PER_ROW: usize = 16;

/// Number of sprites in the sheet.
pub const SPRITE_COUNT: usize = 256;

/// Width and height of the sheet, in pixels.
pub const SHEET_WIDTH: usize = 128;

/// Number of pixels of the sheet.
pub const SHEET_AREA: usize = 16384;

/// Whether every entry is a color index: a number below 16.
pub open spec fn are_colors(pixels: Seq<Color>) -> bool {
    forall|i: int| 0 <= i < pixels.len() ==> #[trigger] pixels[i] < 16
}

/// Every entry taken modulo 16.
pub open spec fn reduced(pixels: Seq<Color>) -> Seq<Color> {
    Seq::new(pixels.len(), |i: int| pixels[i] % 16)
}

/// Color indices are not changed by taking them modulo 16.
pub proof fn lemma_reduced_colors(pixels: Seq<Color>)
    requires
        are_colors(pixels),
    ensures
        reduced(pixels) == pixels,
{
    assert(reduced(pixels) =~= pixels);
}

/// Whether every entry is a color index.
pub fn all_colors(pixels: &Vec<Color>) -> (ok: bool)
    ensures
        ok == are_colors(pixels@),
{
    let mut i: usize = 0;
    while i < pixels.len()
        invariant
            i <= pixels.len(),
            forall|j: int| 0 <= j < i ==> #[trigger] pixels@[j] < 16,
        decreases pixels.len() - i,
    {
        if pixels[i] >= 16 {
            return false;
        }
        i += 1;
    }
    true
}

/// Position in the sheet of pixel `k` (row-major, `0 <= k < 64`) of sprite
/// `index`. The sprite sits in grid cell `(index % 16, index / 16)`; indices
/// past the last sprite wrap around.
pub open spec fn sheet_offset(index: int, k: int) -> int {
    let cell = index % 256;
    ((cell / 16) * 8 + k / 8) * 128 + (cell % 16) * 8 + k % 8
}

/// The 64 pixels of sprite `index` in a sheet, row by row.
pub open spec fn sprite_of(sheet: Seq<Color>, index: int) -> Seq<Color> {
    Seq::new(64, |k: int| sheet[sheet_offset(index, k)])
}

/// The sheet after the 64 pixels of sprite `index` are replaced by `sprite`.
pub open spec fn with_sprite(sheet: Seq<Color>, index: int, sprite: Seq<Color>) -> Seq<Color> {
    Seq::new(
        sheet.len(),
        |p: int|
            if in_sprite(index, p) {
                sprite[sprite_offset(p)]
            } else {
                sheet[p]
            },
    )
}

/// Whether sheet position `p` belongs to sprite `index`.
pub open spec fn in_sprite(index: int, p: int) -> bool {
    let cell = index % 256;
    &&& 0 <= p < 16384
    &&& (p % 128) / 8 == cell % 16
    &&& (p / 128) / 8 == cell / 16
}

/// Row-major position inside its sprite of sheet position `p`.
pub open spec fn sprite_offset(p: int) -> int {
    ((p / 128) % 8) * 8 + (p % 128) % 8
}

/// An 8×8 block of color indices.
pub struct Sprite {
    pixels: Vec<Color>,
}

impl Sprite {
    /// A sprite holds 64 color indices.
    pub open spec fn wf(&self) -> bool {
        self@.len() == 64 && are_colors(self@)
    }

    /// The pixels, row by row.
    pub closed spec fn view(&self) -> Seq<Color> {
        self.pixels@
    }

    /// The color at `(x, y)`, and 0 outside the sprite.
    pub open spec fn pixel(&self, x: int, y: int) -> Color {
        if 0 <= x < 8 && 0 <= y < 8 {
            self@[y * 8 + x]
        } else {
            0
        }
    }

    /// Makes a sprite of 64 color indices given row by row; `None` for any
    /// other length and where an entry is no color index.
    pub fn new(pixels: Vec<Color>) -> (r: Option<Sprite>)
        ensures
            pixels.len() == 64 && are_colors(pixels@) <==> r is Some,
            r matches Some(s) ==> s.wf() && s@ == pixels@,
    {
        if pixels.len() == 64 && all_colors(&pixels) {
            Some(Sprite { pixels })
        } else {
            None
        }
    }

    /// A sprite of the 64 entries of an array, row by row, each taken modulo
    /// 16.
    pub fn from_array(pixels: &[Color; 64]) -> (s: Sprite)
        ensures
            s.wf(),
            s@ == reduced(pixels@),
    {
        let mut copy: Vec<Color> = Vec::new();
        let mut k: usize = 0;
        while k < 64
            invariant
                k <= 64,
                copy@ == reduced(pixels@).take(k as int),
            decreases 64 - k,
        {
            copy.push(pixels[k] % 16);
            assert(copy@ =~= reduced(pixels@).take(k + 1));
            k += 1;
        }
        assert(reduced(pixels@).take(64) =~= reduced(pixels@));
        Sprite { pixels: copy }
    }

    /// A copy of the sprite.
    pub fn copy(&self) -> (s: Sprite)
        requires
            self.wf(),
        ensures
            s.wf(),
            s@ == self@,
    {
        Sprite { pixels: self.pixels.clone() }
    }

    /// A sprite of one color, taken modulo 16.
    pub fn filled(color: Color) -> (s: Sprite)
        ensures
            s.wf(),
            s@ == Seq::new(64, |k: int| (color % 16) as u8),
    {
        let mut pixels: Vec<Color> = Vec::new();
        let mut k: usize = 0;
        while k < 64
            invariant
                k <= 64,
                pixels@ == Seq::new(k as nat, |j: int| (color % 16) as u8),
            decreases 64 - k,
        {
            pixels.push(color % 16);
            k += 1;
        }
        Sprite { pixels }
    }

    /// The color at `(x, y)`, and 0 outside the sprite.
    pub fn pget(&self, x: isize, y: isize) -> (c: Color)
        requires
            self.wf(),
        ensures
            c == self.pixel(x as int, y as int),
    {
        if 0 <= x && x < 8 && 0 <= y && y < 8 {
            self.pixels[(y * 8 + x) as usize]
        } else {
            0
        }
    }

    /// Sets the color at `(x, y)` to `color` (modulo 16); does nothing
    /// outside the sprite.
    pub fn pset(&mut self, x: isize, y: isize, color: Color)
        requires
            old(self).wf(),
        ensures
            final(self).wf(),
            0 <= x < 8 && 0 <= y < 8 ==> final(self)@ == old(self)@.update(
                y * 8 + x,
                (color % 16) as u8,
            ),
            !(0 <= x < 8 && 0 <= y < 8) ==> final(self)@ == old(self)@,
    {
        if 0 <= x && x < 8 && 0 <= y && y < 8 {
            self.pixels.set((y * 8 + x) as usize, color % 16);
        }
    }

    /// Rebuilds the sprite so that pixel `(x, y)` is taken from
    /// `((x + dx) % 8, (y + dy) % 8)`.
    fn rotate(&mut self, dx: usize, dy: usize)
        requires
            old(self).wf(),
            dx < 8,
            dy < 8,
        ensures
            final(self).wf(),
            final(self)@ == rotated(old(self)@, dx as int, dy as int),
    {
        let mut pixels: Vec<Color> = Vec::new();
        let mut k: usize = 0;
        while k < 64
            invariant
                k <= 64,
                dx < 8,
                dy < 8,
                self.wf(),
                pixels@ == Seq::new(k as nat, |j: int| self@[rotated_offset(j, dx as int, dy as int)]),
            decreases 64 - k,
        {
            let x = (k % 8 + dx) % 8;
            let y = (k / 8 + dy) % 8;
            pixels.push(self.pixels[y * 8 + x]);
            k += 1;
        }
        self.pixels = pixels;
    }

    /// Moves every row up by one; the top row becomes the bottom row.
    pub fn shift_up(&mut self)
        requires
            old(self).wf(),
        ensures
            final(self).wf(),
            final(self)@ == rotated(old(self)@, 0, 1),
    {
        self.rotate(0, 1);
    }

    /// Moves every row down by one; the bottom row becomes the top row.
    pub fn shift_down(&mut self)
        requires
            old(self).wf(),
        ensures
            final(self).wf(),
            final(self)@ == rotated(old(self)@, 0, 7),
    {
        self.rotate(0, 7);
    }

    /// Moves every column left by one; the leftmost becomes the rightmost.
    pub fn shift_left(&mut self)
        requires
            old(self).wf(),
        ensures
            final(self).wf(),
            final(self)@ == rotated(old(self)@, 1, 0),
    {
        self.rotate(1, 0);
    }

    /// Moves every column right by one; the rightmost becomes the leftmost.
    pub fn shift_right(&mut self)
        requires
            old(self).wf(),
        ensures
            final(self).wf(),
            final(self)@ == rotated(old(self)@, 7, 0),
    {
        self.rotate(7, 0);
    }
}

/// Where pixel `k` of a sprite comes from when the sprite is rotated by
/// `(dx, dy)` with wrap-around.
pub open spec fn rotated_offset(k: int, dx: int, dy: int) -> int {
    ((k / 8 + dy) % 8) * 8 + (k % 8 + dx) % 8
}

/// A sprite's pixels rotated by `(dx, dy)` with wrap-around: the new pixel
/// `(x, y)` is the old pixel `((x + dx) % 8, (y + dy) % 8)`.
pub open spec fn rotated(pixels: Seq<Color>, dx: int, dy: int) -> Seq<Color> {
    Seq::new(64, |k: int| pixels[rotated_offset(k, dx, dy)])
}

/// The sheet of all sprites.
pub struct SpriteSheet {
    pixels: Vec<Color>,
}

impl SpriteSheet {
    /// A sheet holds 128×128 color indices.
    pub open spec fn wf(&self) -> bool {
        self@.len() == 16384 && are_colors(self@)
    }

    /// The pixels of the sheet, row by row.
    pub closed spec fn view(&self) -> Seq<Color> {
        self.pixels@
    }

    /// A sheet in which every pixel is color 0.
    pub fn new() -> (s: SpriteSheet)
        ensures
            s.wf(),
            s@ == Seq::new(16384, |p: int| 0u8),
    {
        let mut pixels: Vec<Color> = Vec::new();
        let mut p: usize = 0;
        while p < 16384
            invariant
                p <= 16384,
                pixels@ == Seq::new(p as nat, |j: int| 0u8),
            decreases 16384 - p,
        {
            pixels.push(0);
            p += 1;
        }
        SpriteSheet { pixels }
    }

    /// Makes a sheet of 128×128 color indices given row by row; `None` for
    /// any other length and where an entry is no color index.
    pub fn from_pixels(pixels: Vec<Color>) -> (r: Option<SpriteSheet>)
        ensures
            pixels.len() == 16384 && are_colors(pixels@) <==> r is Some,
            r matches Some(s) ==> s.wf() && s@ == pixels@,
    {
        if pixels.len() == 16384 && all_colors(&pixels) {
            Some(SpriteSheet { pixels })
        } else {
            None
        }
    }

    /// The pixels of the sheet, row by row.
    pub fn pixels(&self) -> (p: &Vec<Color>)
        ensures
            p@ == self@,
    {
        &self.pixels
    }

    /// A copy of sprite `index` (taken modulo 256).
    pub fn get_sprite(&self, index: usize) -> (s: Sprite)
        requires
            self.wf(),
        ensures
            s.wf(),
            s@ == sprite_of(self@, index as int),
    {
        let cell = index % 256;
        let ox = (cell % 16) * 8;
        let oy = (cell / 16) * 8;
        let mut pixels: Vec<Color> = Vec::new();
        let mut k: usize = 0;
        while k < 64
            invariant
                k <= 64,
                self.wf(),
                cell == index % 256,
                ox == (cell % 16) * 8,
                oy == (cell / 16) * 8,
                pixels@ == Seq::new(k as nat, |j: int| self@[sheet_offset(index as int, j)]),
            decreases 64 - k,
        {
            pixels.push(self.pixels[(oy + k / 8) * 128 + ox + k % 8]);
            k += 1;
        }
        Sprite { pixels }
    }

    /// Replaces sprite `index` (taken modulo 256) by `sprite`.
    pub fn set_sprite(&mut self, index: usize, sprite: &Sprite)
        requires
            old(self).wf(),
            sprite.wf(),
        ensures
            final(self).wf(),
            final(self)@ == with_sprite(old(self)@, index as int, sprite@),
    {
        let cell = index % 256;
        let ox = (cell % 16) * 8;
        let oy = (cell / 16) * 8;
        let ghost before = self@;
        let mut k: usize = 0;
        while k < 64
            invariant
                k <= 64,
                self.wf(),
                sprite.wf(),
                before.len() == 16384,
                cell == index % 256,
                ox == (cell % 16) * 8,
                oy == (cell / 16) * 8,
                forall|p: int|
                    0 <= p < 16384 ==> #[trigger] self@[p] == if in_sprite(index as int, p)
                        && sprite_offset(p) < k {
                        sprite@[sprite_offset(p)]
                    } else {
                        before[p]
                    },
            decreases 64 - k,
        {
            let ghost prev = self@;
            let at = (oy + k / 8) * 128 + ox + k % 8;
            proof {
                lemma_sheet_offset(index as int, k as int);
                assert(at == sheet_offset(index as int, k as int));
            }
            self.pixels.set(at, sprite.pixels[k]);
            proof {
                assert forall|p: int| 0 <= p < 16384 implies #[trigger] self@[p] == if in_sprite(
                    index as int,
                    p,
                ) && sprite_offset(p) < k + 1 {
                    sprite@[sprite_offset(p)]
                } else {
                    before[p]
                } by {
                    if in_sprite(index as int, p) {
                        lemma_sprite_offset(index as int, p);
                    }
                    assert(prev[p] == if in_sprite(index as int, p) && sprite_offset(p) < k {
                        sprite@[sprite_offset(p)]
                    } else {
                        before[p]
                    });
                }
            }
            k += 1;
        }
        assert(self@ =~= with_sprite(before, index as int, sprite@));
    }
}

/// Quotient and remainder of `q * d + r` for a remainder `r` below `d`.
proof fn lemma_split(q: int, r: int, d: int)
    requires
        0 < d,
        0 <= r < d,
    ensures
        (q * d + r) / d == q,
        (q * d + r) % d == r,
{
    vstd::arithmetic::div_mod::lemma_fundamental_div_mod_converse(q * d + r, d, q, r);
}

/// Pixel `k` of sprite `index` lies in the sheet, inside that sprite, at
/// offset `k` of it.
pub proof fn lemma_sheet_offset(index: int, k: int)
    requires
        0 <= index,
        0 <= k < 64,
    ensures
        0 <= sheet_offset(index, k) < 16384,
        in_sprite(index, sheet_offset(index, k)),
        sprite_offset(sheet_offset(index, k)) == k,
{
    let cell = index % 256;
    let (cx, cy) = (cell % 16, cell / 16);
    let (kx, ky) = (k % 8, k / 8);
    let p = sheet_offset(index, k);
    assert(p == (cy * 8 + ky) * 128 + (cx * 8 + kx));
    lemma_split(cy * 8 + ky, cx * 8 + kx, 128);
    lemma_split(cx, kx, 8);
    lemma_split(cy, ky, 8);
    lemma_split(ky, kx, 8);
}

/// A sheet position inside sprite `index` is the position of exactly one of
/// its pixels.
pub proof fn lemma_sprite_offset(index: int, p: int)
    requires
        0 <= index,
        in_sprite(index, p),
    ensures
        0 <= sprite_offset(p) < 64,
        sheet_offset(index, sprite_offset(p)) == p,
{
    let cell = index % 256;
    let (px, py) = (p % 128, p / 128);
    let (kx, ky) = (px % 8, py % 8);
    let k = sprite_offset(p);
    assert(k == ky * 8 + kx);
    lemma_split(ky, kx, 8);
    assert(k / 8 == ky && k % 8 == kx);
    assert(px == (cell % 16) * 8 + kx);
    assert(py == (cell / 16) * 8 + ky);
    assert(p == py * 128 + px);
}

/// Reading back a sprite that was just written gives that sprite.
pub proof fn lemma_sprite_of_with_sprite(sheet: Seq<Color>, index: int, sprite: Seq<Color>)
    requires
        sheet.len() == 16384,
        sprite.len() == 64,
        0 <= index,
    ensures
        sprite_of(with_sprite(sheet, index, sprite), index) == sprite,
{
    assert forall|k: int| 0 <= k < 64 implies sprite_of(with_sprite(sheet, index, sprite), index)[k]
        == sprite[k] by {
        lemma_sheet_offset(index, k);
    }
    assert(sprite_of(with_sprite(sheet, index, sprite), index) =~= sprite);
}

/// Writing one sprite leaves every other sprite as it was.
pub proof fn lemma_with_sprite_keeps_others(
    sheet: Seq<Color>,
    index: int,
    sprite: Seq<Color>,
    other: int,
)
    requires
        sheet.len() == 16384,
        sprite.len() == 64,
        0 <= index,
        0 <= other,
        index % 256 != other % 256,
    ensures
        sprite_of(with_sprite(sheet, index, sprite), other) == sprite_of(sheet, other),
{
    assert forall|k: int| 0 <= k < 64 implies sprite_of(with_sprite(sheet, index, sprite), other)[k]
        == sprite_of(sheet, other)[k] by {
        lemma_sheet_offset(other, k);
        assert(!in_sprite(index, sheet_offset(other, k)));
    }
    assert(sprite_of(with_sprite(sheet, index, sprite), other) =~= sprite_of(sheet, other));
}

} // verus!
