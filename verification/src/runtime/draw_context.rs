//! The screen and the operations that draw on it.
//!
//! The screen is a sequence of 128×128 color indices, row by row, each below
//! 16. Every drawing operation is stated as a function from the screen before
//! to the screen after: the pixels that the shape covers get the color, all
//! others stay. Pixels off the screen are dropped silently.
use crate::draw::{line_covers, line_point, line_steps, LineIter};
use crate::font::{glyph_lit, glyph_pixel};
use crate::runtime::colors::{rgb_bytes, rgb_spec};
use crate::runtime::sprite_sheet::{sprite_of, Color, Sprite};
use crate::runtime::state::InternalState;
use crate::screen::Resources;
use vstd::prelude::*;

verus! {

/// Width and height of the screen, in pixels.
pub const SCREEN_SIZE: i32 = 128;

/// Whether `(x, y)` is a pixel of the screen.
pub open spec fn on_screen(x: int, y: int) -> bool {
    0 <= x < 128 && 0 <= y < 128
}

/// Whether a sequence is a screen: 128×128 color indices below 16.
pub open spec fn is_screen(screen: Seq<Color>) -> bool {
    &&& screen.len() == 16384
    &&& forall|i: int| 0 <= i < 16384 ==> #[trigger] screen[i] < 16
}

/// The color of pixel `(x, y)` of a screen.
pub open spec fn pixel(screen: Seq<Color>, x: int, y: int) -> Color {
    screen[y * 128 + x]
}

/// The screen on which every pixel is color 0.
pub open spec fn blank_screen() -> Seq<Color> {
    Seq::new(16384, |i: int| 0u8)
}

/// The screen after the pixels that `covers` holds of are set to `color`
/// (modulo 16).
pub open spec fn painted(
    screen: Seq<Color>,
    covers: spec_fn(int, int) -> bool,
    color: Color,
) -> Seq<Color> {
    Seq::new(
        16384,
        |i: int|
            if covers(i % 128, i / 128) {
                color % 16
            } else {
                screen[i]
            },
    )
}

/// The screen after one pixel is set; unchanged where the pixel is off the
/// screen.
pub open spec fn pset_spec(screen: Seq<Color>, x: int, y: int, color: Color) -> Seq<Color> {
    if on_screen(x, y) {
        screen.update(y * 128 + x, color % 16)
    } else {
        screen
    }
}

/// Whether `(x, y)` lies in the rectangle with corners `(x0, y0)` and
/// `(x1, y1)`, given in any order.
pub open spec fn in_rect(x0: int, y0: int, x1: int, y1: int, x: int, y: int) -> bool {
    &&& (x0 <= x <= x1 || x1 <= x <= x0)
    &&& (y0 <= y <= y1 || y1 <= y <= y0)
}

/// Whether `(x, y)` lies on the edge of the rectangle with corners `(x0, y0)`
/// and `(x1, y1)`, given in any order.
pub open spec fn on_rect_edge(x0: int, y0: int, x1: int, y1: int, x: int, y: int) -> bool {
    &&& in_rect(x0, y0, x1, y1, x, y)
    &&& (x == x0 || x == x1 || y == y0 || y == y1)
}

/// The screen after a filled rectangle is drawn.
pub open spec fn rectfill_spec(
    screen: Seq<Color>,
    x0: int,
    y0: int,
    x1: int,
    y1: int,
    color: Color,
) -> Seq<Color> {
    painted(screen, |x: int, y: int| in_rect(x0, y0, x1, y1, x, y), color)
}

/// The screen after the outline of a rectangle is drawn.
pub open spec fn rect_spec(
    screen: Seq<Color>,
    x0: int,
    y0: int,
    x1: int,
    y1: int,
    color: Color,
) -> Seq<Color> {
    painted(screen, |x: int, y: int| on_rect_edge(x0, y0, x1, y1, x, y), color)
}

/// The screen after a line is drawn.
pub open spec fn line_spec(
    screen: Seq<Color>,
    x0: int,
    y0: int,
    x1: int,
    y1: int,
    color: Color,
) -> Seq<Color> {
    painted(screen, |x: int, y: int| line_covers(x0, y0, x1, y1, x, y), color)
}

/// Whether a sprite drawn with its top left corner at `(x, y)` writes pixel
/// `(px, py)`: the pixel lies in the 8×8 block and the sprite's color there is
/// not the transparent one.
pub open spec fn blit_covers(
    sprite: Seq<Color>,
    x: int,
    y: int,
    transparent: Option<Color>,
    px: int,
    py: int,
) -> bool {
    &&& 0 <= px - x < 8
    &&& 0 <= py - y < 8
    &&& transparent != Some(sprite[(py - y) * 8 + (px - x)])
}

/// The screen after a sprite is drawn with its top left corner at `(x, y)`:
/// where the sprite writes, the pixel has the sprite's color as it is.
pub open spec fn blit_spec(
    screen: Seq<Color>,
    sprite: Seq<Color>,
    x: int,
    y: int,
    transparent: Option<Color>,
) -> Seq<Color> {
    Seq::new(
        16384,
        |i: int|
            if blit_covers(sprite, x, y, transparent, i % 128, i / 128) {
                sprite[(i / 128 - y) * 8 + (i % 128 - x)]
            } else {
                screen[i]
            },
    )
}

/// Whether text printed with its top left corner at `(x, y)` lights pixel
/// `(px, py)`. Character `k` stands in the cell that starts at `x + 4 * k`;
/// there is no line wrapping.
pub open spec fn print_covers(text: Seq<char>, x: int, y: int, px: int, py: int) -> bool {
    let k = (px - x) / 4;
    0 <= k < text.len() && glyph_lit(text[k], (px - x) % 4, py - y)
}

/// The screen after text is printed.
pub open spec fn print_spec(
    screen: Seq<Color>,
    text: Seq<char>,
    x: int,
    y: int,
    color: Color,
) -> Seq<Color> {
    painted(screen, |px: int, py: int| print_covers(text, x, y, px, py), color)
}

/// A pixel of the screen has one place in the sequence.
pub proof fn lemma_pixel_index(x: int, y: int)
    requires
        on_screen(x, y),
    ensures
        0 <= y * 128 + x < 16384,
        (y * 128 + x) % 128 == x,
        (y * 128 + x) / 128 == y,
{
}

/// Two screens with the same color at every pixel are the same screen.
pub proof fn lemma_screens_equal(a: Seq<Color>, b: Seq<Color>)
    requires
        a.len() == 16384,
        b.len() == 16384,
        forall|x: int, y: int| on_screen(x, y) ==> pixel(a, x, y) == pixel(b, x, y),
    ensures
        a == b,
{
    assert forall|i: int| 0 <= i < 16384 implies a[i] == b[i] by {
        let x = i % 128;
        let y = i / 128;
        assert(on_screen(x, y));
        assert(pixel(a, x, y) == pixel(b, x, y));
        assert(y * 128 + x == i);
    }
    assert(a =~= b);
}

/// A painted screen has the color where the shape covers and the old color
/// elsewhere.
pub proof fn lemma_painted_pixel(
    screen: Seq<Color>,
    covers: spec_fn(int, int) -> bool,
    color: Color,
    x: int,
    y: int,
)
    requires
        on_screen(x, y),
    ensures
        pixel(painted(screen, covers, color), x, y) == if covers(x, y) {
            color % 16
        } else {
            pixel(screen, x, y)
        },
{
    lemma_pixel_index(x, y);
}

/// A screen with a sprite drawn on it has the sprite's color where the sprite
/// writes and the old color elsewhere.
pub proof fn lemma_blit_pixel(
    screen: Seq<Color>,
    sprite: Seq<Color>,
    x: int,
    y: int,
    transparent: Option<Color>,
    px: int,
    py: int,
)
    requires
        on_screen(px, py),
    ensures
        pixel(blit_spec(screen, sprite, x, y, transparent), px, py) == if blit_covers(
            sprite,
            x,
            y,
            transparent,
            px,
            py,
        ) {
            sprite[(py - y) * 8 + (px - x)]
        } else {
            pixel(screen, px, py)
        },
{
    lemma_pixel_index(px, py);
}

/// A filled rectangle is the same whichever two opposite corners are given,
/// and in whichever order.
pub proof fn lemma_rectfill_corners(
    screen: Seq<Color>,
    x0: int,
    y0: int,
    x1: int,
    y1: int,
    color: Color,
)
    ensures
        rectfill_spec(screen, x1, y1, x0, y0, color) == rectfill_spec(screen, x0, y0, x1, y1, color),
        rectfill_spec(screen, x0, y1, x1, y0, color) == rectfill_spec(screen, x0, y0, x1, y1, color),
        rectfill_spec(screen, x1, y0, x0, y1, color) == rectfill_spec(screen, x0, y0, x1, y1, color),
{
    assert(rectfill_spec(screen, x1, y1, x0, y0, color) =~= rectfill_spec(
        screen,
        x0,
        y0,
        x1,
        y1,
        color,
    ));
    assert(rectfill_spec(screen, x0, y1, x1, y0, color) =~= rectfill_spec(
        screen,
        x0,
        y0,
        x1,
        y1,
        color,
    ));
    assert(rectfill_spec(screen, x1, y0, x0, y1, color) =~= rectfill_spec(
        screen,
        x0,
        y0,
        x1,
        y1,
        color,
    ));
}

/// The outline of a rectangle is the same in whichever order its corners are
/// given.
pub proof fn lemma_rect_corners(
    screen: Seq<Color>,
    x0: int,
    y0: int,
    x1: int,
    y1: int,
    color: Color,
)
    ensures
        rect_spec(screen, x1, y1, x0, y0, color) == rect_spec(screen, x0, y0, x1, y1, color),
{
    assert(rect_spec(screen, x1, y1, x0, y0, color) =~= rect_spec(screen, x0, y0, x1, y1, color));
}

/// A line drawn from either end gives the same screen.
pub proof fn lemma_line_spec_symmetric(
    screen: Seq<Color>,
    x0: int,
    y0: int,
    x1: int,
    y1: int,
    color: Color,
)
    ensures
        line_spec(screen, x1, y1, x0, y0, color) == line_spec(screen, x0, y0, x1, y1, color),
{
    crate::draw::lemma_line_symmetric(x0, y0, x1, y1);
    assert(line_spec(screen, x1, y1, x0, y0, color) =~= line_spec(screen, x0, y0, x1, y1, color));
}

/// With color 0 transparent, a sprite drawn over any background leaves the
/// background where the sprite is 0 and puts the sprite's color, as it is,
/// elsewhere in its block; outside the block nothing changes.
pub proof fn lemma_blit_keeps_background(
    screen: Seq<Color>,
    sprite: Seq<Color>,
    x: int,
    y: int,
    px: int,
    py: int,
)
    requires
        on_screen(px, py),
    ensures
        0 <= px - x < 8 && 0 <= py - y < 8 ==> pixel(
            blit_spec(screen, sprite, x, y, Some(0u8)),
            px,
            py,
        ) == if sprite[(py - y) * 8 + (px - x)] == 0 {
            pixel(screen, px, py)
        } else {
            sprite[(py - y) * 8 + (px - x)]
        },
        !(0 <= px - x < 8 && 0 <= py - y < 8) ==> pixel(
            blit_spec(screen, sprite, x, y, Some(0u8)),
            px,
            py,
        ) == pixel(screen, px, py),
{
    lemma_blit_pixel(screen, sprite, x, y, Some(0u8), px, py);
}

/// A screen with one pixel set has the color there and the old color
/// elsewhere.
pub proof fn lemma_pset_pixel(screen: Seq<Color>, x: int, y: int, color: Color, px: int, py: int)
    requires
        screen.len() == 16384,
        on_screen(px, py),
    ensures
        pixel(pset_spec(screen, x, y, color), px, py) == if px == x && py == y {
            color % 16
        } else {
            pixel(screen, px, py)
        },
{
    lemma_pixel_index(px, py);
    if on_screen(x, y) {
        lemma_pixel_index(x, y);
    }
}

/// Whether one of the first `k` points of a line is `(x, y)`.
pub open spec fn line_covers_before(
    x0: int,
    y0: int,
    x1: int,
    y1: int,
    k: int,
    x: int,
    y: int,
) -> bool {
    exists|i: int| 0 <= i < k && #[trigger] line_point(x0, y0, x1, y1, i) == (x, y)
}

proof fn lemma_line_covers_step(x0: int, y0: int, x1: int, y1: int, k: int, x: int, y: int)
    requires
        0 <= k,
    ensures
        line_covers_before(x0, y0, x1, y1, k + 1, x, y) == (line_covers_before(
            x0,
            y0,
            x1,
            y1,
            k,
            x,
            y,
        ) || line_point(x0, y0, x1, y1, k) == (x, y)),
        !line_covers_before(x0, y0, x1, y1, 0, x, y),
        line_covers_before(x0, y0, x1, y1, line_steps(x0, y0, x1, y1) + 1, x, y) == line_covers(
            x0,
            y0,
            x1,
            y1,
            x,
            y,
        ),
{
    if line_covers_before(x0, y0, x1, y1, k + 1, x, y) {
        let i = choose|i: int| 0 <= i < k + 1 && #[trigger] line_point(x0, y0, x1, y1, i) == (x, y);
        if i < k {
            assert(line_covers_before(x0, y0, x1, y1, k, x, y));
        }
    }
    if line_covers_before(x0, y0, x1, y1, k, x, y) {
        let i = choose|i: int| 0 <= i < k && #[trigger] line_point(x0, y0, x1, y1, i) == (x, y);
        assert(0 <= i < k + 1);
    }
    let n = line_steps(x0, y0, x1, y1);
    if line_covers_before(x0, y0, x1, y1, n + 1, x, y) {
        let i = choose|i: int| 0 <= i < n + 1 && #[trigger] line_point(x0, y0, x1, y1, i) == (x, y);
        assert(0 <= i <= n);
    }
    if line_covers(x0, y0, x1, y1, x, y) {
        let i = choose|i: int| 0 <= i <= n && #[trigger] line_point(x0, y0, x1, y1, i) == (x, y);
        assert(0 <= i < n + 1);
    }
}

/// What a pass of drawing has made so far: the screen, and the color that
/// sprites do not draw.
pub struct Picture {
    pub screen: Seq<Color>,
    pub transparent: Option<Color>,
}

/// The pixels of the screen.
pub struct DrawData {
    buffer: Vec<Color>,
}

impl DrawData {
    /// The buffer is a screen.
    pub open spec fn wf(&self) -> bool {
        is_screen(self@)
    }

    /// The screen, row by row.
    pub closed spec fn view(&self) -> Seq<Color> {
        self.buffer@
    }

    /// A blank screen.
    pub fn new() -> (d: DrawData)
        ensures
            d.wf(),
            d@ == blank_screen(),
    {
        let mut buffer: Vec<Color> = Vec::new();
        let mut i: usize = 0;
        while i < 16384
            invariant
                i <= 16384,
                buffer@ == Seq::new(i as nat, |j: int| 0u8),
            decreases 16384 - i,
        {
            buffer.push(0);
            i += 1;
        }
        DrawData { buffer }
    }

    /// The screen, row by row: 128×128 color indices below 16.
    pub fn buffer(&self) -> (b: &Vec<Color>)
        ensures
            b@ == self@,
    {
        &self.buffer
    }

    /// The screen as red, green and blue bytes, three for each pixel, row by
    /// row.
    pub fn to_rgb(&self) -> (bytes: Vec<u8>)
        requires
            self.wf(),
        ensures
            bytes@.len() == 3 * 16384,
            forall|i: int|
                0 <= i < 16384 ==> (#[trigger] bytes@[3 * i], bytes@[3 * i + 1], bytes@[3 * i + 2])
                    == rgb_spec(self@[i]),
    {
        rgb_bytes(&self.buffer)
    }

    /// The color of pixel `(x, y)`, and 0 off the screen.
    pub fn pget(&self, x: i32, y: i32) -> (c: Color)
        requires
            self.wf(),
        ensures
            c == if on_screen(x as int, y as int) {
                pixel(self@, x as int, y as int)
            } else {
                0
            },
    {
        if 0 <= x && x < SCREEN_SIZE && 0 <= y && y < SCREEN_SIZE {
            self.buffer[(y * SCREEN_SIZE + x) as usize]
        } else {
            0
        }
    }
}

/// What one pass of drawing works with: the screen, the transparent color of
/// sprites, and a look at the resources and the input state.
pub struct DrawContext<'a> {
    data: DrawData,
    transparent: Option<Color>,
    resources: &'a Resources,
    state: &'a InternalState,
}

impl<'a> DrawContext<'a> {
    /// The screen is a screen, and the resources have their fixed sizes.
    pub open spec fn wf(&self) -> bool {
        is_screen(self.screen()) && self.resources().wf()
    }

    /// The screen, row by row.
    pub closed spec fn screen(&self) -> Seq<Color> {
        self.data@
    }

    /// The color that sprites do not draw, if any.
    pub closed spec fn transparent(&self) -> Option<Color> {
        self.transparent
    }

    /// The resources that drawing reads.
    pub closed spec fn resources(&self) -> Resources {
        *self.resources
    }

    /// The input state that drawing reads.
    pub closed spec fn state(&self) -> InternalState {
        *self.state
    }

    /// The screen together with the transparent color.
    pub open spec fn picture(&self) -> Picture {
        Picture { screen: self.screen(), transparent: self.transparent() }
    }

    /// `after` differs from `self` at most in the screen.
    pub open spec fn same_frame(&self, after: &Self) -> bool {
        &&& after.transparent() == self.transparent()
        &&& after.resources() == self.resources()
        &&& after.state() == self.state()
    }

    /// `after` is `self` with the screen replaced by `screen`.
    pub open spec fn drew(&self, after: &Self, screen: Seq<Color>) -> bool {
        &&& after.wf()
        &&& self.same_frame(after)
        &&& after.screen() == screen
    }

    /// Starts a pass of drawing on `data`. Color 0 is transparent until
    /// `palt` says otherwise.
    pub fn new(state: &'a InternalState, resources: &'a Resources, data: DrawData) -> (ctx: Self)
        requires
            data.wf(),
            resources.wf(),
        ensures
            ctx.wf(),
            ctx.screen() == data@,
            ctx.transparent() == Some(0u8),
            ctx.resources() == *resources,
            ctx.state() == *state,
    {
        DrawContext { data, transparent: Some(0), resources, state }
    }

    /// Ends the pass and hands the screen back.
    pub fn finish(self) -> (data: DrawData)
        requires
            self.wf(),
        ensures
            data.wf(),
            data@ == self.screen(),
    {
        self.data
    }

    /// The color that sprites do not draw, if any.
    pub fn transparency(&self) -> (t: Option<Color>)
        ensures
            t == self.transparent(),
    {
        self.transparent
    }

    /// The resources that drawing reads.
    pub fn get_resources(&self) -> (r: &'a Resources)
        ensures
            *r == self.resources(),
    {
        self.resources
    }

    /// The input state that drawing reads.
    pub fn get_state(&self) -> (s: &'a InternalState)
        ensures
            *s == self.state(),
    {
        self.state
    }

    /// Sets pixel `(x, y)`, which is on the screen.
    fn put(&mut self, x: i32, y: i32, color: Color)
        requires
            old(self).wf(),
            on_screen(x as int, y as int),
        ensures
            final(self).wf(),
            old(self).same_frame(final(self)),
            forall|px: int, py: int|
                on_screen(px, py) ==> #[trigger] pixel(final(self).screen(), px, py) == if px == x
                    && py == y {
                    color % 16
                } else {
                    pixel(old(self).screen(), px, py)
                },
            final(self).screen() == pset_spec(old(self).screen(), x as int, y as int, color),
    {
        self.data.buffer.set((y * SCREEN_SIZE + x) as usize, color % 16);
    }

    /// Sets every pixel to color 0.
    pub fn cls(&mut self)
        requires
            old(self).wf(),
        ensures
            old(self).drew(final(self), blank_screen()),
    {
        let mut i: usize = 0;
        while i < 16384
            invariant
                i <= 16384,
                self.wf(),
                old(self).same_frame(self),
                forall|j: int| 0 <= j < i ==> #[trigger] self.screen()[j] == 0,
            decreases 16384 - i,
        {
            let ghost prev = self.screen();
            self.data.buffer.set(i, 0);
            assert(self.screen() == prev.update(i as int, 0u8));
            i += 1;
        }
        assert(self.screen() =~= blank_screen());
    }

    /// Chooses the color that sprites do not draw; `None` makes every color
    /// opaque. The choice lasts until the next call or the end of the pass:
    /// whoever changes it for a while has to put the former choice back.
    pub fn palt(&mut self, transparent: Option<Color>)
        requires
            old(self).wf(),
        ensures
            final(self).wf(),
            final(self).screen() == old(self).screen(),
            final(self).transparent() == transparent,
            final(self).resources() == old(self).resources(),
            final(self).state() == old(self).state(),
    {
        self.transparent = transparent;
    }

    /// The color of pixel `(x, y)`, and 0 off the screen.
    pub fn pget(&self, x: i32, y: i32) -> (c: Color)
        requires
            self.wf(),
        ensures
            c == if on_screen(x as int, y as int) {
                pixel(self.screen(), x as int, y as int)
            } else {
                0
            },
    {
        self.data.pget(x, y)
    }

    /// Sets pixel `(x, y)` to `color` (modulo 16); does nothing off the
    /// screen.
    pub fn pset(&mut self, x: i32, y: i32, color: Color)
        requires
            old(self).wf(),
        ensures
            old(self).drew(
                final(self),
                pset_spec(old(self).screen(), x as int, y as int, color),
            ),
    {
        if 0 <= x && x < SCREEN_SIZE && 0 <= y && y < SCREEN_SIZE {
            self.put(x, y, color);
        }
    }

    /// Fills the rectangle with corners `(x0, y0)` and `(x1, y1)`, given in
    /// any order.
    pub fn rectfill(&mut self, x0: i32, y0: i32, x1: i32, y1: i32, color: Color)
        requires
            old(self).wf(),
        ensures
            old(self).drew(
                final(self),
                rectfill_spec(
                    old(self).screen(),
                    x0 as int,
                    y0 as int,
                    x1 as int,
                    y1 as int,
                    color,
                ),
            ),
    {
        let left = clip_low(x0, x1);
        let right = clip_high(x0, x1);
        let top = clip_low(y0, y1);
        let bottom = clip_high(y0, y1);
        let ghost before = self.screen();
        let mut y = top;
        while y <= bottom
            invariant
                0 <= top,
                top <= y,
                bottom < 128,
                y <= bottom + 1 || y == top,
                left == clipped_low(x0 as int, x1 as int),
                right == clipped_high(x0 as int, x1 as int),
                top == clipped_low(y0 as int, y1 as int),
                bottom == clipped_high(y0 as int, y1 as int),
                self.wf(),
                old(self).same_frame(self),
                before == old(self).screen(),
                forall|px: int, py: int|
                    on_screen(px, py) ==> #[trigger] pixel(self.screen(), px, py) == if in_rect(
                        x0 as int,
                        y0 as int,
                        x1 as int,
                        y1 as int,
                        px,
                        py,
                    ) && py < y {
                        color % 16
                    } else {
                        pixel(before, px, py)
                    },
            decreases bottom + 1 - y,
        {
            let mut x = left;
            while x <= right
                invariant
                    0 <= left,
                    left <= x,
                    right < 128,
                    x <= right + 1 || x == left,
                    0 <= y < 128,
                    top <= y <= bottom,
                    left == clipped_low(x0 as int, x1 as int),
                    right == clipped_high(x0 as int, x1 as int),
                    top == clipped_low(y0 as int, y1 as int),
                    bottom == clipped_high(y0 as int, y1 as int),
                    self.wf(),
                    old(self).same_frame(self),
                    forall|px: int, py: int|
                        on_screen(px, py) ==> #[trigger] pixel(self.screen(), px, py) == if in_rect(
                            x0 as int,
                            y0 as int,
                            x1 as int,
                            y1 as int,
                            px,
                            py,
                        ) && (py < y || (py == y && px < x)) {
                            color % 16
                        } else {
                            pixel(before, px, py)
                        },
                decreases right + 1 - x,
            {
                self.put(x, y, color);
                x += 1;
            }
            y += 1;
        }
        proof {
            let after = rectfill_spec(
                before,
                x0 as int,
                y0 as int,
                x1 as int,
                y1 as int,
                color,
            );
            assert forall|px: int, py: int| on_screen(px, py) implies pixel(self.screen(), px, py)
                == pixel(after, px, py) by {
                lemma_painted_pixel(
                    before,
                    |x: int, y: int| in_rect(x0 as int, y0 as int, x1 as int, y1 as int, x, y),
                    color,
                    px,
                    py,
                );
            }
            lemma_screens_equal(self.screen(), after);
        }
    }

    /// Draws the outline of the rectangle with corners `(x0, y0)` and
    /// `(x1, y1)`, given in any order.
    pub fn rect(&mut self, x0: i32, y0: i32, x1: i32, y1: i32, color: Color)
        requires
            old(self).wf(),
        ensures
            old(self).drew(
                final(self),
                rect_spec(old(self).screen(), x0 as int, y0 as int, x1 as int, y1 as int, color),
            ),
    {
        let ghost before = self.screen();
        self.rectfill(x0, y0, x1, y0, color);
        let ghost first = self.screen();
        self.rectfill(x0, y1, x1, y1, color);
        let ghost second = self.screen();
        self.rectfill(x0, y0, x0, y1, color);
        let ghost third = self.screen();
        self.rectfill(x1, y0, x1, y1, color);
        proof {
            let (a0, b0, a1, b1) = (x0 as int, y0 as int, x1 as int, y1 as int);
            let after = rect_spec(before, a0, b0, a1, b1, color);
            assert forall|px: int, py: int| on_screen(px, py) implies pixel(self.screen(), px, py)
                == pixel(after, px, py) by {
                lemma_painted_pixel(
                    before,
                    |x: int, y: int| in_rect(a0, b0, a1, b0, x, y),
                    color,
                    px,
                    py,
                );
                lemma_painted_pixel(
                    first,
                    |x: int, y: int| in_rect(a0, b1, a1, b1, x, y),
                    color,
                    px,
                    py,
                );
                lemma_painted_pixel(
                    second,
                    |x: int, y: int| in_rect(a0, b0, a0, b1, x, y),
                    color,
                    px,
                    py,
                );
                lemma_painted_pixel(
                    third,
                    |x: int, y: int| in_rect(a1, b0, a1, b1, x, y),
                    color,
                    px,
                    py,
                );
                lemma_painted_pixel(
                    before,
                    |x: int, y: int| on_rect_edge(a0, b0, a1, b1, x, y),
                    color,
                    px,
                    py,
                );
            }
            lemma_screens_equal(self.screen(), after);
        }
    }

    /// Draws the line from `(x0, y0)` to `(x1, y1)`, both ends included.
    pub fn line(&mut self, x0: i32, y0: i32, x1: i32, y1: i32, color: Color)
        requires
            old(self).wf(),
        ensures
            old(self).drew(
                final(self),
                line_spec(old(self).screen(), x0 as int, y0 as int, x1 as int, y1 as int, color),
            ),
    {
        let ghost before = self.screen();
        let ghost (a0, b0, a1, b1) = (x0 as int, y0 as int, x1 as int, y1 as int);
        let ghost steps = line_steps(a0, b0, a1, b1);
        let mut walk = LineIter::new(x0, y0, x1, y1);
        proof {
            assert forall|px: int, py: int| !line_covers_before(a0, b0, a1, b1, 0, px, py) by {
                lemma_line_covers_step(a0, b0, a1, b1, 0, px, py);
            }
        }
        loop
            invariant
                walk.wf(),
                walk.ends() == (a0, b0, a1, b1),
                steps == line_steps(a0, b0, a1, b1),
                0 <= walk.given() <= steps + 1,
                self.wf(),
                old(self).same_frame(self),
                forall|px: int, py: int|
                    on_screen(px, py) ==> #[trigger] pixel(self.screen(), px, py)
                        == if line_covers_before(a0, b0, a1, b1, walk.given(), px, py) {
                        color % 16
                    } else {
                        pixel(before, px, py)
                    },
            ensures
                walk.given() == steps + 1,
            decreases steps + 1 - walk.given(),
        {
            let ghost i = walk.given();
            let p = match walk.next() {
                Some(p) => p,
                None => {
                    break ;
                },
            };
            let ghost prev = self.screen();
            self.pset(p.0, p.1, color);
            proof {
                assert forall|px: int, py: int| on_screen(px, py) implies #[trigger] pixel(
                    self.screen(),
                    px,
                    py,
                ) == if line_covers_before(a0, b0, a1, b1, i + 1, px, py) {
                    color % 16
                } else {
                    pixel(before, px, py)
                } by {
                    lemma_line_covers_step(a0, b0, a1, b1, i, px, py);
                    lemma_pset_pixel(prev, p.0 as int, p.1 as int, color, px, py);
                    assert(pixel(prev, px, py) == if line_covers_before(a0, b0, a1, b1, i, px, py) {
                        color % 16
                    } else {
                        pixel(before, px, py)
                    });
                }
            }
        }
        proof {
            let after = line_spec(before, a0, b0, a1, b1, color);
            assert forall|px: int, py: int| on_screen(px, py) implies pixel(self.screen(), px, py)
                == pixel(after, px, py) by {
                lemma_line_covers_step(a0, b0, a1, b1, 0, px, py);
                lemma_painted_pixel(
                    before,
                    |x: int, y: int| line_covers(a0, b0, a1, b1, x, y),
                    color,
                    px,
                    py,
                );
            }
            lemma_screens_equal(self.screen(), after);
        }
    }

    /// Draws a sprite with its top left corner at `(x, y)`. Pixels of the
    /// transparent color are not drawn; every other pixel of the sprite is
    /// copied as it is.
    pub fn raw_spr(&mut self, sprite: &Sprite, x: i32, y: i32)
        requires
            old(self).wf(),
            sprite.wf(),
        ensures
            old(self).drew(
                final(self),
                blit_spec(
                    old(self).screen(),
                    sprite@,
                    x as int,
                    y as int,
                    old(self).transparent(),
                ),
            ),
    {
        let ghost before = self.screen();
        let ghost t = self.transparent();
        let mut k: usize = 0;
        while k < 64
            invariant
                k <= 64,
                self.wf(),
                sprite.wf(),
                old(self).same_frame(self),
                t == old(self).transparent(),
                forall|px: int, py: int|
                    on_screen(px, py) ==> #[trigger] pixel(self.screen(), px, py) == if blit_covers(
                        sprite@,
                        x as int,
                        y as int,
                        t,
                        px,
                        py,
                    ) && (py - y) * 8 + (px - x) < k {
                        sprite@[(py - y) * 8 + (px - x)]
                    } else {
                        pixel(before, px, py)
                    },
            decreases 64 - k,
        {
            let sx = k % 8;
            let sy = k / 8;
            let color = sprite.pget(sx as isize, sy as isize);
            let tx: i64 = x as i64 + sx as i64;
            let ty: i64 = y as i64 + sy as i64;
            let opaque = match self.transparent {
                Some(clear) => clear != color,
                None => true,
            };
            if opaque && 0 <= tx && tx < 128 && 0 <= ty && ty < 128 {
                self.put(tx as i32, ty as i32, color);
            }
            k += 1;
        }
        proof {
            let after = blit_spec(before, sprite@, x as int, y as int, t);
            assert forall|px: int, py: int| on_screen(px, py) implies pixel(self.screen(), px, py)
                == pixel(after, px, py) by {
                lemma_blit_pixel(before, sprite@, x as int, y as int, t, px, py);
            }
            lemma_screens_equal(self.screen(), after);
        }
    }

    /// Draws sprite `index` of the sheet (taken modulo 256) with its top left
    /// corner at `(x, y)`. Pixels of the transparent color are not drawn;
    /// every other pixel of the sprite is copied as it is.
    pub fn spr(&mut self, index: usize, x: i32, y: i32)
        requires
            old(self).wf(),
        ensures
            old(self).drew(
                final(self),
                blit_spec(
                    old(self).screen(),
                    sprite_of(old(self).resources().sprite_sheet@, index as int),
                    x as int,
                    y as int,
                    old(self).transparent(),
                ),
            ),
    {
        let sprite = self.resources.sprite_sheet.get_sprite(index);
        self.raw_spr(&sprite, x, y);
    }

    /// Prints text with the top left corner of its first character at
    /// `(x, y)`, one cell of 4×6 pixels for each character, on one line.
    /// Characters without a glyph leave their cell empty.
    pub fn print(&mut self, text: &str, x: i32, y: i32, color: Color)
        requires
            old(self).wf(),
        ensures
            old(self).drew(
                final(self),
                print_spec(old(self).screen(), text@, x as int, y as int, color),
            ),
    {
        let ghost before = self.screen();
        let len = text.unicode_len();
        let mut k: usize = 0;
        let mut cx: i64 = x as i64;
        while k < len && cx < 128
            invariant
                k <= len,
                len == text@.len(),
                cx == x + 4 * k,
                self.wf(),
                old(self).same_frame(self),
                forall|px: int, py: int|
                    on_screen(px, py) ==> #[trigger] pixel(self.screen(), px, py)
                        == if print_covers(text@, x as int, y as int, px, py) && (px - x) / 4 < k {
                        color % 16
                    } else {
                        pixel(before, px, py)
                    },
            decreases len - k,
        {
            let c = text.get_char(k);
            let mut bit: u16 = 0;
            while bit < 15
                invariant
                    bit <= 15,
                    k < len,
                    len == text@.len(),
                    c == text@[k as int],
                    cx == x + 4 * k,
                    cx < 128,
                    self.wf(),
                    old(self).same_frame(self),
                    forall|px: int, py: int|
                        on_screen(px, py) ==> #[trigger] pixel(self.screen(), px, py)
                            == if print_covers(text@, x as int, y as int, px, py) && ((px - x) / 4
                            < k || ((px - x) / 4 == k && (py - y) * 3 + (px - x) % 4 < bit)) {
                            color % 16
                        } else {
                            pixel(before, px, py)
                        },
                decreases 15 - bit,
            {
                let gx = bit % 3;
                let gy = bit / 3;
                if glyph_pixel(c, gx, gy) {
                    let tx: i64 = cx + gx as i64;
                    let ty: i64 = y as i64 + gy as i64;
                    if 0 <= tx && tx < 128 && 0 <= ty && ty < 128 {
                        self.put(tx as i32, ty as i32, color);
                    }
                }
                bit += 1;
            }
            k += 1;
            cx += 4;
        }
        proof {
            let after = print_spec(before, text@, x as int, y as int, color);
            assert forall|px: int, py: int| on_screen(px, py) implies pixel(self.screen(), px, py)
                == pixel(after, px, py) by {
                lemma_painted_pixel(
                    before,
                    |px: int, py: int| print_covers(text@, x as int, y as int, px, py),
                    color,
                    px,
                    py,
                );
            }
            lemma_screens_equal(self.screen(), after);
        }
    }
}

/// The smaller of two coordinates, and 0 where that is off the screen to the
/// left or above.
pub open spec fn clipped_low(a: int, b: int) -> int {
    let low = if a <= b {
        a
    } else {
        b
    };
    if low < 0 {
        0
    } else {
        low
    }
}

/// The larger of two coordinates, and 127 where that is off the screen to the
/// right or below.
pub open spec fn clipped_high(a: int, b: int) -> int {
    let high = if a <= b {
        b
    } else {
        a
    };
    if high > 127 {
        127
    } else {
        high
    }
}

fn clip_low(a: i32, b: i32) -> (r: i32)
    ensures
        r == clipped_low(a as int, b as int),
{
    let low = if a <= b {
        a
    } else {
        b
    };
    if low < 0 {
        0
    } else {
        low
    }
}

fn clip_high(a: i32, b: i32) -> (r: i32)
    ensures
        r == clipped_high(a as int, b as int),
{
    let high = if a <= b {
        b
    } else {
        a
    };
    if high > 127 {
        127
    } else {
        high
    }
}

/// A coordinate brought into the range of `i32`.
pub open spec fn clamped(v: int) -> int {
    if v < i32::MIN {
        i32::MIN as int
    } else if v > i32::MAX {
        i32::MAX as int
    } else {
        v
    }
}

/// A coordinate brought into the range of `i32`. Since the screen lies well
/// inside that range, drawing with the result gives the same screen.
pub fn clamp_coord(v: i64) -> (r: i32)
    ensures
        r == clamped(v as int),
{
    if v < i32::MIN as i64 {
        i32::MIN
    } else if v > i32::MAX as i64 {
        i32::MAX
    } else {
        v as i32
    }
}

/// A filled rectangle is the same when its corners are brought into the
/// range of `i32`.
pub proof fn lemma_rectfill_clamped(
    screen: Seq<Color>,
    x0: int,
    y0: int,
    x1: int,
    y1: int,
    color: Color,
)
    ensures
        rectfill_spec(screen, clamped(x0), clamped(y0), clamped(x1), clamped(y1), color)
            == rectfill_spec(screen, x0, y0, x1, y1, color),
{
    assert(rectfill_spec(screen, clamped(x0), clamped(y0), clamped(x1), clamped(y1), color)
        =~= rectfill_spec(screen, x0, y0, x1, y1, color));
}

/// The outline of a rectangle is the same when its corners are brought into
/// the range of `i32`.
pub proof fn lemma_rect_clamped(
    screen: Seq<Color>,
    x0: int,
    y0: int,
    x1: int,
    y1: int,
    color: Color,
)
    ensures
        rect_spec(screen, clamped(x0), clamped(y0), clamped(x1), clamped(y1), color) == rect_spec(
            screen,
            x0,
            y0,
            x1,
            y1,
            color,
        ),
{
    assert(rect_spec(screen, clamped(x0), clamped(y0), clamped(x1), clamped(y1), color)
        =~= rect_spec(screen, x0, y0, x1, y1, color));
}

} // verus!
