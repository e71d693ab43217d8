//! The built-in sprite editor.
use crate::app::AppCompat;
use crate::draw::{line_covers, line_point, line_steps, LineIter};
use crate::editor::canvas::Canvas;
use crate::runtime::draw_context::{
    blank_screen,
    blit_spec,
    clamp_coord,
    clamped,
    lemma_rect_clamped,
    lemma_rectfill_clamped,
    line_spec,
    print_spec,
    rect_spec,
    rectfill_spec,
    DrawContext,
    Picture,
};
use crate::runtime::sprite_sheet::{
    are_colors,
    lemma_reduced_colors,
    reduced,
    rotated,
    sprite_of,
    with_sprite,
    Color,
    Sprite,
};
use crate::runtime::state::{Button, InternalState};
use crate::screen::{Resources, ResourcesView};
use crate::text::{decimal, padded3, pair_text, push_decimal, push_padded3, push_pair};
use crate::ui::{Element, Paint};
use crate::Event;
use vstd::prelude::*;

pub mod canvas;
pub mod tool_size;

verus! {

/// Left edge of the color palette.
pub const CANVAS_X: i32 = 79;

/// Top edge of the color palette.
pub const CANVAS_Y: i32 = 10;

/// Side of one color of the palette.
pub const SIZE: i32 = 10;

/// Side of the palette with its border.
pub const BOX_SIZE: i32 = 42;

/// A rectangle of `width` by `height` pixels with its top left corner at
/// `(x, y)`.
#[derive(Clone, Copy, Debug, PartialEq, Eq, Structural)]
pub struct Rect {
    pub x: i32,
    pub y: i32,
    pub width: i32,
    pub height: i32,
}

impl Rect {
    /// Whether `(x, y)` lies in the rectangle. A rectangle without width or
    /// without height has no points.
    pub open spec fn has(&self, x: int, y: int) -> bool {
        &&& self.x <= x < self.x + self.width
        &&& self.y <= y < self.y + self.height
    }

    /// How far `v` lies outside the range from `low` to `low + extent`:
    /// 0 inside it.
    pub open spec fn outside(low: int, extent: int, v: int) -> int {
        if low - v >= 0 && low - v >= v - (low + extent) {
            low - v
        } else if v - (low + extent) >= 0 {
            v - (low + extent)
        } else {
            0
        }
    }

    /// The square of the distance from `(x, y)` to the rectangle.
    pub open spec fn distance_squared_spec(&self, x: int, y: int) -> int {
        let dx = Self::outside(self.x as int, self.width as int, x);
        let dy = Self::outside(self.y as int, self.height as int, y);
        dx * dx + dy * dy
    }

    /// The row of the lowest pixels.
    pub open spec fn bottom_spec(&self) -> int {
        self.y + self.height - 1
    }

    /// The column of the rightmost pixels.
    pub open spec fn right_spec(&self) -> int {
        self.x + self.width - 1
    }

    /// Whether `(x, y)` lies in the rectangle.
    pub fn contains(&self, x: i32, y: i32) -> (r: bool)
        ensures
            r == self.has(x as int, y as int),
    {
        let contains_x = x >= self.x && (x as i64) < self.x as i64 + self.width as i64;
        let contains_y = y >= self.y && (y as i64) < self.y as i64 + self.height as i64;

        contains_x && contains_y
    }

    /// The square of the distance from `(x, y)` to the rectangle, 0 for a
    /// point inside it.
    pub fn distance_squared(&self, x: i32, y: i32) -> (d: i32)
        requires
            self.distance_squared_spec(x as int, y as int) <= i32::MAX,
        ensures
            d == self.distance_squared_spec(x as int, y as int),
    {
        let dx = Self::distance_outside(self.x, self.width, x);
        let dy = Self::distance_outside(self.y, self.height, y);
        assert(0 <= dx * dx <= 0x2_0000_0000 * 0x2_0000_0000) by (nonlinear_arith)
            requires
                0 <= dx <= 0x2_0000_0000,
        ;
        assert(0 <= dy * dy <= 0x2_0000_0000 * 0x2_0000_0000) by (nonlinear_arith)
            requires
                0 <= dy <= 0x2_0000_0000,
        ;
        (dx * dx + dy * dy) as i32
    }

    fn distance_outside(low: i32, extent: i32, v: i32) -> (d: i128)
        ensures
            d == Self::outside(low as int, extent as int, v as int),
            0 <= d <= 0x2_0000_0000,
    {
        let before: i128 = low as i128 - v as i128;
        let after: i128 = v as i128 - (low as i128 + extent as i128);
        if before >= 0 && before >= after {
            before
        } else if after >= 0 {
            after
        } else {
            0
        }
    }

    /// The screen after the rectangle is filled.
    pub open spec fn fill_spec(&self, screen: Seq<Color>, color: Color) -> Seq<Color> {
        rectfill_spec(
            screen,
            self.x as int,
            self.y as int,
            self.right_spec(),
            self.bottom_spec(),
            color,
        )
    }

    /// Fills the rectangle.
    pub fn fill(&self, draw_context: &mut DrawContext, color: Color)
        requires
            old(draw_context).wf(),
        ensures
            old(draw_context).drew(
                final(draw_context),
                self.fill_spec(old(draw_context).screen(), color),
            ),
    {
        let right = clamp_coord(self.x as i64 + self.width as i64 - 1);
        let bottom = clamp_coord(self.y as i64 + self.height as i64 - 1);
        proof {
            lemma_rectfill_clamped(
                draw_context.screen(),
                self.x as int,
                self.y as int,
                self.right_spec(),
                self.bottom_spec(),
                color,
            );
        }
        draw_context.rectfill(self.x, self.y, right, bottom, color)
    }

    /// The row of the lowest pixels.
    pub fn bottom(&self) -> (r: i32)
        requires
            i32::MIN <= self.bottom_spec() <= i32::MAX,
        ensures
            r == self.bottom_spec(),
    {
        (self.y as i64 + self.height as i64 - 1) as i32
    }

    /// The column of the rightmost pixels.
    pub fn right(&self) -> (r: i32)
        requires
            i32::MIN <= self.right_spec() <= i32::MAX,
        ensures
            r == self.right_spec(),
    {
        (self.x as i64 + self.width as i64 - 1) as i32
    }

    /// The screen after the rectangle is highlighted: with `include_inner`
    /// its own outline is drawn in color 0, and in any case the outline one
    /// pixel further out is drawn in `highlight_color`.
    pub open spec fn highlight_spec(
        &self,
        screen: Seq<Color>,
        include_inner: bool,
        highlight_color: Color,
    ) -> Seq<Color> {
        let inner = if include_inner {
            rect_spec(
                screen,
                self.x as int,
                self.y as int,
                self.right_spec(),
                self.bottom_spec(),
                0,
            )
        } else {
            screen
        };
        rect_spec(
            inner,
            self.x - 1,
            self.y - 1,
            self.x + self.width,
            self.y + self.height,
            highlight_color,
        )
    }

    /// Draws a frame around the rectangle.
    pub fn highlight(
        &self,
        draw_context: &mut DrawContext,
        include_inner: bool,
        highlight_color: Color,
    )
        requires
            old(draw_context).wf(),
        ensures
            old(draw_context).drew(
                final(draw_context),
                self.highlight_spec(old(draw_context).screen(), include_inner, highlight_color),
            ),
    {
        let Rect { x, y, width, height } = *self;

        if include_inner {
            proof {
                lemma_rect_clamped(
                    draw_context.screen(),
                    x as int,
                    y as int,
                    x + width - 1,
                    y + height - 1,
                    0,
                );
            }
            draw_context.rect(
                x,
                y,
                clamp_coord(x as i64 + width as i64 - 1),
                clamp_coord(y as i64 + height as i64 - 1),
                0,
            )
        };
        proof {
            lemma_rect_clamped(
                draw_context.screen(),
                x - 1,
                y - 1,
                x + width,
                y + height,
                highlight_color,
            );
        }
        draw_context.rect(
            clamp_coord(x as i64 - 1),
            clamp_coord(y as i64 - 1),
            clamp_coord(x as i64 + width as i64),
            clamp_coord(y as i64 + height as i64),
            highlight_color,
        );
    }
}

/// Where a color stands in the palette: four colors to a row, each a square
/// of ten pixels.
pub open spec fn color_position_spec(color: Color) -> Rect {
    Rect {
        x: (CANVAS_X + 1 + (color as int % 4) * SIZE) as i32,
        y: (CANVAS_Y + 1 + (color as int / 4) * SIZE) as i32,
        width: SIZE,
        height: SIZE,
    }
}

/// Where a color stands in the palette.
pub fn color_position(color: Color) -> (r: Rect)
    ensures
        r == color_position_spec(color),
{
    let x = CANVAS_X + 1 + (color as i32 % 4) * SIZE;
    let y = CANVAS_Y + 1 + (color as i32 / 4) * SIZE;

    Rect { x, y, width: SIZE, height: SIZE }
}

/// The cursor of the editor: an arrow.
pub const MOUSE_SPRITE: [Color; 64] = [
    0, 0, 0, 0, 0, 0, 0, 0,
    0, 0, 0, 1, 0, 0, 0, 0,
    0, 0, 1, 7, 1, 0, 0, 0,
    0, 0, 1, 7, 7, 1, 0, 0,
    0, 0, 1, 7, 7, 7, 1, 0,
    0, 0, 1, 7, 7, 7, 7, 1,
    0, 0, 1, 7, 7, 1, 1, 0,
    0, 0, 0, 1, 1, 7, 1, 0,
];

/// The cursor of the editor over the canvas: a target.
pub const MOUSE_TARGET_SPRITE: [Color; 64] = [
    0, 0, 0, 1, 0, 0, 0, 0,
    0, 0, 1, 7, 1, 0, 0, 0,
    0, 1, 0, 0, 0, 1, 0, 0,
    1, 7, 0, 0, 0, 7, 1, 0,
    0, 1, 0, 0, 0, 1, 0, 0,
    0, 0, 1, 7, 1, 0, 0, 0,
    0, 0, 0, 1, 0, 0, 0, 0,
    0, 0, 0, 0, 0, 0, 0, 0,
];

/// Both cursors are made of color indices.
pub proof fn lemma_cursors_are_colors()
    ensures
        are_colors(MOUSE_SPRITE@),
        are_colors(MOUSE_TARGET_SPRITE@),
        reduced(MOUSE_SPRITE@) == MOUSE_SPRITE@,
        reduced(MOUSE_TARGET_SPRITE@) == MOUSE_TARGET_SPRITE@,
{
    assert(are_colors(MOUSE_SPRITE@));
    assert(are_colors(MOUSE_TARGET_SPRITE@));
    lemma_reduced_colors(MOUSE_SPRITE@);
    lemma_reduced_colors(MOUSE_TARGET_SPRITE@);
}

/// Number of sprites in one row of the sheet.
pub const SPRITES_PER_ROW: u8 = 16;

/// Number of rows of the sheet that the editor shows.
pub const SPRITE_ROWS: u8 = 4;

/// The part of the screen where the editor shows the sprite sheet.
pub fn sprite_sheet_area() -> (r: Rect)
    ensures
        r == (Rect { x: 0, y: 87, width: 128, height: 34 }),
{
    Rect { x: 0, y: 87, width: 128, height: 34 }
}

/// Where a line was begun.
#[derive(Clone, Copy, Debug)]
pub struct LineState {
    pub start: (i32, i32),
}

/// How the editor draws on the canvas.
#[derive(Clone, Copy, Debug)]
pub enum DrawMode {
    /// Pixel by pixel.
    Pencil,
    /// Lines, from where the mouse went down to where it goes up.
    Line(Option<LineState>),
}

/// The one message of the editor: a frame has begun.
#[derive(Clone, Copy, Debug, PartialEq, Eq, Structural)]
pub enum EditorMsg {
    Tick,
}

/// The sprite editor.
pub struct SpriteEditor {
    mouse_x: i32,
    mouse_y: i32,
    mouse_pressed: bool,
    highlighted_color: Color,
    bottom_text: String,
    selected_sprite: u8,
    cursor_sprite: Sprite,
    draw_mode: DrawMode,
    save_requested: bool,
}

/// What the state of the editor is to the contracts.
pub struct EditorModel {
    pub mouse_x: i32,
    pub mouse_y: i32,
    pub mouse_pressed: bool,
    pub highlighted_color: Color,
    pub bottom_text: Seq<char>,
    pub selected_sprite: u8,
    pub cursor_sprite: Seq<Color>,
    pub draw_mode: DrawMode,
    /// Whether the sheet is to be written out. The editor only asks; whoever
    /// runs it does the writing.
    pub save_requested: bool,
}

/// The color of the palette under a point of the screen, if there is one.
pub open spec fn hovered_color(x: int, y: int) -> Option<Color> {
    if 80 <= x < 120 && 11 <= y < 51 {
        Some((((y - 11) / 10) * 4 + (x - 80) / 10) as u8)
    } else {
        None
    }
}

/// The sprite of the sheet under a point of the screen, if there is one.
pub open spec fn hovered_sprite(x: int, y: int) -> Option<u8> {
    if 0 <= x < 128 && 87 <= y < 119 {
        Some((x / 8 + ((y - 87) / 8) * 16) as u8)
    } else {
        None
    }
}

/// The rectangle in which the editor takes sprite `column + 16 * row` to be
/// under the mouse.
pub open spec fn sprite_cell(column: int, row: int) -> Rect {
    Rect { x: (column * 8) as i32, y: (87 + row * 8) as i32, width: 8, height: 8 }
}

/// A color is under a point exactly where its square of the palette has the
/// point.
pub proof fn lemma_hovered_color(color: Color, x: int, y: int)
    requires
        color < 16,
    ensures
        color_position_spec(color).has(x, y) <==> hovered_color(x, y) == Some(color),
{
}

/// A sprite is under a point exactly where its cell has the point.
pub proof fn lemma_hovered_sprite(column: int, row: int, x: int, y: int)
    requires
        0 <= column < 16,
        0 <= row < 4,
    ensures
        sprite_cell(column, row).has(x, y) <==> hovered_sprite(x, y) == Some(
            (column + row * 16) as u8,
        ),
{
}

/// `X:` and `Y:` with the coordinates of a cell.
pub open spec fn cell_text(x: int, y: int) -> Seq<char> {
    "X:"@ + decimal(x) + " Y:"@ + decimal(y)
}

/// `COLOUR` with the number of a color.
pub open spec fn color_text(color: Color) -> Seq<char> {
    "COLOUR "@ + decimal(color as int)
}

/// A sprite with a line drawn on it in `color` (modulo 16); what of the line
/// lies outside the sprite is dropped.
pub open spec fn sprite_with_line(
    sprite: Seq<Color>,
    x0: int,
    y0: int,
    x1: int,
    y1: int,
    color: Color,
) -> Seq<Color> {
    Seq::new(
        64,
        |k: int|
            if line_covers(x0, y0, x1, y1, k % 8, k / 8) {
                color % 16
            } else {
                sprite[k]
            },
    )
}

/// Editor and resources after the mouse is used on the canvas.
/// - With the pencil, the cell under the mouse is named in the bottom text,
///   and takes the highlighted color (modulo 16) while the mouse is down.
/// - With the line tool, a line begins where the mouse goes down and is drawn
///   on the sprite, from the cell where it began to the cell under the mouse,
///   when the mouse goes up. While it is down the cell under the mouse is
///   named in the bottom text.
pub open spec fn intent_spec(model: EditorModel, resources: ResourcesView) -> (
    EditorModel,
    ResourcesView,
) {
    let sheet = resources.sprite_sheet;
    let index = model.selected_sprite as int;
    let sprite = sprite_of(sheet, index);
    let cell = Canvas::lookup(model.mouse_x as int, model.mouse_y as int);
    let named = match cell {
        Some((x, y)) => EditorModel { bottom_text: cell_text(x, y), ..model },
        None => model,
    };
    match model.draw_mode {
        DrawMode::Pencil => match cell {
            Some((x, y)) => if model.mouse_pressed {
                (
                    named,
                    ResourcesView {
                        sprite_sheet: with_sprite(
                            sheet,
                            index,
                            sprite.update(x + y * 8, (model.highlighted_color % 16) as u8),
                        ),
                        ..resources
                    },
                )
            } else {
                (named, resources)
            },
            None => (model, resources),
        },
        DrawMode::Line(None) => if model.mouse_pressed {
            (
                EditorModel {
                    draw_mode: DrawMode::Line(
                        Some(LineState { start: (model.mouse_x, model.mouse_y) }),
                    ),
                    ..model
                },
                resources,
            )
        } else {
            (model, resources)
        },
        DrawMode::Line(Some(LineState { start })) => if !model.mouse_pressed {
            let from = Canvas::local(start.0 as int, start.1 as int);
            let to = Canvas::local(model.mouse_x as int, model.mouse_y as int);
            (
                EditorModel { draw_mode: DrawMode::Line(None), ..model },
                ResourcesView {
                    sprite_sheet: with_sprite(
                        sheet,
                        index,
                        sprite_with_line(
                            sprite,
                            from.0,
                            from.1,
                            to.0,
                            to.1,
                            model.highlighted_color,
                        ),
                    ),
                    ..resources
                },
            )
        } else {
            (named, resources)
        },
    }
}

/// The sheet after the selected sprite is shifted for every arrow that has
/// just gone down: down, up, left and right, in that order.
pub open spec fn shifted_sheet(sheet: Seq<Color>, index: int, state: InternalState) -> Seq<Color> {
    let down = if state.down.just_pressed() {
        with_sprite(sheet, index, rotated(sprite_of(sheet, index), 0, 7))
    } else {
        sheet
    };
    let up = if state.up.just_pressed() {
        with_sprite(down, index, rotated(sprite_of(down, index), 0, 1))
    } else {
        down
    };
    let left = if state.left.just_pressed() {
        with_sprite(up, index, rotated(sprite_of(up, index), 1, 0))
    } else {
        up
    };
    if state.right.just_pressed() {
        with_sprite(left, index, rotated(sprite_of(left, index), 7, 0))
    } else {
        left
    }
}

/// Editor and resources after a frame.
/// - The editor takes the position and the level of the mouse.
/// - Over the palette, the bottom text names the color under the mouse, the
///   color is highlighted if the mouse is down, and nothing else happens.
/// - Elsewhere: over the canvas the cursor is the target and the mouse draws
///   (see `intent_spec`); over the sheet the sprite under the mouse is
///   selected if the mouse is down; `X` just pressed asks for the sheet to be
///   written out; the arrows shift the selected sprite; and the bottom text
///   shows the cell under the mouse or, while a line is begun, its start.
pub open spec fn updated(model: EditorModel, resources: ResourcesView, state: InternalState) -> (
    EditorModel,
    ResourcesView,
) {
    let (x, y) = (state.mouse_x as int, state.mouse_y as int);
    let pressed = state.mouse_pressed.held();
    let base = EditorModel {
        mouse_x: state.mouse_x,
        mouse_y: state.mouse_y,
        mouse_pressed: pressed,
        bottom_text: Seq::empty(),
        cursor_sprite: MOUSE_SPRITE@,
        ..model
    };
    match hovered_color(x, y) {
        Some(color) => (
            EditorModel {
                bottom_text: color_text(color),
                highlighted_color: if pressed {
                    color
                } else {
                    model.highlighted_color
                },
                ..base
            },
            resources,
        ),
        None => {
            let drawn = if (Rect { x: 8, y: 10, width: 66, height: 66 }).has(x, y) {
                intent_spec(EditorModel { cursor_sprite: MOUSE_TARGET_SPRITE@, ..base }, resources)
            } else {
                (base, resources)
            };
            let selected = match hovered_sprite(x, y) {
                Some(sprite) => if pressed {
                    sprite
                } else {
                    model.selected_sprite
                },
                None => model.selected_sprite,
            };
            let text = position_text_spec(drawn.0.draw_mode, x, y);
            (
                EditorModel {
                    selected_sprite: selected,
                    save_requested: model.save_requested || state.x.just_pressed(),
                    bottom_text: text,
                    ..drawn.0
                },
                ResourcesView {
                    sprite_sheet: shifted_sheet(drawn.1.sprite_sheet, selected as int, state),
                    ..drawn.1
                },
            )
        },
    }
}

impl SpriteEditor {
    /// The text at the bottom of the screen.
    pub fn bottom_text(&self) -> (t: &String)
        ensures
            t@ == self.model().bottom_text,
    {
        &self.bottom_text
    }

    /// The sprite that is being edited.
    pub fn selected(&self) -> (s: u8)
        ensures
            s == self.model().selected_sprite,
    {
        self.selected_sprite
    }

    /// The color with which the mouse draws.
    pub fn highlighted_color(&self) -> (c: Color)
        ensures
            c == self.model().highlighted_color,
    {
        self.highlighted_color
    }

    /// How the mouse draws.
    pub fn draw_mode(&self) -> (m: DrawMode)
        ensures
            m == self.model().draw_mode,
    {
        self.draw_mode
    }

    /// Chooses how the mouse draws.
    pub fn set_draw_mode(&mut self, draw_mode: DrawMode)
        requires
            old(self).wf(),
        ensures
            final(self).wf(),
            final(self).model() == (EditorModel { draw_mode, ..old(self).model() }),
    {
        self.draw_mode = draw_mode;
    }

    /// Whether the sheet is to be written out; the request is taken back.
    pub fn take_save_request(&mut self) -> (asked: bool)
        requires
            old(self).wf(),
        ensures
            final(self).wf(),
            asked == old(self).model().save_requested,
            final(self).model() == (EditorModel { save_requested: false, ..old(self).model() }),
    {
        let asked = self.save_requested;
        self.save_requested = false;
        asked
    }

    /// A copy of the editor as it is now.
    pub fn snapshot(&self) -> (copy: SpriteEditor)
        requires
            self.wf(),
        ensures
            copy.wf(),
            copy.model() == self.model(),
    {
        SpriteEditor {
            mouse_x: self.mouse_x,
            mouse_y: self.mouse_y,
            mouse_pressed: self.mouse_pressed,
            highlighted_color: self.highlighted_color,
            bottom_text: self.bottom_text.clone(),
            selected_sprite: self.selected_sprite,
            cursor_sprite: self.cursor_sprite.copy(),
            draw_mode: self.draw_mode,
            save_requested: self.save_requested,
        }
    }

    /// A copy of the sprite that is being edited.
    pub fn selected_sprite(&self, resources: &Resources) -> (sprite: Sprite)
        requires
            resources.wf(),
        ensures
            sprite.wf(),
            sprite@ == sprite_of(resources.sprite_sheet@, self.model().selected_sprite as int),
    {
        resources.sprite_sheet.get_sprite(self.selected_sprite as usize)
    }

    /// `X:` and `Y:` with the coordinates of a cell.
    fn cell_text(x: i32, y: i32) -> (text: String)
        ensures
            text@ == cell_text(x as int, y as int),
    {
        let mut text = String::from_str("X:");
        push_decimal(&mut text, x);
        text.append(" Y:");
        push_decimal(&mut text, y);
        assert(text@ =~= cell_text(x as int, y as int));
        text
    }

    /// Uses the mouse on the canvas.
    pub fn handle_draw_intent(&mut self, resources: &mut Resources)
        requires
            old(self).wf(),
            old(resources).wf(),
        ensures
            final(self).wf(),
            final(resources).wf(),
            (final(self).model(), final(resources)@) == intent_spec(
                old(self).model(),
                old(resources)@,
            ),
    {
        let index = self.selected_sprite as usize;
        let mut sprite = resources.sprite_sheet.get_sprite(index);
        let ghost before = sprite@;

        match self.draw_mode {
            DrawMode::Pencil => {
                if let Some((x, y)) = Canvas::try_lookup(self.mouse_x, self.mouse_y) {
                    self.bottom_text = Self::cell_text(x, y);

                    if self.mouse_pressed {
                        sprite.pset(x as isize, y as isize, self.highlighted_color);
                        resources.sprite_sheet.set_sprite(index, &sprite);
                    }
                }
            },
            DrawMode::Line(None) => {
                if self.mouse_pressed {
                    self.draw_mode = DrawMode::Line(
                        Some(LineState { start: (self.mouse_x, self.mouse_y) }),
                    );
                }
            },
            DrawMode::Line(Some(LineState { start })) => {
                if !self.mouse_pressed {
                    // Draw the line when the mouse is released
                    let (start_x, start_y) = Canvas::to_local(start.0, start.1);
                    let (end_x, end_y) = Canvas::to_local(self.mouse_x, self.mouse_y);
                    let color = self.highlighted_color;
                    let ghost (x0, y0, x1, y1) = (
                        start_x as int,
                        start_y as int,
                        end_x as int,
                        end_y as int,
                    );

                    let ghost steps = line_steps(x0, y0, x1, y1);
                    let mut walk = LineIter::new(start_x, start_y, end_x, end_y);
                    proof {
                        assert forall|k: int| 0 <= k < 64 implies !line_on_sprite_before(
                            x0,
                            y0,
                            x1,
                            y1,
                            0,
                            k,
                        ) by {
                            lemma_line_on_sprite_step(x0, y0, x1, y1, 0, k);
                        }
                    }
                    loop
                        invariant
                            walk.wf(),
                            walk.ends() == (x0, y0, x1, y1),
                            steps == line_steps(x0, y0, x1, y1),
                            0 <= walk.given() <= steps + 1,
                            sprite.wf(),
                            before.len() == 64,
                            forall|k: int|
                                0 <= k < 64 ==> #[trigger] sprite@[k] == if line_on_sprite_before(
                                    x0,
                                    y0,
                                    x1,
                                    y1,
                                    walk.given(),
                                    k,
                                ) {
                                    (color % 16) as u8
                                } else {
                                    before[k]
                                },
                        ensures
                            walk.given() == steps + 1,
                        decreases steps + 1 - walk.given(),
                    {
                        let ghost i = walk.given();
                        let (x, y) = match walk.next() {
                            Some(point) => point,
                            None => {
                                break ;
                            },
                        };
                        let ghost prev = sprite@;
                        sprite.pset(x as isize, y as isize, color);
                        proof {
                            assert forall|k: int| 0 <= k < 64 implies #[trigger] sprite@[k]
                                == if line_on_sprite_before(x0, y0, x1, y1, i + 1, k) {
                                (color % 16) as u8
                            } else {
                                before[k]
                            } by {
                                lemma_line_on_sprite_step(x0, y0, x1, y1, i, k);
                                assert(prev[k] == if line_on_sprite_before(x0, y0, x1, y1, i, k) {
                                    (color % 16) as u8
                                } else {
                                    before[k]
                                });
                            }
                        }
                    }
                    proof {
                        assert forall|k: int| 0 <= k < 64 implies sprite@[k] == sprite_with_line(
                            before,
                            x0,
                            y0,
                            x1,
                            y1,
                            color,
                        )[k] by {
                            lemma_line_on_sprite_step(x0, y0, x1, y1, 0, k);
                        }
                        assert(sprite@ =~= sprite_with_line(before, x0, y0, x1, y1, color));
                    }
                    resources.sprite_sheet.set_sprite(index, &sprite);

                    self.draw_mode = DrawMode::Line(None);
                } else {
                    if let Some((x, y)) = Canvas::try_lookup(self.mouse_x, self.mouse_y) {
                        self.bottom_text = Self::cell_text(x, y);
                    };
                }
            },
        }
    }
}

/// Whether one of the first `n` points of a line is pixel `k` of a sprite.
pub open spec fn line_on_sprite_before(x0: int, y0: int, x1: int, y1: int, n: int, k: int) -> bool {
    exists|i: int| 0 <= i < n && #[trigger] line_point(x0, y0, x1, y1, i) == (k % 8, k / 8)
}

proof fn lemma_line_on_sprite_step(x0: int, y0: int, x1: int, y1: int, n: int, k: int)
    requires
        0 <= n,
        0 <= k < 64,
    ensures
        line_on_sprite_before(x0, y0, x1, y1, n + 1, k) == (line_on_sprite_before(
            x0,
            y0,
            x1,
            y1,
            n,
            k,
        ) || line_point(x0, y0, x1, y1, n) == (k % 8, k / 8)),
        !line_on_sprite_before(x0, y0, x1, y1, 0, k),
        line_on_sprite_before(x0, y0, x1, y1, line_steps(x0, y0, x1, y1) + 1, k) == line_covers(
            x0,
            y0,
            x1,
            y1,
            k % 8,
            k / 8,
        ),
{
    let p = (k % 8, k / 8);
    if line_on_sprite_before(x0, y0, x1, y1, n + 1, k) {
        let i = choose|i: int| 0 <= i < n + 1 && #[trigger] line_point(x0, y0, x1, y1, i) == p;
        if i < n {
            assert(line_on_sprite_before(x0, y0, x1, y1, n, k));
        }
    }
    if line_on_sprite_before(x0, y0, x1, y1, n, k) {
        let i = choose|i: int| 0 <= i < n && #[trigger] line_point(x0, y0, x1, y1, i) == p;
        assert(0 <= i < n + 1);
    }
    let steps = line_steps(x0, y0, x1, y1);
    if line_on_sprite_before(x0, y0, x1, y1, steps + 1, k) {
        let i = choose|i: int| 0 <= i < steps + 1 && #[trigger] line_point(x0, y0, x1, y1, i) == p;
        assert(0 <= i <= steps);
    }
    if line_covers(x0, y0, x1, y1, k % 8, k / 8) {
        let i = choose|i: int| 0 <= i <= steps && #[trigger] line_point(x0, y0, x1, y1, i) == p;
        assert(0 <= i < steps + 1);
    }
}

/// The color of the palette under a point of the screen, if there is one.
pub fn hovered_color_at(x: i32, y: i32) -> (found: Option<Color>)
    ensures
        found == hovered_color(x as int, y as int),
{
    let ghost hovered = hovered_color(x as int, y as int);
    let mut found: Option<Color> = None;
    let mut color: u8 = 0;
    while color < 16
        invariant
            color <= 16,
            hovered == hovered_color(x as int, y as int),
            found == if hovered is Some && hovered.unwrap() < color {
                hovered
            } else {
                None
            },
        decreases 16 - color,
    {
        proof {
            lemma_hovered_color(color, x as int, y as int);
        }
        if color_position(color).contains(x, y) {
            found = Some(color);
        }
        color += 1;
    }
    found
}

/// The sprite of the sheet under a point of the screen, if there is one.
pub fn hovered_sprite_at(x: i32, y: i32) -> (found: Option<u8>)
    ensures
        found == hovered_sprite(x as int, y as int),
{
    let ghost hovered = hovered_sprite(x as int, y as int);
    let mut found: Option<u8> = None;
    if sprite_sheet_area().contains(x, y) {
        let mut column: u8 = 0;
        while column < SPRITES_PER_ROW
            invariant
                column <= 16,
                hovered == hovered_sprite(x as int, y as int),
                found == if hovered is Some && hovered.unwrap() % 16 < column {
                    hovered
                } else {
                    None
                },
            decreases 16 - column,
        {
            let mut row: u8 = 0;
            while row < SPRITE_ROWS
                invariant
                    row <= 4,
                    column < 16,
                    hovered == hovered_sprite(x as int, y as int),
                    found == if hovered is Some && (hovered.unwrap() % 16 < column || (
                    hovered.unwrap() % 16 == column && hovered.unwrap() / 16 < row)) {
                        hovered
                    } else {
                        None
                    },
                decreases 4 - row,
            {
                let sprite_area = Rect {
                    x: column as i32 * 8,
                    y: sprite_sheet_area().y + row as i32 * 8,
                    width: 8,
                    height: 8,
                };
                proof {
                    lemma_hovered_sprite(column as int, row as int, x as int, y as int);
                    assert(sprite_area == sprite_cell(column as int, row as int));
                }

                if sprite_area.contains(x, y) {
                    found = Some(column + row * SPRITES_PER_ROW);
                }
                row += 1;
            }
            column += 1;
        }
    }
    found
}

/// Shifts sprite `index` for every arrow that has just gone down.
fn shift_selected(resources: &mut Resources, index: u8, state: &InternalState)
    requires
        old(resources).wf(),
    ensures
        final(resources).wf(),
        final(resources)@ == (ResourcesView {
            sprite_sheet: shifted_sheet(old(resources)@.sprite_sheet, index as int, *state),
            ..old(resources)@
        }),
{
    let index = index as usize;
    if state.btnp(Button::Down) {
        let mut sprite = resources.sprite_sheet.get_sprite(index);
        sprite.shift_down();
        resources.sprite_sheet.set_sprite(index, &sprite);
    }

    if state.btnp(Button::Up) {
        let mut sprite = resources.sprite_sheet.get_sprite(index);
        sprite.shift_up();
        resources.sprite_sheet.set_sprite(index, &sprite);
    }

    if state.btnp(Button::Left) {
        let mut sprite = resources.sprite_sheet.get_sprite(index);
        sprite.shift_left();
        resources.sprite_sheet.set_sprite(index, &sprite);
    }

    if state.btnp(Button::Right) {
        let mut sprite = resources.sprite_sheet.get_sprite(index);
        sprite.shift_right();
        resources.sprite_sheet.set_sprite(index, &sprite);
    }
}

/// What the bottom text shows away from the palette: where a line was
/// begun, and else the cell under the mouse.
pub open spec fn position_text_spec(draw_mode: DrawMode, x: int, y: int) -> Seq<char> {
    match draw_mode {
        DrawMode::Line(Some(LineState { start })) => pair_text(start.0 as int, start.1 as int),
        _ => {
            let cell = Canvas::local(x, y);
            pair_text(cell.0, cell.1)
        },
    }
}

fn position_text(draw_mode: DrawMode, x: i32, y: i32) -> (text: String)
    ensures
        text@ == position_text_spec(draw_mode, x as int, y as int),
{
    let (local_x, local_y) = Canvas::to_local(x, y);
    let mut text = String::new();
    push_pair(&mut text, local_x, local_y);

    if let DrawMode::Line(Some(LineState { start })) = draw_mode {
        text = String::new();
        push_pair(&mut text, start.0, start.1);
    }
    text
}

impl AppCompat for SpriteEditor {
    type Msg = EditorMsg;

    type Leaf = SpriteEditor;

    type Model = EditorModel;

    closed spec fn model(&self) -> EditorModel {
        EditorModel {
            mouse_x: self.mouse_x,
            mouse_y: self.mouse_y,
            mouse_pressed: self.mouse_pressed,
            highlighted_color: self.highlighted_color,
            bottom_text: self.bottom_text@,
            selected_sprite: self.selected_sprite,
            cursor_sprite: self.cursor_sprite@,
            draw_mode: self.draw_mode,
            save_requested: self.save_requested,
        }
    }

    closed spec fn wf(&self) -> bool {
        self.cursor_sprite.wf()
    }

    open spec fn view_regions(
        model: EditorModel,
        resources: ResourcesView,
        state: InternalState,
    ) -> crate::ui::Regions<EditorMsg> {
        Seq::empty()
    }

    open spec fn view_picture(
        model: EditorModel,
        resources: ResourcesView,
        state: InternalState,
        picture: Picture,
        drawn_resources: ResourcesView,
        drawn_state: InternalState,
    ) -> Picture {
        Picture {
            screen: editor_drawn(model, drawn_resources.sprite_sheet),
            transparent: picture.transparent,
        }
    }

    open spec fn update_spec(
        model: EditorModel,
        msg: EditorMsg,
        resources: ResourcesView,
        state: InternalState,
    ) -> (EditorModel, ResourcesView, InternalState) {
        let after = updated(model, resources, state);
        (after.0, after.1, state)
    }

    open spec fn subscriptions_spec(model: EditorModel, event: Event) -> Option<EditorMsg> {
        match event {
            Event::Tick { .. } => Some(EditorMsg::Tick),
            _ => None,
        }
    }

    /// The editor at start: the mouse in the middle of the screen, white
    /// highlighted, sprite 0 selected, the line tool chosen.
    fn init(resources: &Resources, state: &InternalState) -> (app: Self)
        ensures
            app.model() == (EditorModel {
                mouse_x: 64,
                mouse_y: 64,
                mouse_pressed: false,
                highlighted_color: 7,
                bottom_text: Seq::empty(),
                selected_sprite: 0,
                cursor_sprite: MOUSE_SPRITE@,
                draw_mode: DrawMode::Line(None),
                save_requested: false,
            }),
    {
        proof {
            lemma_cursors_are_colors();
        }
        Self {
            mouse_x: 64,
            mouse_y: 64,
            mouse_pressed: false,
            highlighted_color: 7,
            bottom_text: String::new(),
            selected_sprite: 0,
            cursor_sprite: Sprite::from_array(&MOUSE_SPRITE),
            draw_mode: DrawMode::Line(None),
            save_requested: false,
        }
    }

    /// The view of the editor: one leaf, the editor as it is now. No region
    /// answers to the mouse.
    fn view(&self, resources: &Resources, state: &InternalState) -> (view: Element<
        EditorMsg,
        SpriteEditor,
    >)
        ensures
            view matches Element::Draw(leaf) && leaf.model() == self.model(),
    {
        let view = Element::Draw(self.snapshot());
        assert(view.wf());
        view
    }

    fn update(&mut self, msg: &EditorMsg, resources: &mut Resources, state: &mut InternalState) {
        proof {
            lemma_cursors_are_colors();
        }
        self.mouse_x = state.mouse_x;
        self.mouse_y = state.mouse_y;
        self.mouse_pressed = state.btn(Button::Mouse);
        self.bottom_text = String::new();
        self.cursor_sprite = Sprite::from_array(&MOUSE_SPRITE);
        let (x, y) = (self.mouse_x, self.mouse_y);

        // Handle mouse over color palette
        if let Some(color) = hovered_color_at(x, y) {
            let mut text = String::from_str("COLOUR ");
            push_decimal(&mut text, color as i32);
            self.bottom_text = text;
            if self.mouse_pressed {
                self.highlighted_color = color;
            }
            return ;
        }

        // Handle mouse over canvas
        if Canvas::position().contains(x, y) {
            self.cursor_sprite = Sprite::from_array(&MOUSE_TARGET_SPRITE);

            self.handle_draw_intent(resources);
        }

        // Handle mouse over sprite sheet
        if let Some(sprite) = hovered_sprite_at(x, y) {
            if self.mouse_pressed {
                self.selected_sprite = sprite;
            }
        }

        if state.btnp(Button::X) {
            self.save_requested = true;
        }

        shift_selected(resources, self.selected_sprite, state);

        self.bottom_text = position_text(self.draw_mode, x, y);
    }

    fn subscriptions(&self, event: &Event) -> (msg: Option<EditorMsg>) {
        match event {
            Event::Tick { .. } => Some(EditorMsg::Tick),
            _ => None,
        }
    }
}

/// The screen after the first `n` cells of the canvas are drawn, column by
/// column: each cell is filled with the color of its pixel of the sprite.
pub open spec fn canvas_drawn(screen: Seq<Color>, sprite: Seq<Color>, n: nat) -> Seq<Color>
    decreases n,
{
    if n == 0 {
        screen
    } else {
        let k = n - 1;
        Canvas::pixel_rect_spec(k / 8, k % 8).fill_spec(
            canvas_drawn(screen, sprite, k as nat),
            sprite[(k % 8) * 8 + k / 8],
        )
    }
}

/// The screen after the two tool icons are drawn: sprites 14 and 31 for the
/// pencil, 15 and 30 for the line tool, with color 0 transparent.
pub open spec fn tools_drawn(screen: Seq<Color>, sheet: Seq<Color>, mode: DrawMode) -> Seq<Color> {
    let (first, second) = match mode {
        DrawMode::Pencil => (14int, 31int),
        DrawMode::Line(_) => (15int, 30int),
    };
    blit_spec(
        blit_spec(screen, sprite_of(sheet, first), 12, 78, Some(0u8)),
        sprite_of(sheet, second),
        22,
        78,
        Some(0u8),
    )
}

/// Where an icon is not color 0 the screen has the icon's color as it is;
/// everywhere else, in the two blocks and outside them, the screen is as it
/// was.
pub proof fn lemma_tools_drawn(
    screen: Seq<Color>,
    sheet: Seq<Color>,
    mode: DrawMode,
    px: int,
    py: int,
)
    requires
        0 <= px < 128,
        0 <= py < 128,
    ensures
        ({
            let (first, second) = match mode {
                DrawMode::Pencil => (sprite_of(sheet, 14), sprite_of(sheet, 31)),
                DrawMode::Line(_) => (sprite_of(sheet, 15), sprite_of(sheet, 30)),
            };
            let at = crate::runtime::draw_context::pixel(tools_drawn(screen, sheet, mode), px, py);
            let k = (py - 78) * 8;
            if 12 <= px < 20 && 78 <= py < 86 && first[k + (px - 12)] != 0 {
                at == first[k + (px - 12)]
            } else if 22 <= px < 30 && 78 <= py < 86 && second[k + (px - 22)] != 0 {
                at == second[k + (px - 22)]
            } else {
                at == crate::runtime::draw_context::pixel(screen, px, py)
            }
        }),
{
    let (i, j) = match mode {
        DrawMode::Pencil => (14int, 31int),
        DrawMode::Line(_) => (15int, 30int),
    };
    let between = blit_spec(screen, sprite_of(sheet, i), 12, 78, Some(0u8));
    crate::runtime::draw_context::lemma_blit_pixel(
        screen,
        sprite_of(sheet, i),
        12,
        78,
        Some(0u8),
        px,
        py,
    );
    crate::runtime::draw_context::lemma_blit_pixel(
        between,
        sprite_of(sheet, j),
        22,
        78,
        Some(0u8),
        px,
        py,
    );
}

/// The screen after the cells of the first `n` points of a line are filled.
pub open spec fn preview_drawn(
    screen: Seq<Color>,
    x0: int,
    y0: int,
    x1: int,
    y1: int,
    color: Color,
    n: nat,
) -> Seq<Color>
    decreases n,
{
    if n == 0 {
        screen
    } else {
        let p = line_point(x0, y0, x1, y1, n - 1);
        Canvas::pixel_rect_spec(p.0, p.1).fill_spec(
            preview_drawn(screen, x0, y0, x1, y1, color, (n - 1) as nat),
            color,
        )
    }
}

/// The screen after the first `n` sprites of the sheet are drawn, sixteen to
/// a row, below `y_start`.
pub open spec fn sheet_rows_drawn(
    screen: Seq<Color>,
    sheet: Seq<Color>,
    y_start: int,
    transparent: Option<Color>,
    n: nat,
) -> Seq<Color>
    decreases n,
{
    if n == 0 {
        screen
    } else {
        let k = n - 1;
        blit_spec(
            sheet_rows_drawn(screen, sheet, y_start, transparent, k as nat),
            sprite_of(sheet, k),
            (k % 16) * 8,
            y_start + 1 + (k / 16) * 8,
            transparent,
        )
    }
}

/// The screen after the sheet is shown at `y_start`: a line above, the first
/// 64 sprites, a line below, and a frame around the selected sprite.
pub open spec fn sprite_sheet_drawn(
    screen: Seq<Color>,
    sheet: Seq<Color>,
    y_start: int,
    selected: u8,
    transparent: Option<Color>,
) -> Seq<Color> {
    let above = line_spec(screen, 0, y_start, 128, y_start, 0);
    let sprites = sheet_rows_drawn(above, sheet, y_start, transparent, 64);
    let below = line_spec(sprites, 0, y_start + 33, 128, y_start + 33, 0);
    (Rect {
        x: ((selected % 16) * 8) as i32,
        y: (y_start + 1 + (selected / 16) * 8) as i32,
        width: 8,
        height: 8,
    }).highlight_spec(below, false, 7)
}

/// The screen after the first `n` colors of the palette are drawn.
pub open spec fn palette_drawn(screen: Seq<Color>, n: nat) -> Seq<Color>
    decreases n,
{
    if n == 0 {
        screen
    } else {
        let color = (n - 1) as u8;
        color_position_spec(color).fill_spec(palette_drawn(screen, (n - 1) as nat), color)
    }
}

/// The screen after the canvas is drawn: its background, and every cell in
/// the color of its pixel of the sprite.
pub open spec fn canvas_layer(screen: Seq<Color>, sprite: Seq<Color>) -> Seq<Color> {
    canvas_drawn((Rect { x: 8, y: 10, width: 66, height: 66 }).fill_spec(screen, 0), sprite, 64)
}

/// The screen after the line that is being drawn is shown on the canvas, if
/// there is one: from the cell where it began to the cell under the mouse.
pub open spec fn preview_layer(screen: Seq<Color>, model: EditorModel) -> Seq<Color> {
    match model.draw_mode {
        DrawMode::Line(Some(LineState { start })) => {
            let from = Canvas::local(start.0 as int, start.1 as int);
            let to = Canvas::local(model.mouse_x as int, model.mouse_y as int);
            preview_drawn(
                screen,
                from.0,
                from.1,
                to.0,
                to.1,
                model.highlighted_color,
                (line_steps(from.0, from.1, to.0, to.1) + 1) as nat,
            )
        },
        _ => screen,
    }
}

/// The screen after the selected sprite is drawn in its own size, every
/// color opaque, with its number in three digits beside it.
pub open spec fn thumbnail_layer(screen: Seq<Color>, sprite: Seq<Color>, selected: u8) -> Seq<Color> {
    let thumbnail = blit_spec(
        (Rect { x: 71, y: 78, width: 8, height: 8 }).fill_spec(screen, 9),
        sprite,
        71,
        78,
        None,
    );
    print_spec(
        (Rect { x: 80, y: 79, width: 13, height: 7 }).fill_spec(thumbnail, 6),
        padded3(selected as int),
        81,
        80,
        13,
    )
}

/// The screen after the palette is drawn, with the highlighted color
/// framed.
pub open spec fn palette_layer(screen: Seq<Color>, highlighted: Color) -> Seq<Color> {
    color_position_spec(highlighted).highlight_spec(
        palette_drawn(rectfill_spec(screen, 79, 10, 120, 51, 0), 16),
        true,
        7,
    )
}

/// The screen of the editor, from back to front: the background with its two
/// bars; the canvas with the selected sprite; the tool icons; the line that
/// is being drawn, if any; the selected sprite in its own size, with its
/// number; the sheet; the palette with the highlighted color framed; the
/// bottom text; the cursor.
pub open spec fn editor_drawn(model: EditorModel, sheet: Seq<Color>) -> Seq<Color> {
    let sprite = sprite_of(sheet, model.selected_sprite as int);
    let background = rectfill_spec(
        rectfill_spec(rectfill_spec(blank_screen(), 0, 0, 127, 127, 5), 0, 0, 127, 7, 8),
        0,
        121,
        127,
        127,
        8,
    );
    let canvas = canvas_layer(background, sprite);
    let tools = tools_drawn(canvas, sheet, model.draw_mode);
    let preview = preview_layer(tools, model);
    let number = thumbnail_layer(preview, sprite, model.selected_sprite);
    let sheet_shown = sprite_sheet_drawn(
        (Rect { x: 0, y: 87, width: 128, height: 34 }).fill_spec(number, 2),
        sheet,
        87,
        model.selected_sprite,
        None,
    );
    let palette = palette_layer(sheet_shown, model.highlighted_color);
    let text = print_spec(palette, model.bottom_text, 1, 122, 2);
    blit_spec(
        text,
        model.cursor_sprite,
        clamped(model.mouse_x - 3),
        clamped(model.mouse_y - 2),
        Some(0u8),
    )
}

impl SpriteEditor {
    /// Draws the canvas with the selected sprite.
    fn draw_canvas(&self, draw_context: &mut DrawContext)
        requires
            old(draw_context).wf(),
        ensures
            old(draw_context).drew(
                final(draw_context),
                canvas_layer(
                    old(draw_context).screen(),
                    sprite_of(
                        old(draw_context).resources().sprite_sheet@,
                        self.model().selected_sprite as int,
                    ),
                ),
            ),
    {
        // draw canvas
        Canvas::position().fill(draw_context, 0);
        let ghost canvas_empty = draw_context.screen();

        let sprite = self.selected_sprite(draw_context.get_resources());
        let mut x: i32 = 0;
        while x < 8
            invariant
                0 <= x <= 8,
                sprite.wf(),
                old(draw_context).drew(
                    draw_context,
                    canvas_drawn(canvas_empty, sprite@, (x * 8) as nat),
                ),
            decreases 8 - x,
        {
            let mut y: i32 = 0;
            while y < 8
                invariant
                    0 <= y <= 8,
                    0 <= x < 8,
                    sprite.wf(),
                    old(draw_context).drew(
                        draw_context,
                        canvas_drawn(canvas_empty, sprite@, (x * 8 + y) as nat),
                    ),
                decreases 8 - y,
            {
                let color = sprite.pget(x as isize, y as isize);

                Canvas::pixel_rect(x, y).fill(draw_context, color);
                y += 1;
            }
            x += 1;
        }
    }

    /// Shows the line that is being drawn, if there is one.
    fn draw_line_preview(&self, draw_context: &mut DrawContext)
        requires
            old(draw_context).wf(),
        ensures
            old(draw_context).drew(
                final(draw_context),
                preview_layer(old(draw_context).screen(), self.model()),
            ),
    {
        match &self.draw_mode {
            DrawMode::Pencil => {},
            DrawMode::Line(None) => {},
            DrawMode::Line(Some(line_state)) => {
                let start = line_state.start;

                let (start_x, start_y) = Canvas::to_local(start.0, start.1);
                let (end_x, end_y) = Canvas::to_local(self.mouse_x, self.mouse_y);
                let color = self.highlighted_color;
                let ghost before = draw_context.screen();

                let ghost (x0, y0, x1, y1) = (
                    start_x as int,
                    start_y as int,
                    end_x as int,
                    end_y as int,
                );
                let ghost steps = line_steps(x0, y0, x1, y1);
                let mut walk = LineIter::new(start_x, start_y, end_x, end_y);
                loop
                    invariant
                        walk.wf(),
                        walk.ends() == (x0, y0, x1, y1),
                        steps == line_steps(x0, y0, x1, y1),
                        0 <= walk.given() <= steps + 1,
                        old(draw_context).drew(
                            draw_context,
                            preview_drawn(before, x0, y0, x1, y1, color, walk.given() as nat),
                        ),
                    ensures
                        walk.given() == steps + 1,
                    decreases steps + 1 - walk.given(),
                {
                    let (x, y) = match walk.next() {
                        Some(point) => point,
                        None => {
                            break ;
                        },
                    };
                    Canvas::pixel_rect(x, y).fill(draw_context, color);
                }
            },
        }
    }

    /// Draws the selected sprite in its own size, every color opaque, with
    /// its number, and puts back the transparent color that was chosen
    /// before.
    fn draw_thumbnail(&self, draw_context: &mut DrawContext)
        requires
            old(draw_context).wf(),
        ensures
            old(draw_context).drew(
                final(draw_context),
                thumbnail_layer(
                    old(draw_context).screen(),
                    sprite_of(
                        old(draw_context).resources().sprite_sheet@,
                        self.model().selected_sprite as int,
                    ),
                    self.model().selected_sprite,
                ),
            ),
    {
        let thumbnail_area = Rect {
            x: Canvas::position().right() - 2,
            y: Canvas::position().bottom() + 3,
            width: 8,
            height: 8,
        };

        thumbnail_area.fill(draw_context, 9);
        let former = draw_context.transparency();
        draw_context.palt(None);
        draw_context.spr(self.selected_sprite as usize, thumbnail_area.x, thumbnail_area.y);
        draw_context.palt(former);

        Rect { x: thumbnail_area.right() + 2, y: thumbnail_area.y + 1, width: 13, height: 7 }.fill(
            draw_context,
            6,
        );
        let mut selected_sprite_str = String::new();
        push_padded3(&mut selected_sprite_str, self.selected_sprite);
        assert(selected_sprite_str@ =~= padded3(self.selected_sprite as int));
        draw_context.print(
            selected_sprite_str.as_str(),
            thumbnail_area.right() + 3,
            thumbnail_area.y + 2,
            13,
        );
    }

    /// Draws the palette and frames the highlighted color.
    fn draw_palette(&self, draw_context: &mut DrawContext)
        requires
            old(draw_context).wf(),
        ensures
            old(draw_context).drew(
                final(draw_context),
                palette_layer(old(draw_context).screen(), self.model().highlighted_color),
            ),
    {
        // Draw color palette
        draw_context.rectfill(
            CANVAS_X,
            CANVAS_Y,
            CANVAS_X + BOX_SIZE - 1,
            CANVAS_Y + BOX_SIZE - 1,
            0,
        );
        let ghost palette_empty = draw_context.screen();

        let mut color: u8 = 0;
        while color < 16
            invariant
                color <= 16,
                old(draw_context).drew(draw_context, palette_drawn(palette_empty, color as nat)),
            decreases 16 - color,
        {
            let Rect { x, y, width, height } = color_position(color);

            draw_context.rectfill(x, y, x + width - 1, y + height - 1, color);
            color += 1;
        }

        color_position(self.highlighted_color).highlight(draw_context, true, 7);
    }

    /// Draws the icons of the two tools with color 0 transparent, and puts
    /// back the transparent color that was chosen before.
    fn draw_tools(&self, draw_context: &mut DrawContext)
        requires
            old(draw_context).wf(),
        ensures
            old(draw_context).drew(
                final(draw_context),
                tools_drawn(
                    old(draw_context).screen(),
                    old(draw_context).resources().sprite_sheet@,
                    self.model().draw_mode,
                ),
            ),
    {
        let former = draw_context.transparency();
        draw_context.palt(Some(0));

        match &self.draw_mode {
            DrawMode::Pencil => {
                draw_context.spr(14, 12, 78);
                draw_context.spr(31, 22, 78);
            },
            DrawMode::Line(_) => {
                draw_context.spr(15, 12, 78);
                draw_context.spr(30, 22, 78);
            },
        }
        draw_context.palt(former);
    }

    /// Shows the sheet at `y_start`.
    fn draw_sprite_sheet(&self, y_start: i32, draw_context: &mut DrawContext)
        requires
            old(draw_context).wf(),
            y_start + 33 <= i32::MAX,
            y_start + 1 + (self.model().selected_sprite / 16) * 8 <= i32::MAX,
        ensures
            old(draw_context).drew(
                final(draw_context),
                sprite_sheet_drawn(
                    old(draw_context).screen(),
                    old(draw_context).resources().sprite_sheet@,
                    y_start as int,
                    self.model().selected_sprite,
                    old(draw_context).transparent(),
                ),
            ),
    {
        let border: i32 = 1;
        let height: i32 = 32;

        draw_context.line(0, y_start, 128, y_start, 0);
        let ghost above = draw_context.screen();
        let ghost sheet = draw_context.resources().sprite_sheet@;
        let ghost transparent = draw_context.transparent();

        let mut sprite_y: usize = 0;
        while sprite_y < 4
            invariant
                sprite_y <= 4,
                y_start + 33 <= i32::MAX,
                border == 1,
                old(draw_context).drew(
                    draw_context,
                    sheet_rows_drawn(
                        above,
                        sheet,
                        y_start as int,
                        transparent,
                        (sprite_y * 16) as nat,
                    ),
                ),
                sheet == old(draw_context).resources().sprite_sheet@,
                transparent == old(draw_context).transparent(),
            decreases 4 - sprite_y,
        {
            let mut sprite_x: usize = 0;
            while sprite_x < 16
                invariant
                    sprite_x <= 16,
                    sprite_y < 4,
                    y_start + 33 <= i32::MAX,
                    border == 1,
                    old(draw_context).drew(
                        draw_context,
                        sheet_rows_drawn(
                            above,
                            sheet,
                            y_start as int,
                            transparent,
                            (sprite_y * 16 + sprite_x) as nat,
                        ),
                    ),
                    sheet == old(draw_context).resources().sprite_sheet@,
                    transparent == old(draw_context).transparent(),
                decreases 16 - sprite_x,
            {
                let sprite_index = sprite_x + sprite_y * 16;

                draw_context.spr(
                    sprite_index,
                    (sprite_x * 8) as i32,
                    y_start + border + (sprite_y * 8) as i32,
                );
                sprite_x += 1;
            }
            sprite_y += 1;
        }
        draw_context.line(0, y_start + height + border, 128, y_start + height + border, 0);

        // Draw highlight of selected sprite
        let selected_sprite_x = self.selected_sprite % SPRITES_PER_ROW;
        let selected_sprite_y = self.selected_sprite / SPRITES_PER_ROW;

        Rect {
            x: selected_sprite_x as i32 * 8,
            y: y_start + border + (selected_sprite_y as usize * 8) as i32,
            width: 8,
            height: 8,
        }.highlight(draw_context, false, 7);
    }
}

impl Paint for SpriteEditor {
    open spec fn paintable(&self) -> bool {
        AppCompat::wf(self)
    }

    open spec fn paint(
        &self,
        picture: Picture,
        resources: ResourcesView,
        state: InternalState,
    ) -> Picture {
        Picture {
            screen: editor_drawn(self.model(), resources.sprite_sheet),
            transparent: picture.transparent,
        }
    }

    /// Draws the editor over the whole screen, and puts back the transparent
    /// color that was chosen before.
    fn draw<'a>(&self, draw_context: &mut DrawContext<'a>) {
        let former = draw_context.transparency();
        draw_context.cls();

        draw_context.palt(None);
        draw_context.rectfill(0, 0, 127, 127, 5);

        // Draw top menu bar
        draw_context.rectfill(0, 0, 127, 7, 8);

        // Draw bottom menu bar
        draw_context.rectfill(0, 121, 127, 127, 8);

        self.draw_canvas(draw_context);

        self.draw_tools(draw_context);

        draw_context.palt(Some(0));
        self.draw_line_preview(draw_context);

        draw_context.palt(None);
        self.draw_thumbnail(draw_context);

        // Draw sprite sheet
        sprite_sheet_area().fill(draw_context, 2);

        self.draw_sprite_sheet(sprite_sheet_area().y, draw_context);

        self.draw_palette(draw_context);

        draw_context.print(self.bottom_text.as_str(), 1, 122, 2);

        // Always render the mouse last (on top of everything)
        draw_context.palt(Some(0));
        draw_context.raw_spr(
            &self.cursor_sprite,
            clamp_coord(self.mouse_x as i64 - 3),
            clamp_coord(self.mouse_y as i64 - 2),
        );
        draw_context.palt(former);
    }
}

/// Prints every character that has a glyph, in three lines around `(x, y)`.
pub fn print_debug_strings(draw_context: &mut DrawContext, x: i32, y: i32)
    requires
        old(draw_context).wf(),
    ensures
        old(draw_context).drew(
            final(draw_context),
            print_spec(
                print_spec(
                    print_spec(
                        old(draw_context).screen(),
                        " !\"#$%&'()*+,-."@,
                        x as int,
                        clamped(y - 10),
                        7,
                    ),
                    "0123456789:;<=>?@"@,
                    x as int,
                    y as int,
                    7,
                ),
                "ABCDEFGHIJKLMNOPQRSTUVWXYZ"@,
                x as int,
                clamped(y + 10),
                7,
            ),
        ),
{
    draw_context.print(" !\"#$%&'()*+,-.", x, clamp_coord(y as i64 - 10), 7);
    draw_context.print("0123456789:;<=>?@", x, y, 7);
    draw_context.print("ABCDEFGHIJKLMNOPQRSTUVWXYZ", x, clamp_coord(y as i64 + 10), 7);
}

} // verus!
