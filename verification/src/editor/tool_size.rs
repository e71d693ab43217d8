//! The widget that shows the size of the brush.
use crate::runtime::colors;
use crate::runtime::draw_context::{
    clamp_coord,
    clamped,
    lemma_rectfill_clamped,
    rectfill_spec,
    Picture,
};
use crate::runtime::sprite_sheet::Color;
use crate::runtime::state::InternalState;
use crate::screen::ResourcesView;
use crate::ui::slider::SliderValue;
use crate::ui::{DrawCommand, DrawFn, Element, Paint};
use vstd::prelude::*;

verus! {

/// Side of the widget, in pixels.
pub const WIDGET_SIZE: i32 = 7;

/// The side of the brush on the screen, in pixels.
pub open spec fn screen_size(value: SliderValue) -> int {
    match value {
        SliderValue::Tiny => 1,
        SliderValue::Small => 2,
        SliderValue::Medium => 3,
        SliderValue::Large => 5,
    }
}

/// The side of the brush on the screen, in pixels.
pub fn slider_to_screen_size(value: SliderValue) -> (size: i32)
    ensures
        size == screen_size(value),
{
    match value {
        SliderValue::Tiny => 1,
        SliderValue::Small => 2,
        SliderValue::Medium => 3,
        SliderValue::Large => 5,
    }
}

/// What the widget draws with its top left corner at `(x, y)`: a square of
/// 7×7 pixels in the background color, and in its middle the brush, a square
/// in the selected color. Neither reads or changes which color is
/// transparent.
pub open spec fn view_commands(
    x: i32,
    y: i32,
    brush_size: SliderValue,
    selected_color: Color,
) -> Seq<DrawCommand> {
    let size = screen_size(brush_size);
    let left = x + 3 - (size - 1) / 2;
    let top = y + 3 - (size - 1) / 2;
    seq![
        DrawCommand::RectFill {
            x0: x,
            y0: y,
            x1: clamped(x + 6) as i32,
            y1: clamped(y + 6) as i32,
            color: background_color_spec(selected_color),
        },
        DrawCommand::RectFill {
            x0: clamped(left) as i32,
            y0: clamped(top) as i32,
            x1: clamped(left + size - 1) as i32,
            y1: clamped(top + size - 1) as i32,
            color: selected_color,
        },
    ]
}

/// The screen after the widget is drawn with its top left corner at
/// `(x, y)`.
pub open spec fn widget_drawn(
    screen: Seq<Color>,
    x: int,
    y: int,
    brush_size: SliderValue,
    selected_color: Color,
) -> Seq<Color> {
    let size = screen_size(brush_size);
    let left = x + 3 - (size - 1) / 2;
    let top = y + 3 - (size - 1) / 2;
    rectfill_spec(
        rectfill_spec(screen, x, y, x + 6, y + 6, background_color_spec(selected_color)),
        left,
        top,
        left + size - 1,
        top + size - 1,
        selected_color,
    )
}

/// Drawing the commands of the widget gives the widget on the screen and
/// leaves the transparent color as it was, whatever it was.
pub proof fn lemma_view_commands(
    x: i32,
    y: i32,
    brush_size: SliderValue,
    selected_color: Color,
    picture: Picture,
    resources: ResourcesView,
)
    ensures
        DrawFn::run_all(view_commands(x, y, brush_size, selected_color), 2, picture, resources)
            == (Picture {
            screen: widget_drawn(picture.screen, x as int, y as int, brush_size, selected_color),
            transparent: picture.transparent,
        }),
{
    let commands = view_commands(x, y, brush_size, selected_color);
    let size = screen_size(brush_size);
    let left = x + 3 - (size - 1) / 2;
    let top = y + 3 - (size - 1) / 2;
    let background = background_color_spec(selected_color);
    let none = DrawFn::run_all(commands, 0, picture, resources);
    assert(none == picture);
    let first = DrawFn::run_all(commands, 1, picture, resources);
    assert(first == commands[0].apply(none, resources));
    lemma_rectfill_clamped(picture.screen, x as int, y as int, x + 6, y + 6, background);
    assert(first == (Picture {
        screen: rectfill_spec(picture.screen, x as int, y as int, x + 6, y + 6, background),
        transparent: picture.transparent,
    }));
    let second = DrawFn::run_all(commands, 2, picture, resources);
    assert(second == commands[1].apply(first, resources));
    lemma_rectfill_clamped(first.screen, left, top, left + size - 1, top + size - 1, selected_color);
}

/// The widget with its top left corner at `(x, y)`. It answers to no event,
/// and drawing it leaves the transparent color as it was.
pub fn view<Msg: Copy>(x: i32, y: i32, brush_size: SliderValue, selected_color: Color) -> (e: Element<
    Msg,
    DrawFn,
>)
    ensures
        e matches Element::Draw(leaf) && leaf.commands@ == view_commands(
            x,
            y,
            brush_size,
            selected_color,
        ),
        e.wf(),
        e.regions() == Seq::<crate::ui::Region<Msg>>::empty(),
        forall|picture: Picture, resources: ResourcesView, state: InternalState|
            #[trigger] e.paint(picture, resources, state) == (Picture {
                screen: widget_drawn(
                    picture.screen,
                    x as int,
                    y as int,
                    brush_size,
                    selected_color,
                ),
                transparent: picture.transparent,
            }),
{
    let local_center_x = WIDGET_SIZE / 2;
    let local_center_y = WIDGET_SIZE / 2;

    let size = slider_to_screen_size(brush_size);

    let local_left = local_center_x - (size - 1) / 2;
    let local_top = local_center_y - (size - 1) / 2;
    let global_left = local_left as i64 + x as i64;
    let global_top = local_top as i64 + y as i64;

    let mut commands: Vec<DrawCommand> = Vec::new();
    commands.push(
        DrawCommand::RectFill {
            x0: x,
            y0: y,
            x1: clamp_coord(x as i64 + WIDGET_SIZE as i64 - 1),
            y1: clamp_coord(y as i64 + WIDGET_SIZE as i64 - 1),
            color: background_color(selected_color),
        },
    );
    commands.push(
        DrawCommand::RectFill {
            x0: clamp_coord(global_left),
            y0: clamp_coord(global_top),
            x1: clamp_coord(global_left + size as i64 - 1),
            y1: clamp_coord(global_top + size as i64 - 1),
            color: selected_color,
        },
    );
    assert(commands@ =~= view_commands(x, y, brush_size, selected_color));
    let e = Element::Draw(DrawFn::new(commands));
    proof {
        assert forall|picture: Picture, resources: ResourcesView, state: InternalState|
            #[trigger] e.paint(picture, resources, state) == (Picture {
                screen: widget_drawn(
                    picture.screen,
                    x as int,
                    y as int,
                    brush_size,
                    selected_color,
                ),
                transparent: picture.transparent,
            }) by {
            lemma_view_commands(x, y, brush_size, selected_color, picture, resources);
        }
    }
    e
}

/// The color behind the brush: light grey behind black, black behind every
/// other color.
pub open spec fn background_color_spec(selected_color: Color) -> Color {
    if selected_color == colors::BLACK {
        colors::LIGHT_GREY
    } else {
        colors::BLACK
    }
}

/// The color behind the brush.
pub fn background_color(selected_color: Color) -> (c: Color)
    ensures
        c == background_color_spec(selected_color),
{
    if selected_color == colors::BLACK {
        colors::LIGHT_GREY
    } else {
        colors::BLACK
    }
}

} // verus!
