use runty8::runtime::colors;
use runty8::runtime::draw_context::{clamp_coord, DrawContext, DrawData};
use runty8::runtime::sprite_sheet::Sprite;
use runty8::runtime::state::InternalState;
use runty8::Resources;

fn with_context<T>(resources: &Resources, draw: impl FnOnce(&mut DrawContext) -> T) -> (DrawData, T) {
    let state = InternalState::new();
    let mut ctx = DrawContext::new(&state, resources, DrawData::new());
    let result = draw(&mut ctx);
    (ctx.finish(), result)
}

fn drawn(draw: impl FnOnce(&mut DrawContext)) -> DrawData {
    with_context(&Resources::new(String::new()), draw).0
}

fn lit(data: &DrawData) -> Vec<(i32, i32, u8)> {
    let mut pixels = vec![];
    for y in 0..128 {
        for x in 0..128 {
            let color = data.pget(x, y);
            if color != 0 {
                pixels.push((x, y, color));
            }
        }
    }
    pixels
}

/// An 8×8 sprite: a border of color 3, color 0 inside, with one pixel of color 12.
fn ring() -> Sprite {
    let mut pixels = vec![0u8; 64];
    for i in 0..8 {
        pixels[i] = 3;
        pixels[56 + i] = 3;
        pixels[i * 8] = 3;
        pixels[i * 8 + 7] = 3;
    }
    pixels[3 * 8 + 2] = 12;
    Sprite::new(pixels).unwrap()
}

#[test]
fn new_screen_is_blank() {
    let data = DrawData::new();
    assert_eq!(data.buffer().len(), 128 * 128);
    assert!(data.buffer().iter().all(|c| *c == 0));
}

#[test]
fn pset_sets_one_pixel() {
    let data = drawn(|ctx| ctx.pset(5, 9, 7));
    assert_eq!(lit(&data), vec![(5, 9, 7)]);
    assert_eq!(data.buffer()[9 * 128 + 5], 7);
}

#[test]
fn pset_off_the_screen_does_nothing() {
    let data = drawn(|ctx| {
        ctx.pset(-1, 0, 7);
        ctx.pset(0, -1, 7);
        ctx.pset(128, 5, 7);
        ctx.pset(5, 128, 7);
        ctx.pset(i32::MIN, i32::MAX, 7);
    });
    assert_eq!(lit(&data), vec![]);
}

#[test]
fn pset_at_the_corners() {
    let data = drawn(|ctx| {
        ctx.pset(0, 0, 1);
        ctx.pset(127, 0, 2);
        ctx.pset(0, 127, 3);
        ctx.pset(127, 127, 4);
    });
    assert_eq!(lit(&data), vec![(0, 0, 1), (127, 0, 2), (0, 127, 3), (127, 127, 4)]);
}

#[test]
fn colors_are_taken_modulo_sixteen() {
    let data = drawn(|ctx| {
        ctx.pset(0, 0, 17);
        ctx.pset(1, 0, 255);
        ctx.pset(2, 0, 16);
        ctx.rectfill(0, 1, 0, 1, 35);
    });
    assert_eq!(lit(&data), vec![(0, 0, 1), (1, 0, 15), (0, 1, 3)]);
    assert!(data.buffer().iter().all(|c| *c < 16));
}

#[test]
fn pget_reads_the_screen_and_zero_outside() {
    let (_, seen) = with_context(&Resources::new(String::new()), |ctx| {
        ctx.pset(4, 4, 9);
        (ctx.pget(4, 4), ctx.pget(5, 4), ctx.pget(-1, 4), ctx.pget(4, 128))
    });
    assert_eq!(seen, (9, 0, 0, 0));
}

#[test]
fn cls_clears_every_pixel() {
    let data = drawn(|ctx| {
        ctx.rectfill(0, 0, 127, 127, 5);
        ctx.cls();
    });
    assert_eq!(lit(&data), vec![]);
}

#[test]
fn rectfill_fills_its_rectangle() {
    let data = drawn(|ctx| ctx.rectfill(2, 3, 4, 4, 7));
    assert_eq!(
        lit(&data),
        vec![(2, 3, 7), (3, 3, 7), (4, 3, 7), (2, 4, 7), (3, 4, 7), (4, 4, 7)]
    );
}

#[test]
fn rectfill_with_reversed_corners_is_the_same() {
    let cases = [(2, 3, 40, 17), (-5, 100, 30, 140), (0, 0, 127, 127), (7, 7, 7, 7), (-9, -9, -2, -2)];
    for (x0, y0, x1, y1) in cases {
        let straight = drawn(|ctx| ctx.rectfill(x0, y0, x1, y1, 6));
        for (a0, b0, a1, b1) in [(x1, y1, x0, y0), (x0, y1, x1, y0), (x1, y0, x0, y1)] {
            let other = drawn(|ctx| ctx.rectfill(a0, b0, a1, b1, 6));
            assert_eq!(straight.buffer(), other.buffer());
        }
    }
}

#[test]
fn rectfill_is_clipped_pixel_by_pixel() {
    let data = drawn(|ctx| ctx.rectfill(-10, 126, 1, 300, 4));
    assert_eq!(lit(&data), vec![(0, 126, 4), (1, 126, 4), (0, 127, 4), (1, 127, 4)]);
    let all = drawn(|ctx| ctx.rectfill(i32::MIN, i32::MAX, i32::MAX, i32::MIN, 4));
    assert!(all.buffer().iter().all(|c| *c == 4));
    let none = drawn(|ctx| ctx.rectfill(128, 0, 200, 127, 4));
    assert_eq!(lit(&none), vec![]);
}

#[test]
fn rect_draws_the_outline_only() {
    let data = drawn(|ctx| ctx.rect(10, 10, 13, 12, 9));
    assert_eq!(
        lit(&data),
        vec![
            (10, 10, 9), (11, 10, 9), (12, 10, 9), (13, 10, 9),
            (10, 11, 9), (13, 11, 9),
            (10, 12, 9), (11, 12, 9), (12, 12, 9), (13, 12, 9),
        ]
    );
    let reversed = drawn(|ctx| ctx.rect(13, 12, 10, 10, 9));
    assert_eq!(data.buffer(), reversed.buffer());
}

#[test]
fn rect_of_one_row_and_of_one_pixel() {
    assert_eq!(lit(&drawn(|ctx| ctx.rect(3, 3, 3, 3, 2))), vec![(3, 3, 2)]);
    assert_eq!(lit(&drawn(|ctx| ctx.rect(3, 3, 5, 3, 2))), vec![(3, 3, 2), (4, 3, 2), (5, 3, 2)]);
}

#[test]
fn line_draws_its_points() {
    let data = drawn(|ctx| ctx.line(0, 0, 3, 1, 6));
    assert_eq!(lit(&data), vec![(0, 0, 6), (1, 0, 6), (2, 1, 6), (3, 1, 6)]);
    let point = drawn(|ctx| ctx.line(9, 9, 9, 9, 6));
    assert_eq!(lit(&point), vec![(9, 9, 6)]);
}

#[test]
fn line_is_the_same_from_either_end() {
    for (x0, y0, x1, y1) in [(0, 0, 100, 37), (5, 120, 90, 3), (-20, 10, 150, 60), (64, -5, 70, 200)] {
        let forward = drawn(|ctx| ctx.line(x0, y0, x1, y1, 6));
        let backward = drawn(|ctx| ctx.line(x1, y1, x0, y0, 6));
        assert_eq!(forward.buffer(), backward.buffer());
    }
}

#[test]
fn line_is_clipped_to_the_screen() {
    let data = drawn(|ctx| ctx.line(-3, 5, 2, 5, 6));
    assert_eq!(lit(&data), vec![(0, 5, 6), (1, 5, 6), (2, 5, 6)]);
}

#[test]
fn sprite_leaves_the_background_where_it_is_transparent() {
    let sprite = ring();
    let data = drawn(|ctx| {
        ctx.rectfill(0, 0, 127, 127, 5);
        ctx.palt(Some(0));
        ctx.raw_spr(&sprite, 10, 20);
    });
    for y in 0..128 {
        for x in 0..128 {
            let (sx, sy) = (x - 10, y - 20);
            let expected = if (0..8).contains(&sx) && (0..8).contains(&sy) {
                match sprite.pget(sx as isize, sy as isize) {
                    0 => 5,
                    color => color,
                }
            } else {
                5
            };
            assert_eq!(data.pget(x, y), expected);
        }
    }
    assert_eq!(data.pget(10, 20), 3);
    assert_eq!(data.pget(11, 21), 5);
    assert_eq!(data.pget(12, 23), 12);
}

#[test]
fn sprite_without_transparency_draws_every_pixel() {
    let sprite = ring();
    let data = drawn(|ctx| {
        ctx.rectfill(0, 0, 127, 127, 5);
        ctx.palt(None);
        ctx.raw_spr(&sprite, 10, 20);
    });
    assert_eq!(data.pget(10, 20), 3);
    assert_eq!(data.pget(11, 21), 0);
    assert_eq!(data.pget(12, 23), 12);
    assert_eq!(data.pget(18, 20), 5);
}

#[test]
fn any_color_can_be_the_transparent_one() {
    let sprite = ring();
    let data = drawn(|ctx| {
        ctx.rectfill(0, 0, 127, 127, 5);
        ctx.palt(Some(3));
        ctx.raw_spr(&sprite, 0, 0);
    });
    assert_eq!(data.pget(0, 0), 5);
    assert_eq!(data.pget(1, 1), 0);
    assert_eq!(data.pget(2, 3), 12);
}

#[test]
fn color_zero_is_transparent_at_the_start_of_a_pass() {
    let sprite = ring();
    let data = drawn(|ctx| {
        ctx.rectfill(0, 0, 127, 127, 5);
        ctx.raw_spr(&sprite, 0, 0);
    });
    assert_eq!(data.pget(1, 1), 5);
}

#[test]
fn transparency_stays_until_it_is_changed() {
    let sprite = ring();
    let data = drawn(|ctx| {
        ctx.rectfill(0, 0, 127, 127, 5);
        ctx.palt(None);
        ctx.raw_spr(&sprite, 0, 0);
        ctx.pset(100, 100, 1);
        ctx.raw_spr(&sprite, 20, 0);
        ctx.palt(Some(0));
        ctx.raw_spr(&sprite, 40, 0);
    });
    assert_eq!(data.pget(1, 1), 0);
    assert_eq!(data.pget(21, 1), 0);
    assert_eq!(data.pget(41, 1), 5);
}

#[test]
fn sprite_is_clipped_at_the_edges() {
    let sprite = Sprite::filled(9);
    let data = drawn(|ctx| {
        ctx.raw_spr(&sprite, -6, -7);
        ctx.raw_spr(&sprite, 126, 127);
        ctx.raw_spr(&sprite, i32::MAX, i32::MIN);
    });
    assert_eq!(
        lit(&data),
        vec![(0, 0, 9), (1, 0, 9), (126, 127, 9), (127, 127, 9)]
    );
}

#[test]
fn spr_takes_the_sprite_from_its_cell_of_the_sheet() {
    let mut resources = Resources::new(String::new());
    resources.sprite_sheet.set_sprite(17, &ring());
    // Sprite 17 is in column 1 of row 1 of the grid.
    let pixels = resources.sprite_sheet.pixels();
    assert_eq!(pixels[8 * 128 + 8], 3);
    assert_eq!(pixels[(8 + 3) * 128 + 8 + 2], 12);
    assert_eq!(pixels[(8 + 1) * 128 + 8 + 1], 0);
    assert_eq!(pixels.iter().filter(|c| **c != 0).count(), 29);

    let (data, _) = with_context(&resources, |ctx| {
        ctx.rectfill(0, 0, 127, 127, 5);
        ctx.spr(17, 50, 60);
        ctx.spr(16, 70, 60);
    });
    assert_eq!(data.pget(50, 60), 3);
    assert_eq!(data.pget(51, 61), 5);
    assert_eq!(data.pget(52, 63), 12);
    assert_eq!(data.pget(70, 60), 5);
}

#[test]
fn sprite_index_wraps_around_the_sheet() {
    let mut resources = Resources::new(String::new());
    resources.sprite_sheet.set_sprite(2, &Sprite::filled(4));
    let (data, _) = with_context(&resources, |ctx| ctx.spr(256 + 2, 0, 0));
    assert_eq!(data.pget(0, 0), 4);
    assert_eq!(data.pget(7, 7), 4);
    assert_eq!(data.pget(8, 0), 0);
}

#[test]
fn print_draws_glyphs_from_left_to_right() {
    let data = drawn(|ctx| ctx.print("A1", 10, 20, 7));
    let expected = [
        "###.##..",
        "#.#..#..",
        "###..#..",
        "#.#..#..",
        "#.#.###.",
        "........",
    ];
    for (row, line) in expected.iter().enumerate() {
        for (column, cell) in line.chars().enumerate() {
            let color = data.pget(10 + column as i32, 20 + row as i32);
            assert_eq!(color, if cell == '#' { 7 } else { 0 });
        }
    }
    assert_eq!(lit(&data).len(), 12 + 8);
}

#[test]
fn characters_without_a_glyph_are_blank() {
    let known = drawn(|ctx| ctx.print(" A", 0, 0, 7));
    for unknown in ["aA", "~A", "éA", "[A"] {
        let data = drawn(|ctx| ctx.print(unknown, 0, 0, 7));
        assert_eq!(data.buffer(), known.buffer());
    }
    assert_eq!(known.pget(4, 0), 7);
    assert_eq!(known.pget(0, 0), 0);
}

#[test]
fn print_does_not_wrap() {
    let data = drawn(|ctx| ctx.print("HHHH", 122, 0, 7));
    // The first `H` is whole, the second cut at the edge, the rest lost.
    assert_eq!(data.pget(122, 0), 7);
    assert_eq!(data.pget(124, 0), 7);
    assert_eq!(data.pget(126, 0), 7);
    assert_eq!(data.pget(127, 0), 0);
    assert_eq!(data.pget(127, 2), 7);
    for y in 0..128 {
        for x in 0..122 {
            assert_eq!(data.pget(x, y), 0);
        }
    }
}

#[test]
fn print_left_of_the_screen_shows_what_is_on_it() {
    let data = drawn(|ctx| ctx.print("AH", -4, 0, 7));
    let only_h = drawn(|ctx| ctx.print("H", 0, 0, 7));
    assert_eq!(data.buffer(), only_h.buffer());
    let empty = drawn(|ctx| ctx.print("", 5, 5, 7));
    assert_eq!(lit(&empty), vec![]);
}

#[test]
fn screen_as_red_green_blue() {
    let data = drawn(|ctx| {
        ctx.pset(0, 0, colors::RED);
        ctx.pset(1, 0, colors::WHITE);
        ctx.pset(127, 127, colors::BLUE);
    });
    let bytes = data.to_rgb();
    assert_eq!(bytes.len(), 128 * 128 * 3);
    assert_eq!(&bytes[0..3], &[255, 0, 77]);
    assert_eq!(&bytes[3..6], &[255, 241, 232]);
    assert_eq!(&bytes[6..9], &[0, 0, 0]);
    assert_eq!(&bytes[bytes.len() - 3..], &[41, 173, 255]);
    assert_eq!(colors::rgb(colors::LIGHT_PEACH), (255, 204, 170));
    assert_eq!(colors::rgb(16 + colors::DARK_BLUE), (29, 43, 83));
}

#[test]
fn coordinates_are_clamped_to_the_machine_range() {
    assert_eq!(clamp_coord(5), 5);
    assert_eq!(clamp_coord(-5), -5);
    assert_eq!(clamp_coord(i32::MAX as i64 + 1), i32::MAX);
    assert_eq!(clamp_coord(i32::MIN as i64 - 1), i32::MIN);
    assert_eq!(clamp_coord(i64::MAX), i32::MAX);
    assert_eq!(clamp_coord(i64::MIN), i32::MIN);
}
